use vstd::prelude::*;
use crate::mutate::printable;

verus! {

/// ASCII decimal digits of `n`, most significant first, without leading zeros.
pub open spec fn decimal(n: nat) -> Seq<u8>
    decreases n,
{
    if n < 10 {
        seq![(48 + n) as u8]
    } else {
        decimal(n / 10).push((48 + n % 10) as u8)
    }
}

/// The characters that an ASCII byte sequence spells.
pub open spec fn ascii_chars(b: Seq<u8>) -> Seq<char> {
    b.map_values(|x: u8| x as char)
}

pub open spec fn is_ascii_bytes(b: Seq<u8>) -> bool {
    forall|i: int| 0 <= i < b.len() ==> #[trigger] b[i] < 128
}

pub proof fn lemma_decimal_ascii(n: nat)
    ensures
        is_ascii_bytes(decimal(n)),
        decimal(n).len() >= 1,
        forall|i: int| 0 <= i < decimal(n).len() ==> 48 <= #[trigger] decimal(n)[i] <= 57,
    decreases n,
{
    if n >= 10 {
        lemma_decimal_ascii(n / 10);
    }
}

/// Writes the decimal digits of `n` at the end of `out`.
pub fn push_decimal(out: &mut Vec<u8>, n: u64)
    ensures
        final(out)@ == old(out)@ + decimal(n as nat),
    decreases n,
{
    if n < 10 {
        out.push((48 + n) as u8);
        assert(decimal(n as nat) =~= seq![(48 + n) as u8]);
    } else {
        push_decimal(out, n / 10);
        out.push((48 + n % 10) as u8);
    }
}

/// Relies on `String::from_utf8`: ASCII bytes are valid UTF-8 and each byte
/// becomes the character of the same code.
#[verifier::external_body]
fn ascii_string(b: Vec<u8>) -> (r: String)
    requires
        is_ascii_bytes(b@),
    ensures
        r@ == ascii_chars(b@),
{
    String::from_utf8(b).unwrap()
}

/// The latest second whose UTC date still has a four-digit year
/// (9999-12-31 23:59:59).
pub const LAST_STAMP_SECS: i64 = 253402300799;

/// What chrono prints for the UTC time `secs` seconds after the epoch in the
/// `%Y-%m-%d %H:%M:%S` format.
pub uninterp spec fn utc_stamp(secs: int) -> Seq<u8>;

/// Relies on chrono's `DateTime::<Utc>::from_timestamp`, which accepts every
/// second from the epoch to the end of year 9999, and on its
/// `%Y-%m-%d %H:%M:%S` format, whose fields are zero-padded digits (four for
/// such a year, two for the others): 19 printable ASCII characters.
#[verifier::external_body]
fn utc_stamp_bytes(secs: i64) -> (r: Vec<u8>)
    requires
        0 <= secs <= LAST_STAMP_SECS,
    ensures
        r@ == utc_stamp(secs as int),
        r@.len() == 19,
        printable(r@),
{
    chrono::DateTime::<chrono::Utc>::from_timestamp(secs, 0).unwrap().format(
        "%Y-%m-%d %H:%M:%S",
    ).to_string().into_bytes()
}

/// The human-readable UTC time stamp of `secs`, for seconds from the epoch
/// to the end of year 9999; `None` outside that span.
pub fn format_stamp(secs: i64) -> (r: Option<Vec<u8>>)
    ensures
        r is Some <==> 0 <= secs <= LAST_STAMP_SECS,
        r matches Some(v) ==> v@ == utc_stamp(secs as int) && v@.len() == 19 && printable(v@),
{
    if 0 <= secs && secs <= LAST_STAMP_SECS {
        Some(utc_stamp_bytes(secs))
    } else {
        None
    }
}

proof fn lemma_printable_ascii(b: Seq<u8>)
    requires
        printable(b),
    ensures
        is_ascii_bytes(b),
{
    assert forall|i: int| 0 <= i < b.len() implies #[trigger] b[i] < 128 by {
        assert(32 <= b[i] <= 126);
    }
}

/// The text of `b` as a `String`.
fn printable_string(b: &Vec<u8>) -> (r: String)
    requires
        printable(b@),
    ensures
        r@ == ascii_chars(b@),
{
    let mut c: Vec<u8> = Vec::new();
    let mut i: usize = 0;
    while i < b.len()
        invariant
            i <= b@.len(),
            c@ == b@.take(i as int),
        decreases b@.len() - i,
    {
        c.push(b[i]);
        assert(c@ =~= b@.take(i + 1));
        i = i + 1;
    }
    assert(c@ =~= b@);
    proof {
        lemma_printable_ascii(b@);
    }
    ascii_string(c)
}

/// The decimal digits of `n` as a `String`.
pub fn decimal_string(n: u64) -> (r: String)
    ensures
        r@ == ascii_chars(decimal(n as nat)),
{
    let mut d: Vec<u8> = Vec::new();
    push_decimal(&mut d, n);
    assert(d@ =~= decimal(n as nat));
    proof {
        lemma_decimal_ascii(n as nat);
    }
    ascii_string(d)
}

/// `bot-update-<secs>`: the working branch of the run started at `secs`.
pub fn branch_name(secs: u64) -> (r: String)
    ensures
        r@ == "bot-update-"@ + ascii_chars(decimal(secs as nat)),
{
    let d = decimal_string(secs);
    String::from_str("bot-update-").concat(d.as_str())
}

pub open spec fn commit_text(n: nat) -> Seq<char> {
    "Update "@ + ascii_chars(decimal(n)) + " files"@
}

/// The commit message of a run that touched `n` files.
pub fn commit_message(n: usize) -> (r: String)
    ensures
        r@ == commit_text(n as nat),
{
    let d = decimal_string(n as u64);
    String::from_str("Update ").concat(d.as_str()).concat(" files")
}

pub open spec fn merge_text(number: nat) -> Seq<char> {
    "Merged bot update PR #"@ + ascii_chars(decimal(number))
}

/// The title of the squash merge of request `number`.
pub fn merge_title(number: u64) -> (r: String)
    ensures
        r@ == merge_text(number as nat),
{
    let d = decimal_string(number);
    String::from_str("Merged bot update PR #").concat(d.as_str())
}

/// The title of a change request opened at the time `stamp`.
pub fn request_title(stamp: &Vec<u8>) -> (r: String)
    requires
        printable(stamp@),
    ensures
        r@ == "Bot update "@ + ascii_chars(stamp@),
{
    let t = printable_string(stamp);
    String::from_str("Bot update ").concat(t.as_str())
}

/// The body of a change request opened at the time `stamp`.
pub fn request_body(stamp: &Vec<u8>) -> (r: String)
    requires
        printable(stamp@),
    ensures
        r@ == "This is an automated PR created by the activity bot. Timestamp: "@ + ascii_chars(stamp@),
{
    let t = printable_string(stamp);
    String::from_str("This is an automated PR created by the activity bot. Timestamp: ").concat(t.as_str())
}

} // verus!
