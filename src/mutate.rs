use vstd::prelude::*;
use crate::random::draw_between;
use crate::select::min_nat;
use crate::lines::{
    Ending, Line, LineView, lines_view, no_newline, parse, parse_lines, render, render_lines,
    wf_lines, lemma_parse_wf, lemma_parse_render,
};

verus! {

/// The ways a single line can be touched.
#[derive(Debug, Clone, Copy, PartialEq, Eq, Structural)]
pub enum Strategy {
    /// Append a marker comment to a code line, or write the marker into a blank line.
    Annotate,
    /// Insert a blank line right after the line.
    Spacer,
    /// Replace the leading whitespace with `units` indent units (at least
    /// one on an unterminated last line that holds only whitespace).
    Reindent,
    /// Overwrite the line with a placeholder comment.
    TodoStamp,
}

/// One edit: which line, how, and (for `Reindent`) how many indent units.
#[derive(Debug, Clone, Copy, PartialEq, Eq, Structural)]
pub struct Edit {
    pub index: usize,
    pub strategy: Strategy,
    pub units: usize,
}

/// Spaces in one indent unit.
pub const INDENT_UNIT: usize = 4;

/// The largest number of indent units a reindent writes.
pub const MAX_UNITS: usize = 3;

pub open spec fn is_ws(b: u8) -> bool {
    b == 32 || b == 9
}

/// `b` without its leading spaces and tabs.
pub open spec fn trim_start(b: Seq<u8>) -> Seq<u8>
    decreases b.len(),
{
    if b.len() > 0 && is_ws(b[0]) {
        trim_start(b.skip(1))
    } else {
        b
    }
}

pub open spec fn is_blank(b: Seq<u8>) -> bool {
    trim_start(b).len() == 0
}

/// The line's text begins with `//` or `#` once its indent is removed.
pub open spec fn is_comment(b: Seq<u8>) -> bool {
    let t = trim_start(b);
    (t.len() >= 1 && t[0] == 35) || (t.len() >= 2 && t[0] == 47 && t[1] == 47)
}

/// Every byte is printable ASCII.
pub open spec fn printable(b: Seq<u8>) -> bool {
    forall|i: int| 0 <= i < b.len() ==> 32 <= #[trigger] b[i] <= 126
}

/// `// bot ` followed by the time stamp.
pub open spec fn marker(stamp: Seq<u8>) -> Seq<u8> {
    seq![47u8, 47, 32, 98, 111, 116, 32] + stamp
}

/// `// TODO: ` followed by the time stamp.
pub open spec fn todo_text(stamp: Seq<u8>) -> Seq<u8> {
    seq![47u8, 47, 32, 84, 79, 68, 79, 58, 32] + stamp
}

pub open spec fn spaces(n: nat) -> Seq<u8> {
    Seq::new(n, |i: int| 32u8)
}

/// Indent units a reindent writes: `units`, except that an unterminated last
/// line holding only whitespace gets at least one, so that it is not erased
/// from the file.
pub open spec fn reindent_units(l: LineView, units: usize) -> nat {
    if l.1 == Ending::Bare && is_blank(l.0) && units == 0 {
        1
    } else {
        units as nat
    }
}

pub open spec fn set_body(ls: Seq<LineView>, i: int, b: Seq<u8>) -> Seq<LineView> {
    ls.update(i, (b, ls[i].1))
}

/// The lines after one edit.
pub open spec fn apply_edit(ls: Seq<LineView>, e: Edit, stamp: Seq<u8>) -> Seq<LineView> {
    let i = e.index as int;
    let b = ls[i].0;
    match e.strategy {
        Strategy::Annotate => if is_blank(b) {
            set_body(ls, i, marker(stamp))
        } else if is_comment(b) {
            ls
        } else {
            set_body(ls, i, b + seq![32u8] + marker(stamp))
        },
        Strategy::Spacer => if ls[i].1 == Ending::Bare {
            ls
        } else {
            ls.insert(i + 1, (Seq::empty(), ls[i].1))
        },
        Strategy::Reindent => set_body(
            ls,
            i,
            spaces(INDENT_UNIT as nat * reindent_units(ls[i], e.units)) + trim_start(b),
        ),
        Strategy::TodoStamp => set_body(ls, i, todo_text(stamp)),
    }
}

/// The lines after the edits, in order.
pub open spec fn apply_edits(ls: Seq<LineView>, edits: Seq<Edit>, stamp: Seq<u8>) -> Seq<LineView>
    decreases edits.len(),
{
    if edits.len() == 0 {
        ls
    } else {
        apply_edit(apply_edits(ls, edits.drop_last(), stamp), edits.last(), stamp)
    }
}

/// Every edit aims at one of the first `n` lines and stays within the indent range.
pub open spec fn edits_within(edits: Seq<Edit>, n: nat) -> bool {
    forall|k: int|
        0 <= k < edits.len() ==> (#[trigger] edits[k]).index < n && edits[k].units <= MAX_UNITS
}

/// The terminators of `after` are all terminators of `before`, and the last
/// line keeps its own: the file's line-ending encoding is unchanged.
pub open spec fn endings_kept(before: Seq<LineView>, after: Seq<LineView>) -> bool {
    &&& after.len() >= before.len()
    &&& forall|j: int|
        0 <= j < after.len() ==> exists|i: int| 0 <= i < before.len() && #[trigger] after[j].1 == before[i].1
    &&& before.len() > 0 ==> after.last().1 == before.last().1
}

proof fn lemma_trim_suffix(b: Seq<u8>)
    ensures
        trim_start(b).len() <= b.len(),
        trim_start(b) =~= b.skip(b.len() - trim_start(b).len()),
        trim_start(b).len() > 0 ==> !is_ws(trim_start(b)[0]),
    decreases b.len(),
{
    if b.len() > 0 && is_ws(b[0]) {
        lemma_trim_suffix(b.skip(1));
    }
}

proof fn lemma_edit_keeps(ls: Seq<LineView>, e: Edit, stamp: Seq<u8>)
    requires
        wf_lines(ls),
        e.index < ls.len(),
        printable(stamp),
    ensures
        wf_lines(apply_edit(ls, e, stamp)),
        endings_kept(ls, apply_edit(ls, e, stamp)),
{
    let i = e.index as int;
    let b = ls[i].0;
    let r = apply_edit(ls, e, stamp);
    assert(no_newline(ls[i].0));
    let nb = r[i].0;
    assert(no_newline(marker(stamp)) && no_newline(todo_text(stamp))) by {
        assert forall|k: int| 0 <= k < marker(stamp).len() implies #[trigger] marker(stamp)[k] != 10 by {
            if k >= 7 {
                assert(marker(stamp)[k] == stamp[k - 7]);
            }
        }
        assert forall|k: int| 0 <= k < todo_text(stamp).len() implies #[trigger] todo_text(stamp)[k] != 10 by {
            if k >= 9 {
                assert(todo_text(stamp)[k] == stamp[k - 9]);
            }
        }
    }
    assert(marker(stamp).last() != 13 && todo_text(stamp).last() != 13) by {
        if stamp.len() > 0 {
            assert(marker(stamp).last() == stamp[stamp.len() - 1]);
            assert(todo_text(stamp).last() == stamp[stamp.len() - 1]);
        }
    }
    if e.strategy == Strategy::Spacer {
        if ls[i].1 != Ending::Bare {
            assert forall|j: int| 0 <= j < r.len() implies no_newline(#[trigger] r[j].0) by {
                if j < i + 1 {
                    assert(r[j] == ls[j]);
                } else if j > i + 1 {
                    assert(r[j] == ls[j - 1]);
                }
            }
            assert forall|j: int|
                0 <= j < r.len() && #[trigger] r[j].1 == Ending::Lf && r[j].0.len() > 0 implies r[j].0.last()
                != 13 by {
                if j < i + 1 {
                    assert(r[j] == ls[j]);
                } else if j > i + 1 {
                    assert(r[j] == ls[j - 1]);
                }
            }
            assert forall|j: int| 0 <= j < r.len() - 1 implies #[trigger] r[j].1 != Ending::Bare by {
                if j < i {
                    assert(r[j] == ls[j]);
                } else if j > i + 1 {
                    assert(r[j] == ls[j - 1]);
                }
            }
            assert forall|j: int| 0 <= j < r.len() implies exists|k: int|
                0 <= k < ls.len() && #[trigger] r[j].1 == ls[k].1 by {
                if j < i + 1 {
                    assert(r[j] == ls[j]);
                } else if j > i + 1 {
                    assert(r[j] == ls[j - 1]);
                } else {
                    assert(r[j].1 == ls[i].1);
                }
            }
            if i == ls.len() - 1 {
                assert(r.last() == r[i + 1]);
            } else {
                assert(r.last() == ls[ls.len() - 1]);
            }
        }
    } else {
        if r != ls {
            assert(r =~= set_body(ls, i, nb));
            assert(no_newline(nb) && (nb.len() > 0 ==> (nb.last() != 13 || (e.strategy
                == Strategy::Reindent && b.len() > 0 && nb.last() == b.last()))) && (ls[i].1
                == Ending::Bare ==> nb.len() > 0)) by {
                if e.strategy == Strategy::Reindent {
                    lemma_trim_suffix(b);
                    let t = trim_start(b);
                    let sp = spaces(INDENT_UNIT as nat * reindent_units(ls[i], e.units));
                    assert forall|k: int| 0 <= k < nb.len() implies #[trigger] nb[k] != 10 by {
                        if k >= sp.len() {
                            assert(nb[k] == t[k - sp.len()]);
                            assert(t[k - sp.len()] == b[b.len() - t.len() + k - sp.len()]);
                        }
                    }
                    if t.len() > 0 {
                        assert(nb.last() == b.last());
                    } else if nb.len() > 0 {
                        assert(nb.last() == sp[sp.len() - 1]);
                    }
                } else if e.strategy == Strategy::Annotate && !is_blank(b) {
                    let s1 = b + seq![32u8];
                    assert forall|k: int| 0 <= k < nb.len() implies #[trigger] nb[k] != 10 by {
                        if k < b.len() {
                            assert(nb[k] == b[k]);
                        } else if k > b.len() {
                            assert(nb[k] == marker(stamp)[k - b.len() - 1]);
                        }
                    }
                    assert(nb.last() == marker(stamp).last());
                }
            }
            assert forall|j: int| 0 <= j < r.len() implies no_newline(#[trigger] r[j].0) by {
                if j != i {
                    assert(r[j] == ls[j]);
                }
            }
            assert forall|j: int| 0 <= j < r.len() implies exists|k: int|
                0 <= k < ls.len() && #[trigger] r[j].1 == ls[k].1 by {
                assert(r[j].1 == ls[j].1);
            }
            assert(r.last().1 == ls.last().1);
        } else {
            assert forall|j: int| 0 <= j < r.len() implies exists|k: int|
                0 <= k < ls.len() && #[trigger] r[j].1 == ls[k].1 by {
                assert(r[j].1 == ls[j].1);
            }
        }
    }
}

proof fn lemma_edits_keep(ls: Seq<LineView>, edits: Seq<Edit>, stamp: Seq<u8>)
    requires
        wf_lines(ls),
        edits_within(edits, ls.len()),
        printable(stamp),
    ensures
        wf_lines(apply_edits(ls, edits, stamp)),
        endings_kept(ls, apply_edits(ls, edits, stamp)),
    decreases edits.len(),
{
    if edits.len() > 0 {
        let p = edits.drop_last();
        assert(edits_within(p, ls.len()));
        lemma_edits_keep(ls, p, stamp);
        let mid = apply_edits(ls, p, stamp);
        assert(edits_within(edits, ls.len()));
        assert(edits[edits.len() - 1].index < ls.len());
        lemma_edit_keeps(mid, edits.last(), stamp);
        let r = apply_edits(ls, edits, stamp);
        assert forall|j: int| 0 <= j < r.len() implies exists|i: int|
            0 <= i < ls.len() && #[trigger] r[j].1 == ls[i].1 by {
            let k = choose|k: int| 0 <= k < mid.len() && r[j].1 == mid[k].1;
        }
    }
}

/// Appends the bytes of `src` to `out`.
fn append_bytes(out: &mut Vec<u8>, src: &Vec<u8>)
    ensures
        final(out)@ == old(out)@ + src@,
{
    let ghost start = out@;
    let mut j: usize = 0;
    while j < src.len()
        invariant
            j <= src@.len(),
            out@ == start + src@.take(j as int),
        decreases src@.len() - j,
    {
        out.push(src[j]);
        assert(src@.take(j + 1) =~= src@.take(j as int).push(src@[j as int]));
        assert(out@ =~= start + src@.take(j + 1));
        j = j + 1;
    }
    assert(src@.take(src@.len() as int) =~= src@);
}

/// Where the text of `b` begins after its leading spaces and tabs.
fn indent_end(b: &Vec<u8>) -> (k: usize)
    ensures
        k <= b@.len(),
        b@.skip(k as int) == trim_start(b@),
{
    let mut k: usize = 0;
    assert(b@.skip(0) =~= b@);
    while k < b.len() && (b[k] == 32 || b[k] == 9)
        invariant
            k <= b@.len(),
            trim_start(b@.skip(k as int)) == trim_start(b@),
        decreases b@.len() - k,
    {
        assert(b@.skip(k as int).skip(1) =~= b@.skip(k + 1));
        k = k + 1;
    }
    k
}

/// Applies one edit to the lines in place.
pub fn apply_edit_in_place(lines: &mut Vec<Line>, e: Edit, stamp: &Vec<u8>)
    requires
        e.index < old(lines)@.len(),
        e.units <= MAX_UNITS,
    ensures
        lines_view(final(lines)@) == apply_edit(lines_view(old(lines)@), e, stamp@),
{
    let i = e.index;
    let len = lines.len();
    let ghost lv = lines_view(lines@);
    let ending = lines[i].ending;
    assert(lv[i as int] == lines@[i as int]@);
    match e.strategy {
        Strategy::Spacer => {
            if ending != Ending::Bare {
                lines.insert(i + 1, Line { body: Vec::new(), ending });
                assert(lines_view(lines@) =~= lv.insert(i + 1, (Seq::empty(), ending)));
            }
        },
        Strategy::TodoStamp => {
            let mut nb: Vec<u8> = vec![47u8, 47, 32, 84, 79, 68, 79, 58, 32];
            append_bytes(&mut nb, stamp);
            assert(nb@ =~= todo_text(stamp@));
            lines.set(i, Line { body: nb, ending });
            assert(lines_view(lines@) =~= set_body(lv, i as int, todo_text(stamp@)));
        },
        Strategy::Annotate => {
            let k = indent_end(&lines[i].body);
            let n = lines[i].body.len();
            if k == n {
                let mut nb: Vec<u8> = vec![47u8, 47, 32, 98, 111, 116, 32];
                append_bytes(&mut nb, stamp);
                assert(nb@ =~= marker(stamp@));
                lines.set(i, Line { body: nb, ending });
                assert(lines_view(lines@) =~= set_body(lv, i as int, marker(stamp@)));
            } else if lines[i].body[k] == 35 || (k + 1 < n && lines[i].body[k] == 47
                && lines[i].body[k + 1] == 47) {
                assert(is_comment(lv[i as int].0));
            } else {
                assert(!is_comment(lv[i as int].0));
                let mut nb: Vec<u8> = Vec::new();
                append_bytes(&mut nb, &lines[i].body);
                let mut m: Vec<u8> = vec![32u8, 47, 47, 32, 98, 111, 116, 32];
                append_bytes(&mut m, stamp);
                append_bytes(&mut nb, &m);
                assert(nb@ =~= lv[i as int].0 + seq![32u8] + marker(stamp@));
                lines.set(i, Line { body: nb, ending });
                assert(lines_view(lines@) =~= set_body(
                    lv,
                    i as int,
                    lv[i as int].0 + seq![32u8] + marker(stamp@),
                ));
            }
        },
        Strategy::Reindent => {
            let k = indent_end(&lines[i].body);
            let n = lines[i].body.len();
            let units = if ending == Ending::Bare && k == n && e.units == 0 {
                1
            } else {
                e.units
            };
            assert(units == reindent_units(lv[i as int], e.units));
            let mut nb: Vec<u8> = Vec::new();
            let w = INDENT_UNIT * units;
            let mut j: usize = 0;
            while j < w
                invariant
                    j <= w,
                    nb@ == spaces(j as nat),
                decreases w - j,
            {
                nb.push(32);
                assert(nb@ =~= spaces((j + 1) as nat));
                j = j + 1;
            }
            let ghost sp = nb@;
            let body: &Vec<u8> = &lines[i].body;
            let mut t: usize = k;
            while t < n
                invariant
                    k <= t <= n,
                    n == body@.len(),
                    nb@ == sp + body@.subrange(k as int, t as int),
                decreases n - t,
            {
                nb.push(body[t]);
                assert(nb@ =~= sp + body@.subrange(k as int, t + 1));
                t = t + 1;
            }
            assert(body@.subrange(k as int, n as int) =~= body@.skip(k as int));
            lines.set(i, Line { body: nb, ending });
            assert(lines_view(lines@) =~= set_body(
                lv,
                i as int,
                spaces(INDENT_UNIT as nat * reindent_units(lv[i as int], e.units)) + trim_start(
                    lv[i as int].0,
                ),
            ));
        },
    }
}

/// Applies the edits in order to the lines of `content` and returns the
/// bytes to write back. Reading those bytes again yields exactly the edited
/// lines, and every line keeps a terminator the file already used.
pub fn mutate_content(content: &Vec<u8>, edits: &Vec<Edit>, stamp: &Vec<u8>) -> (r: Vec<u8>)
    requires
        edits_within(edits@, parse(content@).len()),
        printable(stamp@),
    ensures
        r@ == render(apply_edits(parse(content@), edits@, stamp@)),
        parse(r@) == apply_edits(parse(content@), edits@, stamp@),
        wf_lines(parse(r@)),
        endings_kept(parse(content@), parse(r@)),
{
    let mut lines = parse_lines(content);
    let ghost start = lines_view(lines@);
    proof {
        lemma_parse_wf(content@);
    }
    let mut i: usize = 0;
    while i < edits.len()
        invariant
            i <= edits@.len(),
            start == parse(content@),
            edits_within(edits@, start.len()),
            printable(stamp@),
            lines_view(lines@) == apply_edits(start, edits@.take(i as int), stamp@),
            lines@.len() >= start.len(),
        decreases edits@.len() - i,
    {
        let e = edits[i];
        assert(edits@.take(i + 1).drop_last() =~= edits@.take(i as int));
        assert(edits@.take(i + 1).last() == e);
        assert(e.index < start.len() && e.units <= MAX_UNITS);
        proof {
            assert(edits_within(edits@.take(i as int), start.len()));
            lemma_parse_wf(content@);
            lemma_edits_keep(start, edits@.take(i as int), stamp@);
        }
        apply_edit_in_place(&mut lines, e, stamp);
        proof {
            lemma_edit_keeps(apply_edits(start, edits@.take(i as int), stamp@), e, stamp@);
        }
        i = i + 1;
    }
    assert(edits@.take(edits@.len() as int) =~= edits@);
    proof {
        lemma_edits_keep(start, edits@, stamp@);
        lemma_parse_render(apply_edits(start, edits@, stamp@));
    }
    render_lines(&lines)
}

/// Draws the edits for a file of `line_count` lines: their number uniformly in
/// `[min_lines, max_lines]` clamped to the line count, then for each a line, a
/// strategy and an indent width, all uniformly.
pub fn plan_edits(
    line_count: usize,
    min_lines: usize,
    max_lines: usize,
    rng: &mut rand::rngs::StdRng,
) -> (r: Vec<Edit>)
    requires
        min_lines <= max_lines,
    ensures
        edits_within(r@, line_count as nat),
        min_nat(min_lines as nat, line_count as nat) <= r@.len(),
        r@.len() <= min_nat(max_lines as nat, line_count as nat),
{
    let mut out: Vec<Edit> = Vec::new();
    if line_count == 0 {
        return out;
    }
    let lo = if min_lines < line_count { min_lines } else { line_count };
    let hi = if max_lines < line_count { max_lines } else { line_count };
    let k = draw_between(rng, lo, hi);
    let mut i: usize = 0;
    while i < k
        invariant
            i <= k,
            k <= line_count,
            line_count > 0,
            out@.len() == i,
            edits_within(out@, line_count as nat),
        decreases k - i,
    {
        let index = draw_between(rng, 0, line_count - 1);
        let pick = draw_between(rng, 0, 3);
        let strategy = if pick == 0 {
            Strategy::Annotate
        } else if pick == 1 {
            Strategy::Spacer
        } else if pick == 2 {
            Strategy::Reindent
        } else {
            Strategy::TodoStamp
        };
        let units = draw_between(rng, 0, MAX_UNITS);
        out.push(Edit { index, strategy, units });
        assert(edits_within(out@, line_count as nat)) by {
            assert forall|x: int| 0 <= x < out@.len() implies (#[trigger] out@[x]).index < line_count
                && out@[x].units <= MAX_UNITS by {
                if x < i {
                    assert(out@[x] == out@.drop_last()[x]);
                }
            }
        }
        i = i + 1;
    }
    out
}

/// Touches a file's content with randomly drawn edits (see `plan_edits`)
/// stamped with `stamp`. Whatever is drawn, the result reads back as the
/// edited lines, and the file's line-ending encoding is unchanged.
pub fn mutate(
    content: &Vec<u8>,
    min_lines: usize,
    max_lines: usize,
    stamp: &Vec<u8>,
    rng: &mut rand::rngs::StdRng,
) -> (r: Vec<u8>)
    requires
        min_lines <= max_lines,
        printable(stamp@),
    ensures
        exists|edits: Seq<Edit>|
            {
                &&& edits_within(edits, parse(content@).len())
                &&& min_nat(min_lines as nat, parse(content@).len()) <= edits.len()
                &&& edits.len() <= min_nat(max_lines as nat, parse(content@).len())
                &&& r@ == render(apply_edits(parse(content@), edits, stamp@))
                &&& parse(r@) == apply_edits(parse(content@), edits, stamp@)
            },
        wf_lines(parse(r@)),
        endings_kept(parse(content@), parse(r@)),
{
    let count = parse_lines(content).len();
    let edits = plan_edits(count, min_lines, max_lines, rng);
    mutate_content(content, &edits, stamp)
}

} // verus!
