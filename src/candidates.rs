use vstd::prelude::*;

verus! {

/// `c` folded to lower case when it is an ASCII capital.
pub open spec fn ascii_lower(c: char) -> char {
    if 'A' <= c && c <= 'Z' {
        ((c as u8) + 32) as u8 as char
    } else {
        c
    }
}

/// `a` equals `b` once ASCII capitals in `a` are folded; `b` is lower case.
pub open spec fn folded_eq(a: Seq<char>, b: Seq<char>) -> bool {
    a.len() == b.len() && forall|i: int| 0 <= i < a.len() ==> ascii_lower(#[trigger] a[i]) == b[i]
}

/// The extensions of text files that runs may touch.
pub open spec fn allowed_ext(e: Seq<char>) -> bool {
    folded_eq(e, "rs"@) || folded_eq(e, "txt"@) || folded_eq(e, "md"@) || folded_eq(e, "toml"@)
        || folded_eq(e, "json"@) || folded_eq(e, "yaml"@) || folded_eq(e, "yml"@)
}

/// The extension of a file name: what follows its last `.`, where that dot
/// is not the name's first character.
pub open spec fn extension_at(name: Seq<char>, k: int) -> bool {
    &&& 0 < k < name.len()
    &&& name[k] == '.'
    &&& forall|j: int| k < j < name.len() ==> #[trigger] name[j] != '.'
}

/// A file whose name has an allowed extension is a candidate.
pub open spec fn is_text_file(name: Seq<char>) -> bool {
    exists|k: int| extension_at(name, k) && allowed_ext(name.skip(k + 1))
}

/// Directories holding version-control data or build output, never walked.
pub open spec fn skipped_dir(name: Seq<char>) -> bool {
    name == ".git"@ || name == "target"@ || name == "Cargo.lock"@
}

/// Whether `a` equals the lower-case ASCII `b` after folding ASCII capitals.
fn folded_equals(a: &str, b: &str) -> (r: bool)
    ensures
        r == folded_eq(a@, b@),
{
    let n = a.unicode_len();
    if n != b.unicode_len() {
        return false;
    }
    let mut i: usize = 0;
    while i < n
        invariant
            i <= n,
            n == a@.len(),
            n == b@.len(),
            forall|j: int| 0 <= j < i ==> ascii_lower(#[trigger] a@[j]) == b@[j],
        decreases n - i,
    {
        let c = a.get_char(i);
        let l = if 'A' <= c && c <= 'Z' {
            ((c as u8) + 32) as char
        } else {
            c
        };
        if l != b.get_char(i) {
            return false;
        }
        i = i + 1;
    }
    true
}

pub(crate) fn equals(a: &str, b: &str) -> (r: bool)
    ensures
        r == (a@ == b@),
{
    let n = a.unicode_len();
    if n != b.unicode_len() {
        return false;
    }
    let mut i: usize = 0;
    while i < n
        invariant
            i <= n,
            n == a@.len(),
            n == b@.len(),
            forall|j: int| 0 <= j < i ==> #[trigger] a@[j] == b@[j],
        decreases n - i,
    {
        if a.get_char(i) != b.get_char(i) {
            return false;
        }
        i = i + 1;
    }
    assert(a@ =~= b@);
    true
}

/// Whether the directory `name` is left out of the walk.
pub fn is_skipped_dir(name: &str) -> (r: bool)
    ensures
        r == skipped_dir(name@),
{
    equals(name, ".git") || equals(name, "target") || equals(name, "Cargo.lock")
}

/// Whether the file `name` is a text file that runs may touch.
pub fn is_text_file_name(name: &str) -> (r: bool)
    ensures
        r == is_text_file(name@),
{
    let n = name.unicode_len();
    let mut k: usize = n;
    while k > 0 && name.get_char(k - 1) != '.'
        invariant
            k <= n,
            n == name@.len(),
            forall|j: int| k <= j < n ==> #[trigger] name@[j] != '.',
        decreases k,
    {
        k = k - 1;
    }
    if k <= 1 {
        proof {
            if is_text_file(name@) {
                let d = choose|d: int| extension_at(name@, d) && allowed_ext(name@.skip(d + 1));
                if k == 1 {
                    assert(name@[0] == '.');
                }
                assert(d < k - 1 || d >= k);
            }
        }
        return false;
    }
    let ext = name.substring_char(k, n);
    assert(extension_at(name@, k - 1));
    assert(ext@ =~= name@.skip(k as int));
    let r = folded_equals(ext, "rs") || folded_equals(ext, "txt") || folded_equals(ext, "md")
        || folded_equals(ext, "toml") || folded_equals(ext, "json") || folded_equals(ext, "yaml")
        || folded_equals(ext, "yml");
    proof {
        if is_text_file(name@) {
            let d = choose|d: int| extension_at(name@, d) && allowed_ext(name@.skip(d + 1));
            assert(d == k - 1) by {
                if d < k - 1 {
                    assert(name@[k - 1] == '.');
                }
            }
        }
    }
    r
}

/// A file written into a repository that has no candidates, so that a run
/// always has material to commit.
pub struct SeedFile {
    pub path: String,
    pub content: String,
    /// Written only where no file of that path exists.
    pub keep_existing: bool,
}

/// The default seed: a library stub (always written) and a README (kept if
/// present).
pub fn seed_files() -> (r: Vec<SeedFile>)
    ensures
        r@.len() == 2,
        r@[0].path@ == "src/lib.rs"@ && !r@[0].keep_existing,
        r@[0].content@ == "// Sample Rust library\npub fn hello() {\n    println!(\"Hello, world!\");\n}\n"@,
        r@[1].path@ == "README.md"@ && r@[1].keep_existing,
        r@[1].content@ == "# GitHub Activity Bot\n\nThis repository is managed by a bot that creates activity.\n"@,
{
    let mut r: Vec<SeedFile> = Vec::new();
    r.push(
        SeedFile {
            path: String::from_str("src/lib.rs"),
            content: String::from_str(
                "// Sample Rust library\npub fn hello() {\n    println!(\"Hello, world!\");\n}\n",
            ),
            keep_existing: false,
        },
    );
    r.push(
        SeedFile {
            path: String::from_str("README.md"),
            content: String::from_str(
                "# GitHub Activity Bot\n\nThis repository is managed by a bot that creates activity.\n",
            ),
            keep_existing: true,
        },
    );
    r
}

} // verus!
