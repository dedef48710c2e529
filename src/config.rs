use vstd::prelude::*;

verus! {

/// Why a configuration cannot be used; fatal at startup, never mid-run.
#[derive(Debug, Clone, Copy, PartialEq, Eq, Structural)]
pub enum ConfigError {
    /// The repository identity is not `owner/name` with two non-empty parts.
    MalformedRepo,
    /// `min_files > max_files`.
    InvertedFileRange,
    /// `min_lines > max_lines`.
    InvertedLineRange,
}

/// Settings of every run, loaded once and shared read-only.
#[derive(Debug, Clone)]
pub struct RunConfig {
    pub owner: String,
    pub name: String,
    pub repo_path: String,
    pub min_files: usize,
    pub max_files: usize,
    pub min_lines: usize,
    pub max_lines: usize,
    pub debug: bool,
}

/// Number of positions of `c` in `s`.
pub open spec fn count_char(s: Seq<char>, c: char) -> nat
    decreases s.len(),
{
    if s.len() == 0 {
        0
    } else {
        count_char(s.drop_last(), c) + if s.last() == c { 1nat } else { 0nat }
    }
}

/// `s` is `owner/name`: exactly one `/`, found at `k`, with text on both sides.
pub open spec fn repo_split_at(s: Seq<char>, k: int) -> bool {
    &&& 0 < k < s.len() - 1
    &&& s[k] == '/'
    &&& count_char(s, '/') == 1
}

pub open spec fn valid_repo(s: Seq<char>) -> bool {
    exists|k: int| repo_split_at(s, k)
}

proof fn lemma_count_split(s: Seq<char>, c: char, i: int)
    requires
        0 <= i < s.len(),
    ensures
        count_char(s.take(i + 1), c) == count_char(s.take(i), c) + if s[i] == c { 1nat } else { 0nat },
{
    assert(s.take(i + 1).drop_last() =~= s.take(i));
}

proof fn lemma_one_slash_unique(s: Seq<char>, k: int, j: int)
    requires
        0 <= k < s.len(),
        0 <= j < s.len(),
        s[k] == '/',
        s[j] == '/',
        count_char(s, '/') == 1,
    ensures
        k == j,
{
    if k != j {
        lemma_two_slashes(s, k, j);
    }
}

proof fn lemma_two_slashes(s: Seq<char>, k: int, j: int)
    requires
        0 <= k < s.len(),
        0 <= j < s.len(),
        k != j,
        s[k] == '/',
        s[j] == '/',
    ensures
        count_char(s, '/') >= 2,
    decreases s.len(),
{
    let n = s.len() - 1;
    if k == n || j == n {
        let other = if k == n { j } else { k };
        lemma_one_slash(s.drop_last(), other);
    } else {
        lemma_two_slashes(s.drop_last(), k, j);
    }
}

proof fn lemma_one_slash(s: Seq<char>, k: int)
    requires
        0 <= k < s.len(),
        s[k] == '/',
    ensures
        count_char(s, '/') >= 1,
    decreases s.len(),
{
    if k < s.len() - 1 {
        lemma_one_slash(s.drop_last(), k);
    }
}

/// Splits `owner/name` into its two parts.
pub fn parse_repo(repo: &str) -> (r: Result<(String, String), ConfigError>)
    ensures
        r is Ok <==> valid_repo(repo@),
        r matches Ok((o, n)) ==> exists|k: int|
            repo_split_at(repo@, k) && o@ == repo@.take(k) && n@ == repo@.skip(k + 1),
        r matches Err(e) ==> e == ConfigError::MalformedRepo,
{
    let len = repo.unicode_len();
    let mut i: usize = 0;
    let mut slashes: usize = 0;
    let mut at: usize = 0;
    while i < len
        invariant
            len == repo@.len(),
            i <= len,
            slashes == count_char(repo@.take(i as int), '/'),
            slashes <= i,
            slashes >= 1 ==> at < i && repo@[at as int] == '/',
            slashes == 1 ==> count_char(repo@.take(at as int), '/') == 0,
        decreases len - i,
    {
        proof {
            lemma_count_split(repo@, '/', i as int);
        }
        if repo.get_char(i) == '/' {
            if slashes == 0 {
                at = i;
            }
            slashes = slashes + 1;
        }
        i = i + 1;
    }
    assert(repo@.take(len as int) =~= repo@);
    if slashes == 1 && at > 0 && at + 1 < len {
        let owner = String::from_str(repo.substring_char(0, at));
        let name = String::from_str(repo.substring_char(at + 1, len));
        assert(repo_split_at(repo@, at as int));
        assert(owner@ =~= repo@.take(at as int));
        assert(name@ =~= repo@.skip(at + 1));
        Ok((owner, name))
    } else {
        proof {
            if valid_repo(repo@) {
                let k = choose|k: int| repo_split_at(repo@, k);
                if slashes >= 1 {
                    lemma_one_slash_unique(repo@, k, at as int);
                } else {
                    lemma_one_slash(repo@, k);
                }
            }
        }
        Err(ConfigError::MalformedRepo)
    }
}

impl RunConfig {
    /// The configuration is usable: both ranges run upwards.
    pub open spec fn wf(&self) -> bool {
        &&& self.min_files <= self.max_files
        &&& self.min_lines <= self.max_lines
    }

    /// Builds a configuration, rejecting a malformed repository identity first
    /// and an inverted range after that.
    pub fn new(
        repo: &str,
        repo_path: String,
        min_files: usize,
        max_files: usize,
        min_lines: usize,
        max_lines: usize,
        debug: bool,
    ) -> (r: Result<RunConfig, ConfigError>)
        ensures
            !valid_repo(repo@) ==> r == Err::<RunConfig, ConfigError>(ConfigError::MalformedRepo),
            valid_repo(repo@) && min_files > max_files ==> r == Err::<RunConfig, ConfigError>(
                ConfigError::InvertedFileRange,
            ),
            valid_repo(repo@) && min_files <= max_files && min_lines > max_lines ==> r == Err::<
                RunConfig,
                ConfigError,
            >(ConfigError::InvertedLineRange),
            r is Ok <==> valid_repo(repo@) && min_files <= max_files && min_lines <= max_lines,
            r matches Ok(c) ==> {
                &&& c.wf()
                &&& exists|k: int|
                    repo_split_at(repo@, k) && c.owner@ == repo@.take(k) && c.name@ == repo@.skip(
                        k + 1,
                    )
                &&& c.repo_path@ == repo_path@
                &&& c.min_files == min_files && c.max_files == max_files
                &&& c.min_lines == min_lines && c.max_lines == max_lines
                &&& c.debug == debug
            },
    {
        match parse_repo(repo) {
            Err(e) => Err(e),
            Ok((owner, name)) => {
                if min_files > max_files {
                    Err(ConfigError::InvertedFileRange)
                } else if min_lines > max_lines {
                    Err(ConfigError::InvertedLineRange)
                } else {
                    Ok(RunConfig { owner, name, repo_path, min_files, max_files, min_lines, max_lines, debug })
                }
            },
        }
    }
}

} // verus!
