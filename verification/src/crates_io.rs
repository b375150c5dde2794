//! Crate metadata records for the documentation inspector, and the
//! parsing of repository URLs.

use vstd::prelude::*;
use crate::strings::{
    chars_start_with, chars_to_string, starts_with_spec, str_to_chars, trim_char_end,
    trim_char_end_chars, trim_chars, trim_spec,
};

verus! {

/// Repository metrics from a code-hosting service.
#[derive(Debug, Clone, PartialEq, Eq)]
pub struct GitHubRepoInfo {
    pub stars: Option<u32>,
    pub forks: Option<u32>,
    pub language: Option<String>,
    pub updated_at: Option<String>,
    pub open_issues_count: Option<u32>,
    pub default_branch: Option<String>,
}

impl Default for GitHubRepoInfo {
    /// The empty metrics record.
    fn default() -> (r: Self)
        ensures
            r.stars is None && r.forks is None && r.language is None && r.updated_at is None
                && r.open_issues_count is None && r.default_branch is None,
    {
        GitHubRepoInfo {
            stars: None,
            forks: None,
            language: None,
            updated_at: None,
            open_issues_count: None,
            default_branch: None,
        }
    }
}

/// Crate metadata for the documentation view, possibly with repository
/// metrics.
#[derive(Debug, Clone, PartialEq, Eq)]
pub struct CrateDocInfo {
    pub name: String,
    pub version: String,
    pub description: Option<String>,
    pub documentation: Option<String>,
    pub homepage: Option<String>,
    pub repository: Option<String>,
    pub github: Option<GitHubRepoInfo>,
}

/// The prefix of a text before its first slash; the whole text without
/// one.
pub open spec fn before_slash(s: Seq<char>) -> Seq<char>
    decreases s.len(),
{
    if s.len() == 0 {
        s
    } else if s[0] == '/' {
        Seq::empty()
    } else {
        seq![s[0]] + before_slash(s.drop_first())
    }
}

/// The part of a repository URL after a recognized host prefix: the
/// URL is trimmed, trailing slashes are dropped, and one of the two
/// scheme prefixes must match.
pub open spec fn gh_rest(r: Seq<char>) -> Option<Seq<char>> {
    let s = trim_char_end(trim_spec(r), '/');
    if starts_with_spec(s, "https://github.com/"@) {
        Some(s.skip("https://github.com/"@.len() as int))
    } else if starts_with_spec(s, "http://github.com/"@) {
        Some(s.skip("http://github.com/"@.len() as int))
    } else {
        None
    }
}

/// The owner and repository named by a repository URL: the two path
/// segments after the host, both nonempty, with anything after a
/// further slash ignored.
pub open spec fn parse_github_spec(r: Seq<char>) -> Option<(Seq<char>, Seq<char>)> {
    match gh_rest(r) {
        Some(rest) => {
            let owner = before_slash(rest);
            if owner.len() == rest.len() {
                None
            } else {
                let name = before_slash(rest.skip(owner.len() as int + 1));
                if owner.len() == 0 || name.len() == 0 {
                    None
                } else {
                    Some((owner, name))
                }
            }
        },
        None => None,
    }
}

proof fn lemma_before_slash_at(s: Seq<char>, i: int)
    requires
        0 <= i < s.len(),
        s[i] == '/',
        forall|k: int| 0 <= k < i ==> s[k] != '/',
    ensures
        before_slash(s) == s.take(i),
    decreases i,
{
    if i == 0 {
        assert(s.take(0) =~= Seq::<char>::empty());
    } else {
        lemma_before_slash_at(s.drop_first(), i - 1);
        assert(s.drop_first().take(i - 1) =~= s.take(i).drop_first());
        assert(seq![s[0]] + s.take(i).drop_first() =~= s.take(i));
    }
}

proof fn lemma_before_slash_all(s: Seq<char>)
    requires
        forall|k: int| 0 <= k < s.len() ==> s[k] != '/',
    ensures
        before_slash(s) == s,
    decreases s.len(),
{
    if s.len() > 0 {
        lemma_before_slash_all(s.drop_first());
        assert(seq![s[0]] + s.drop_first() =~= s);
    }
}

/// Takes the characters before the first slash.
fn take_before_slash(v: &Vec<char>) -> (r: Vec<char>)
    ensures
        r@ == before_slash(v@),
        r@.len() <= v@.len(),
        r@.len() < v@.len() ==> v@[r@.len() as int] == '/',
{
    let mut out: Vec<char> = Vec::new();
    let mut i: usize = 0;
    while i < v.len()
        invariant
            i <= v@.len(),
            forall|k: int| 0 <= k < i ==> v@[k] != '/',
            out@ == v@.take(i as int),
        decreases v@.len() - i,
    {
        if v[i] == '/' {
            proof {
                lemma_before_slash_at(v@, i as int);
            }
            return out;
        }
        out.push(v[i]);
        proof {
            assert(out@ =~= v@.take(i + 1));
        }
        i = i + 1;
    }
    proof {
        assert(v@.take(v@.len() as int) =~= v@);
        lemma_before_slash_all(v@);
    }
    out
}

/// Parses an owner and repository name out of a repository URL on a
/// recognized host; any other URL yields nothing.
#[verifier::loop_isolation(false)]
pub fn parse_github_url(repo: &str) -> (r: Option<(String, String)>)
    ensures
        match r {
            Some(p) => parse_github_spec(repo@) == Some((p.0@, p.1@)),
            None => parse_github_spec(repo@) is None,
        },
{
    let rc = str_to_chars(repo);
    let t1 = trim_chars(&rc);
    let s = trim_char_end_chars(&t1, '/');
    let https_pre = str_to_chars("https://github.com/");
    let http_pre = str_to_chars("http://github.com/");
    proof {
        reveal_strlit("https://github.com/");
        reveal_strlit("http://github.com/");
    }
    let plen: usize;
    if chars_start_with(&s, &https_pre) {
        plen = 19;
    } else if chars_start_with(&s, &http_pre) {
        plen = 18;
    } else {
        proof {
            assert(gh_rest(repo@) is None);
        }
        return None;
    }
    let mut rest: Vec<char> = Vec::new();
    let mut k: usize = plen;
    while k < s.len()
        invariant
            plen <= k <= s@.len(),
            rest@ == s@.subrange(plen as int, k as int),
        decreases s@.len() - k,
    {
        rest.push(s[k]);
        proof {
            assert(rest@ =~= s@.subrange(plen as int, k + 1));
        }
        k = k + 1;
    }
    proof {
        assert(rest@ =~= s@.skip(plen as int));
        assert(gh_rest(repo@) == Some(rest@));
    }
    let owner = take_before_slash(&rest);
    if owner.len() == rest.len() {
        return None;
    }
    let mut after: Vec<char> = Vec::new();
    let mut m: usize = owner.len() + 1;
    let ghost astart = owner.len() + 1;
    proof {
        assert(after@ =~= rest@.subrange(astart as int, astart as int));
    }
    while m < rest.len()
        invariant
            0 <= astart <= m <= rest@.len(),
            after@ == rest@.subrange(astart as int, m as int),
        decreases rest@.len() - m,
    {
        after.push(rest[m]);
        proof {
            assert(after@ =~= rest@.subrange(astart as int, m + 1));
        }
        m = m + 1;
    }
    proof {
        assert(after@ =~= rest@.skip(astart as int));
    }
    let name = take_before_slash(&after);
    if owner.len() == 0 || name.len() == 0 {
        return None;
    }
    Some((chars_to_string(&owner), chars_to_string(&name)))
}

} // verus!
