use vstd::prelude::*;
use vstd::string::StringExecFns;

use crate::text::{decimal, decimal_string};

verus! {

/// A file as the GitHub contents API describes it.
#[derive(Debug)]
pub struct Content {
    pub content: String,
    pub download_url: String,
    pub encoding: Encoding,
    pub git_url: String,
    pub html_url: String,
    pub name: String,
    pub path: String,
    pub sha: String,
    pub size: usize,
    pub _type: String,
    pub url: String,
    pub links: Links,
}

/// Encoding of a file's content in the GitHub contents API.
#[derive(Clone, Copy, Debug, PartialEq, Eq, Structural)]
pub enum Encoding {
    Base64,
}

/// Links of a file in the GitHub contents API.
#[derive(Debug)]
pub struct Links {
    pub git: String,
    pub html: String,
    pub _self: String,
}

/// A repository license as the GitHub API describes it.
#[derive(Debug)]
pub struct License {
    pub key: String,
    pub name: String,
    pub node_id: String,
    pub spdx_id: String,
    pub url: String,
}

/// A repository owner as the GitHub API describes it.
#[derive(Debug)]
pub struct Owner {
    pub avatar_url: String,
    pub events_url: String,
    pub followers_url: String,
    pub following_url: String,
    pub gists_url: String,
    pub gravatar_id: String,
    pub html_url: String,
    pub id: usize,
    pub login: String,
    pub node_id: String,
    pub organizations_url: String,
    pub received_events_url: String,
    pub repos_url: String,
    pub site_admin: bool,
    pub starred_url: String,
    pub subscriptions_url: String,
    pub _type: String,
    pub url: String,
}

/// Access to gitlab.com with a private token.
pub struct Gitlab {
    pub token: String,
}

/// Address of a file of a project in the gitlab.com API, on the master branch.
pub open spec fn gitlab_file_url(project_id: nat, filename: Seq<char>) -> Seq<char> {
    "https://gitlab.com/api/v4/projects/"@ + decimal(project_id) + "/repository/files/"@ + filename
        + "?ref=master"@
}

impl Gitlab {
    pub fn new(token: &str) -> (r: Gitlab)
        ensures
            r.token@ == token@,
    {
        Gitlab { token: String::from_str(token) }
    }

    /// Address of `filename` in the project with the given id.
    pub fn file_url(&self, project_id: u64, filename: &str) -> (r: String)
        ensures
            r@ == gitlab_file_url(project_id as nat, filename@),
    {
        let mut s = String::from_str("https://gitlab.com/api/v4/projects/");
        s.append(decimal_string(project_id).as_str());
        s.append("/repository/files/");
        s.append(filename);
        s.append("?ref=master");
        s
    }
}

/// No `/` in `s`.
pub open spec fn slash_free(s: Seq<char>) -> bool {
    forall|i: int| 0 <= i < s.len() ==> s[i] != '/'
}

/// Position of the first `/` in `s` at or after `from`, or the length of `s`.
fn find_slash(s: &str, from: usize) -> (r: usize)
    requires
        from <= s@.len(),
    ensures
        from <= r <= s@.len(),
        slash_free(s@.subrange(from as int, r as int)),
        r < s@.len() ==> s@[r as int] == '/',
{
    let n = s.unicode_len();
    let mut i = from;
    while i < n
        invariant
            n == s@.len(),
            from <= i <= n,
            slash_free(s@.subrange(from as int, i as int)),
        decreases n - i,
    {
        if s.get_char(i) == '/' {
            return i;
        }
        assert(s@.subrange(from as int, i + 1) =~= s@.subrange(from as int, i as int).push(s@[i as int]));
        i = i + 1;
    }
    i
}

/// Splits `owner/name` (anything after a second `/` is left out). `None` when
/// there is no `/`.
pub fn repo_information(repository: &str) -> (r: Option<(String, String)>)
    ensures
        r is None <==> slash_free(repository@),
        r matches Some((owner, name)) ==> {
            let o = owner@.len() as int;
            let m = name@.len() as int;
            &&& slash_free(owner@)
            &&& slash_free(name@)
            &&& repository@.len() > o + m
            &&& repository@.take(o + 1) == owner@.push('/')
            &&& repository@.subrange(o + 1, o + 1 + m) == name@
            &&& (repository@.len() > o + 1 + m ==> repository@[o + 1 + m] == '/')
        },
{
    let n = repository.unicode_len();
    let first = find_slash(repository, 0);
    if first == n {
        assert(repository@.subrange(0, n as int) =~= repository@);
        return None;
    }
    let second = find_slash(repository, first + 1);
    let owner = repository.substring_char(0, first);
    let name = repository.substring_char(first + 1, second);
    let r = (String::from_str(owner), String::from_str(name));
    proof {
        if slash_free(repository@) {
            assert(repository@[first as int] == '/');
        }
        assert(repository@.take(first + 1) =~= repository@.subrange(0, first as int).push('/'));
    }
    Some(r)
}

} // verus!
