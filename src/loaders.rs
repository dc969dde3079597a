//! Where the GitHub loaders fetch from and how they name what they load.
//! The fetching itself (HTTP, git) is done by the caller.

use vstd::prelude::*;
use crate::text::append_str;
use crate::store::{decimal, push_decimal};
use crate::prompt::{replace_all, replace_str};
use crate::text::views;
use crate::diff::{glob_match, glob_matches, glob_compiles};
use crate::error::SplitError;

verus! {

/// Loads the diffs of pull requests of one repository.
#[derive(Debug)]
pub struct GithubPRLoader {
    pub owner: String,
    pub repo: String,
    pub person_token: String,
}

impl GithubPRLoader {
    pub fn create(owner: &str, repo: &str, person_token: &str) -> (r: GithubPRLoader)
        ensures
            r.owner@ == owner@,
            r.repo@ == repo@,
            r.person_token@ == person_token@,
    {
        GithubPRLoader { owner: owner.to_owned(), repo: repo.to_owned(), person_token: person_token.to_owned() }
    }

    /// The web address of pull request `id`, which tags its diff.
    pub fn pull_request_url(&self, id: usize) -> (r: String)
        ensures
            r@ == "https://github.com/"@ + self.owner@ + "/"@ + self.repo@ + "/pull/"@ + decimal(id as nat),
    {
        let mut url = "https://github.com/".to_owned();
        append_str(&mut url, self.owner.as_str());
        append_str(&mut url, "/");
        append_str(&mut url, self.repo.as_str());
        append_str(&mut url, "/pull/");
        push_decimal(&mut url, id);
        url
    }
}

/// Loads the sources and markdown files of one repository.
#[derive(Debug)]
pub struct GithubRepoLoader {
    pub owner: String,
    pub repo: String,
    pub domain: String,
}

impl GithubRepoLoader {
    pub fn create(owner: &str, repo: &str, person_token: &str) -> (r: GithubRepoLoader)
        ensures
            r.owner@ == owner@,
            r.repo@ == repo@,
            r.domain@ == "github.com"@,
    {
        GithubRepoLoader { owner: owner.to_owned(), repo: repo.to_owned(), domain: "github.com".to_owned() }
    }

    /// The address the repository is cloned from.
    pub fn clone_url(&self) -> (r: String)
        ensures
            r@ == "https://"@ + self.domain@ + "/"@ + self.owner@ + "/"@ + self.repo@,
    {
        let mut url = "https://".to_owned();
        append_str(&mut url, self.domain.as_str());
        append_str(&mut url, "/");
        append_str(&mut url, self.owner.as_str());
        append_str(&mut url, "/");
        append_str(&mut url, self.repo.as_str());
        url
    }

    /// The local directory, under `prefix`, that the repository is cloned into.
    pub fn clone_path(&self, prefix: &str) -> (r: String)
        ensures
            r@ == prefix@ + self.domain@ + "/"@ + self.owner@ + "/"@ + self.repo@ + "/"@,
    {
        let mut path = prefix.to_owned();
        append_str(&mut path, self.domain.as_str());
        append_str(&mut path, "/");
        append_str(&mut path, self.owner.as_str());
        append_str(&mut path, "/");
        append_str(&mut path, self.repo.as_str());
        append_str(&mut path, "/");
        path
    }

    /// A loaded file's path with the local `prefix` turned back into a web
    /// address; an empty prefix leaves the path as it is.
    pub fn public_path(path: &str, prefix: &str) -> (r: String)
        ensures
            prefix@.len() > 0 ==> r@ == replace_all(path@, prefix@, "https://"@),
            prefix@.len() == 0 ==> r@ == path@,
    {
        if prefix.is_empty() {
            path.to_owned()
        } else {
            replace_str(path, prefix, "https://")
        }
    }
}

/// The index of the first pattern, from `start` on, that `path` matches;
/// `Some(None)` when none does, `None` when an invalid pattern is reached
/// first.
pub open spec fn route_from(patterns: Seq<Seq<char>>, path: Seq<char>, start: int) -> Option<Option<int>>
    decreases patterns.len() - start,
{
    if start < 0 || start >= patterns.len() {
        Some(None)
    } else {
        if !glob_compiles(patterns[start]) {
            None
        } else if glob_matches(patterns[start], path) {
            Some(Some(start))
        } else {
            route_from(patterns, path, start + 1)
        }
    }
}

/// Picks the loader for a file: the first glob pattern, in the order the
/// loaders were registered, that matches the file's path.
pub fn route_path(patterns: &Vec<String>, path: &str) -> (r: Result<Option<usize>, SplitError>)
    ensures
        r is Ok <==> route_from(views(patterns@), path@, 0) is Some,
        r is Ok ==> match route_from(views(patterns@), path@, 0) {
            Some(Some(i)) => r->Ok_0 == Some(i as usize),
            Some(None) => r->Ok_0 is None,
            None => false,
        },
{
    let mut i: usize = 0;
    while i < patterns.len()
        invariant
            i <= patterns@.len(),
            route_from(views(patterns@), path@, 0) == route_from(views(patterns@), path@, i as int),
        decreases patterns@.len() - i,
    {
        proof {
            assert(views(patterns@)[i as int] == patterns@[i as int]@);
        }
        match glob_match(patterns[i].as_str(), path) {
            Err(_) => {
                return Err(SplitError::InvalidGlob { pattern: patterns[i].clone() });
            },
            Ok(true) => {
                return Ok(Some(i));
            },
            Ok(false) => {},
        }
        i = i + 1;
    }
    Ok(None)
}

} // verus!
