use vstd::prelude::*;
use vstd::string::StringExecFns;

use crate::order::same_key;

verus! {

#[verifier::external_type_specification]
#[verifier::external_body]
pub struct ExVersion(semver::Version);

/// Where a repository is hosted.
#[derive(Clone, Copy, Debug, PartialEq, Eq, Structural)]
pub enum Provider {
    Github,
    Gitlab,
}

impl Default for Provider {
    fn default() -> (r: Provider)
        ensures
            r == Provider::Github,
    {
        Provider::Github
    }
}

impl Provider {
    /// The provider of the given lower-case name, `github` or `gitlab`.
    pub fn from_name(value: &str) -> (r: Option<Provider>)
        ensures
            r == (if value@ == "github"@ {
                Some(Provider::Github)
            } else if value@ == "gitlab"@ {
                Some(Provider::Gitlab)
            } else {
                None
            }),
    {
        if same_key(value, "github") {
            Some(Provider::Github)
        } else if same_key(value, "gitlab") {
            Some(Provider::Gitlab)
        } else {
            None
        }
    }
}

/// A registered worker repository and what was fetched from it.
#[derive(Clone, Debug)]
pub struct RepoConfig {
    pub name: String,
    pub provider: Provider,
    /// Contents of the repository's Cargo manifests.
    pub manifest_contents: Vec<String>,
    /// File names of the repository's Cargo manifests.
    pub manifest_filenames: Vec<String>,
    /// Contents of the repository's Dockerfiles.
    pub docker_contents: Vec<String>,
    /// File names of the repository's Dockerfiles.
    pub docker_filenames: Vec<String>,
}

/// Two entries stand for the same repository: same name at the same provider.
pub open spec fn same_repo(a: RepoConfig, b: RepoConfig) -> bool {
    a.name@ == b.name@ && a.provider == b.provider
}

impl RepoConfig {
    /// A repository with nothing fetched yet.
    pub fn new(provider: Provider, name: &str) -> (r: RepoConfig)
        ensures
            r.name@ == name@,
            r.provider == provider,
            r.manifest_contents@.len() == 0,
            r.manifest_filenames@.len() == 0,
            r.docker_contents@.len() == 0,
            r.docker_filenames@.len() == 0,
    {
        RepoConfig {
            name: String::from_str(name),
            provider,
            manifest_contents: Vec::new(),
            manifest_filenames: Vec::new(),
            docker_contents: Vec::new(),
            docker_filenames: Vec::new(),
        }
    }
}

impl PartialEq for RepoConfig {
    fn eq(&self, other: &RepoConfig) -> (r: bool) {
        same_key(self.name.as_str(), other.name.as_str()) && self.provider == other.provider
    }
}

impl vstd::std_specs::cmp::PartialEqSpecImpl for RepoConfig {
    open spec fn obeys_eq_spec() -> bool {
        true
    }

    open spec fn eq_spec(&self, other: &RepoConfig) -> bool {
        same_repo(*self, *other)
    }
}

impl Eq for RepoConfig {}

/// Whether the unregister filter keeps `r`: it keeps the repositories of
/// `provider` whose name is not `repository`.
pub open spec fn kept_on_unregister(r: RepoConfig, repository: Seq<char>, provider: Provider) -> bool {
    r.name@ != repository && r.provider == provider
}

/// The tool's stored configuration.
#[derive(Debug)]
pub struct McaiWorkersConfig {
    pub rust_version: Option<semver::Version>,
    pub mcai_sdk_version: Option<semver::Version>,
    pub repos: Vec<RepoConfig>,
}

impl McaiWorkersConfig {
    /// Registers `repo`: an earlier entry for the same repository (the first one
    /// found) is dropped, and `repo` goes last.
    pub fn add_repo(&mut self, repo: RepoConfig)
        ensures
            (forall|i: int| 0 <= i < old(self).repos@.len() ==> !same_repo(#[trigger] old(self).repos@[i], repo))
                ==> final(self).repos@ == old(self).repos@.push(repo),
            forall|k: int|
                0 <= k < old(self).repos@.len() && same_repo(#[trigger] old(self).repos@[k], repo) && (forall|j: int|
                    0 <= j < k ==> !same_repo(#[trigger] old(self).repos@[j], repo))
                    ==> final(self).repos@ == old(self).repos@.remove(k).push(repo),
            final(self).rust_version == old(self).rust_version,
            final(self).mcai_sdk_version == old(self).mcai_sdk_version,
    {
        let n = self.repos.len();
        let mut i: usize = 0;
        while i < n
            invariant
                n == self.repos@.len(),
                self.repos@ == old(self).repos@,
                self.rust_version == old(self).rust_version,
                self.mcai_sdk_version == old(self).mcai_sdk_version,
                i <= n,
                forall|j: int| 0 <= j < i ==> !same_repo(#[trigger] self.repos@[j], repo),
            decreases n - i,
        {
            if self.repos[i] == repo {
                let _dropped = self.repos.remove(i);
                self.repos.push(repo);
                proof {
                    assert forall|k: int|
                        0 <= k < old(self).repos@.len() && same_repo(#[trigger] old(self).repos@[k], repo)
                            && (forall|j: int| 0 <= j < k ==> !same_repo(#[trigger] old(self).repos@[j], repo))
                            implies k == i by {
                        if k < i {
                        } else if k > i {
                            assert(!same_repo(old(self).repos@[i as int], repo));
                        }
                    }
                }
                return;
            }
            i = i + 1;
        }
        self.repos.push(repo);
    }

    /// Unregisters `repository`, keeping exactly the repositories that
    /// `kept_on_unregister` keeps, in their order.
    pub fn retain_other_repos(&mut self, repository: &str, provider: Provider)
        ensures
            final(self).repos@ == old(self).repos@.filter(
                |r: RepoConfig| kept_on_unregister(r, repository@, provider),
            ),
            final(self).rust_version == old(self).rust_version,
            final(self).mcai_sdk_version == old(self).mcai_sdk_version,
    {
        let ghost pred = |r: RepoConfig| kept_on_unregister(r, repository@, provider);
        let ghost orig = self.repos@;
        let total = self.repos.len();
        let mut i: usize = 0;
        let mut j: usize = 0;
        assert(orig.skip(0) =~= orig);
        assert(orig.take(0) =~= Seq::<RepoConfig>::empty());
        proof {
            reveal(Seq::filter);
        }
        while i < self.repos.len()
            invariant
                j <= orig.len(),
                orig.len() == total,
                self.rust_version == old(self).rust_version,
                self.mcai_sdk_version == old(self).mcai_sdk_version,
                orig == old(self).repos@,
                pred == (|r: RepoConfig| kept_on_unregister(r, repository@, provider)),
                i == orig.take(j as int).filter(pred).len(),
                self.repos@ == orig.take(j as int).filter(pred) + orig.skip(j as int),
            decreases self.repos@.len() - i,
        {
            let ghost before = self.repos@;
            assert(j < orig.len());
            assert(orig.take(j + 1).drop_last() =~= orig.take(j as int));
            assert(orig.take(j + 1).last() == orig[j as int]);
            assert(before[i as int] == orig[j as int]);
            proof {
                reveal(Seq::filter);
            }
            let keep = !same_key(self.repos[i].name.as_str(), repository) && self.repos[i].provider == provider;
            if keep {
                i = i + 1;
                assert(self.repos@ =~= orig.take(j + 1).filter(pred) + orig.skip(j + 1));
            } else {
                let _dropped = self.repos.remove(i);
                assert(self.repos@ =~= orig.take(j + 1).filter(pred) + orig.skip(j + 1));
            }
            j = j + 1;
        }
        assert(j == orig.len()) by {
            if j < orig.len() {
                assert(self.repos@.len() > i);
            }
        }
        assert(orig.take(j as int) =~= orig);
        assert(self.repos@ =~= orig.filter(pred));
    }
}

} // verus!
