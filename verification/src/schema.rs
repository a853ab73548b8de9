use vstd::prelude::*;
use vstd::string::*;
use crate::errors::Error;
use crate::vars::{VarPair, Vars};

verus! {

/// One configured repository: where it lives and the variable overrides
/// that apply to every file it receives.
#[derive(Debug)]
pub struct Repo {
    /// Git remote locator, treated as an opaque string.
    pub url: String,
    /// Overrides layered above template-level variables.
    pub vars: Vars,
}

impl Clone for Repo {
    fn clone(&self) -> (res: Self)
        ensures
            res.url == self.url,
            res.vars.pairs@ == self.vars.pairs@,
    {
        Repo { url: self.url.clone(), vars: self.vars.clone() }
    }
}

/// A repository together with the name the configuration keys it by; the
/// name doubles as the cache-directory and output-tree path segment.
#[derive(Debug)]
pub struct RepoEntry {
    pub name: String,
    pub repo: Repo,
}

/// The root configuration document: the repository fleet, the ordered
/// list of template identifiers, and the global variable set.
#[derive(Debug)]
pub struct Config {
    /// Entries in stable iteration order; names are unique.
    pub repos: Vec<RepoEntry>,
    /// Template identifiers, in render order.
    pub templates: Vec<String>,
    /// Lowest-precedence variable set.
    pub vars: Vars,
}

/// The configuration loaded alongside one template: the files it renders
/// and the variable overrides layered above the global set.
#[derive(Debug)]
pub struct TemplateConfig {
    pub files: Vec<File>,
    pub vars: Vars,
}

/// One output artifact description: which repository it belongs to, where
/// it lands inside that repository's subtree, and its own overrides.
#[derive(Debug)]
pub struct File {
    pub repo: String,
    pub path: String,
    pub vars: Vars,
}

impl Clone for File {
    fn clone(&self) -> (res: Self)
        ensures
            res.repo == self.repo,
            res.path == self.path,
            res.vars.pairs@ == self.vars.pairs@,
    {
        File { repo: self.repo.clone(), path: self.path.clone(), vars: self.vars.clone() }
    }
}

/// The first repository entry carrying the given name, if any.
pub open spec fn spec_lookup(repos: Seq<RepoEntry>, name: Seq<char>) -> Option<Repo>
    decreases repos.len(),
{
    if repos.len() == 0 {
        None
    } else if repos.first().name@ == name {
        Some(repos.first().repo)
    } else {
        spec_lookup(repos.drop_first(), name)
    }
}

/// A name resolves exactly when some entry carries it.
pub proof fn lemma_lookup_some(repos: Seq<RepoEntry>, name: Seq<char>)
    ensures
        spec_lookup(repos, name) is Some <==> exists|i: int|
            0 <= i < repos.len() && repos[i].name@ == name,
    decreases repos.len(),
{
    if repos.len() > 0 {
        lemma_lookup_some(repos.drop_first(), name);
        if repos.first().name@ == name {
        } else {
            assert forall|i: int| 0 <= i < repos.len() && repos[i].name@ == name implies
                spec_lookup(repos, name) is Some by {
                assert(repos.drop_first()[i - 1] == repos[i]);
            }
            if spec_lookup(repos, name) is Some {
                let j = choose|j: int|
                    0 <= j < repos.drop_first().len() && repos.drop_first()[j].name@ == name;
                assert(repos[j + 1].name@ == name);
            }
        }
    }
}

impl Config {
    /// Some entry is keyed by `name`.
    pub open spec fn has_repo(&self, name: Seq<char>) -> bool {
        spec_lookup(self.repos@, name) is Some
    }

    /// Whether a repository of that name is configured.
    pub fn contains_repo(&self, name: &String) -> (r: bool)
        ensures
            r == self.has_repo(name@),
    {
        let mut i: usize = 0;
        proof {
            lemma_lookup_some(self.repos@, name@);
        }
        while i < self.repos.len()
            invariant
                i <= self.repos@.len(),
                forall|j: int| 0 <= j < i ==> self.repos@[j].name@ != name@,
                self.has_repo(name@) <==> exists|j: int|
                    0 <= j < self.repos@.len() && self.repos@[j].name@ == name@,
            decreases self.repos@.len() - i,
        {
            if self.repos[i].name == *name {
                return true;
            }
            i = i + 1;
        }
        false
    }
}

impl File {
    /// Resolve the owning repository in the configuration, or report the
    /// missing name.
    pub fn repo<'a>(&self, cfg: &'a Config) -> (r: Result<&'a Repo, Error>)
        ensures
            match r {
                Ok(rp) => spec_lookup(cfg.repos@, self.repo@) == Some(*rp),
                Err(e) => !cfg.has_repo(self.repo@) && e == Error::NoSuchRepo(self.repo),
            },
    {
        let mut i: usize = 0;
        proof {
            assert(cfg.repos@.skip(0) =~= cfg.repos@);
        }
        while i < cfg.repos.len()
            invariant
                i <= cfg.repos@.len(),
                spec_lookup(cfg.repos@, self.repo@) == spec_lookup(
                    cfg.repos@.skip(i as int),
                    self.repo@,
                ),
            decreases cfg.repos@.len() - i,
        {
            proof {
                assert(cfg.repos@.skip(i as int).first() == cfg.repos@[i as int]);
                assert(cfg.repos@.skip(i as int).drop_first() =~= cfg.repos@.skip(i + 1));
            }
            if cfg.repos[i].name == self.repo {
                return Ok(&cfg.repos[i].repo);
            }
            i = i + 1;
        }
        proof {
            assert(cfg.repos@.skip(cfg.repos@.len() as int).len() == 0);
        }
        Err(Error::NoSuchRepo(self.repo.clone()))
    }

    /// The artifact's identity as a single path: the repository name, a
    /// separator, then the path inside the repository's subtree.
    pub open spec fn output_path_spec(&self) -> Seq<char> {
        self.repo@ + seq!['/'] + self.path@
    }

    /// The output path `<repo>/<path>` of this artifact.
    pub fn path(&self) -> (r: String)
        ensures
            r@ == self.output_path_spec(),
    {
        let mut s = self.repo.clone();
        s.append("/");
        s.append(self.path.as_str());
        proof {
            reveal_strlit("/");
            assert("/"@ =~= seq!['/']);
        }
        s
    }
}

} // verus!
