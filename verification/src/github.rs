use vstd::prelude::*;
use vstd::string::*;
use crate::schema::{Config, RepoEntry};

verus! {

/// The URL prefix that marks a repository as hosted where the job matrix
/// can reach it.
pub open spec fn hosted_prefix() -> Seq<char> {
    "https://github.com/"@
}

/// The job-matrix entries for a list of repository URLs: each URL that
/// starts with the hosted prefix, in order, with the prefix stripped;
/// URLs hosted elsewhere are ignored.
pub open spec fn matrix_spec(urls: Seq<Seq<char>>) -> Seq<Seq<char>>
    decreases urls.len(),
{
    if urls.len() == 0 {
        Seq::empty()
    } else {
        let rest = matrix_spec(urls.drop_last());
        let u = urls.last();
        if hosted_prefix().is_prefix_of(u) {
            rest.push(u.skip(hosted_prefix().len() as int))
        } else {
            rest
        }
    }
}

/// Whether `p` is a prefix of `s`.
fn has_prefix(s: &str, p: &str) -> (r: bool)
    ensures
        r == p@.is_prefix_of(s@),
{
    let sn = s.unicode_len();
    let pn = p.unicode_len();
    if pn > sn {
        return false;
    }
    let mut i: usize = 0;
    while i < pn
        invariant
            i <= pn,
            pn == p@.len(),
            pn <= sn == s@.len(),
            forall|j: int| 0 <= j < i ==> s@[j] == p@[j],
        decreases pn - i,
    {
        if s.get_char(i) != p.get_char(i) {
            proof {
                assert(!(p@ =~= s@.subrange(0, p@.len() as int)));
            }
            return false;
        }
        i = i + 1;
    }
    proof {
        assert(p@ =~= s@.subrange(0, p@.len() as int));
    }
    true
}

/// The URLs of each entry, in configuration order.
pub open spec fn repo_urls(repos: Seq<RepoEntry>) -> Seq<Seq<char>> {
    repos.map_values(|e: RepoEntry| e.repo.url@)
}

/// The repositories that belong in the hosted-CI job matrix: every
/// configured URL under the hosted prefix, in configuration order, with
/// the prefix stripped.
pub fn matrix_repos(cfg: &Config) -> (r: Vec<String>)
    ensures
        r.deep_view() == matrix_spec(repo_urls(cfg.repos@)),
{
    let mut out: Vec<String> = Vec::new();
    let mut i: usize = 0;
    proof {
        assert(repo_urls(cfg.repos@.take(0)) =~= Seq::<Seq<char>>::empty());
        assert(out.deep_view() =~~= matrix_spec(repo_urls(cfg.repos@.take(0))));
    }
    while i < cfg.repos.len()
        invariant
            i <= cfg.repos@.len(),
            out.deep_view() == matrix_spec(repo_urls(cfg.repos@.take(i as int))),
        decreases cfg.repos@.len() - i,
    {
        let prefix = "https://github.com/";
        let url = &cfg.repos[i].repo.url;
        let ghost old_out = out.deep_view();
        if has_prefix(url.as_str(), prefix) {
            let plen = prefix.unicode_len();
            let ulen = url.as_str().unicode_len();
            let tail = url.as_str().substring_char(plen, ulen);
            out.push(String::from_str(tail));
            proof {
                assert(url@.subrange(plen as int, ulen as int) =~= url@.skip(plen as int));
                assert(out.deep_view() =~~= old_out.push(url@.skip(hosted_prefix().len() as int)));
            }
        }
        proof {
            let t1 = repo_urls(cfg.repos@.take(i + 1));
            assert(t1.drop_last() =~= repo_urls(cfg.repos@.take(i as int)));
            assert(t1.last() == cfg.repos@[i as int].repo.url@);
            assert(out.deep_view() =~~= matrix_spec(repo_urls(cfg.repos@.take(i + 1))));
        }
        i = i + 1;
    }
    proof {
        assert(cfg.repos@.take(cfg.repos@.len() as int) =~= cfg.repos@);
        assert(out.deep_view() =~~= matrix_spec(repo_urls(cfg.repos@)));
    }
    out
}

} // verus!
