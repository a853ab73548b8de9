use vstd::prelude::*;
use vstd::string::*;
use crate::errors::Error;

verus! {

/// The index of the last occurrence of `c`, if any.
pub open spec fn find_last(s: Seq<char>, c: char) -> Option<int>
    decreases s.len(),
{
    if s.len() == 0 {
        None
    } else if s.last() == c {
        Some(s.len() - 1)
    } else {
        find_last(s.drop_last(), c)
    }
}

/// A suffix free of `c` plays no part in finding the last occurrence.
pub proof fn lemma_find_last_truncate(s: Seq<char>, c: char, i: int)
    requires
        0 <= i <= s.len(),
        forall|j: int| i <= j < s.len() ==> s[j] != c,
    ensures
        find_last(s, c) == find_last(s.take(i), c),
    decreases s.len() - i,
{
    if i < s.len() {
        lemma_find_last_truncate(s, c, i + 1);
        assert(s.take(i + 1).drop_last() =~= s.take(i));
        assert(s.take(i + 1).last() == s[i]);
    } else {
        assert(s.take(i) =~= s);
    }
}

/// The position of the last occurrence of `c` in `s`.
pub fn find_last_char(s: &str, c: char) -> (r: Option<usize>)
    ensures
        match r {
            Some(i) => i < s@.len() && find_last(s@, c) == Some(i as int),
            None => find_last(s@, c) is None,
        },
{
    let n = s.unicode_len();
    let mut i: usize = n;
    while i > 0
        invariant
            i <= n,
            n == s@.len(),
            forall|j: int| i <= j < s@.len() ==> s@[j] != c,
        decreases i,
    {
        let ch = s.get_char(i - 1);
        if ch == c {
            proof {
                lemma_find_last_truncate(s@, c, i as int);
                assert(s@.take(i as int).last() == s@[i - 1]);
            }
            return Some(i - 1);
        }
        i = i - 1;
    }
    proof {
        lemma_find_last_truncate(s@, c, 0);
        assert(s@.take(0).len() == 0);
    }
    None
}

/// The directory part of a path: everything before the last separator,
/// the empty string for a bare name, the root for a top-level entry.  An
/// empty path and the bare root have no parent.
pub open spec fn parent_spec(p: Seq<char>) -> Option<Seq<char>> {
    if p.len() == 0 {
        None
    } else {
        match find_last(p, '/') {
            None => Some(Seq::empty()),
            Some(i) => if i == 0 {
                if p.len() == 1 {
                    None
                } else {
                    Some(seq!['/'])
                }
            } else {
                Some(p.take(i))
            },
        }
    }
}

/// `dir` extended with one more path component.
pub open spec fn join_spec(dir: Seq<char>, child: Seq<char>) -> Seq<char> {
    if dir.len() == 0 {
        child
    } else if dir.last() == '/' {
        dir + child
    } else {
        dir + seq!['/'] + child
    }
}

/// The directory containing `p`, or which path had none.
pub fn parent_of(p: &String) -> (r: Result<String, Error>)
    ensures
        match r {
            Ok(d) => parent_spec(p@) == Some(d@),
            Err(e) => parent_spec(p@) is None && e == Error::NoParent(*p),
        },
{
    let n = p.as_str().unicode_len();
    if n == 0 {
        return Err(Error::NoParent(p.clone()));
    }
    match find_last_char(p.as_str(), '/') {
        None => Ok(String::new()),
        Some(i) => {
            if i == 0 {
                if n == 1 {
                    Err(Error::NoParent(p.clone()))
                } else {
                    let d = String::from_str("/");
                    proof {
                        reveal_strlit("/");
                        assert("/"@ =~= seq!['/']);
                    }
                    Ok(d)
                }
            } else {
                let d = p.as_str().substring_char(0, i);
                proof {
                    assert(p@.subrange(0, i as int) =~= p@.take(i as int));
                }
                Ok(String::from_str(d))
            }
        },
    }
}

/// `dir` extended with one more path component.
pub fn join_path(dir: &String, child: &str) -> (r: String)
    ensures
        r@ == join_spec(dir@, child@),
{
    let n = dir.as_str().unicode_len();
    if n == 0 {
        return String::from_str(child);
    }
    let mut s = dir.clone();
    let last = dir.as_str().get_char(n - 1);
    if last != '/' {
        s.append("/");
        proof {
            reveal_strlit("/");
            assert("/"@ =~= seq!['/']);
        }
    }
    s.append(child);
    s
}

/// The cache root that sits beside the configuration document.
pub fn cache_dir(config_path: &String) -> (r: Result<String, Error>)
    ensures
        match r {
            Ok(d) => parent_spec(config_path@) matches Some(par) && d@ == join_spec(
                par,
                ".cache"@,
            ),
            Err(e) => parent_spec(config_path@) is None && e == Error::NoParent(*config_path),
        },
{
    let par = match parent_of(config_path) {
        Ok(d) => d,
        Err(e) => {
            return Err(e);
        },
    };
    Ok(join_path(&par, ".cache"))
}

/// Where a template identifier resolves to on disk: relative to the
/// directory holding the configuration document.
pub fn template_path(config_path: &String, template: &String) -> (r: Result<String, Error>)
    ensures
        match r {
            Ok(t) => parent_spec(config_path@) matches Some(par) && t@ == join_spec(
                par,
                template@,
            ),
            Err(e) => parent_spec(config_path@) is None && e == Error::NoParent(*config_path),
        },
{
    let par = match parent_of(config_path) {
        Ok(d) => d,
        Err(e) => {
            return Err(e);
        },
    };
    Ok(join_path(&par, template.as_str()))
}

/// The final component of a path.
pub open spec fn file_name_spec(p: Seq<char>) -> Seq<char> {
    match find_last(p, '/') {
        None => p,
        Some(i) => p.skip(i + 1),
    }
}

/// A file name without its extension: the part before the final dot,
/// unless the only dot opens a hidden name.
pub open spec fn file_stem_spec(name: Seq<char>) -> Seq<char> {
    match find_last(name, '.') {
        Some(i) => if i > 0 {
            name.take(i)
        } else {
            name
        },
        None => name,
    }
}

/// The sidecar configuration that accompanies a template: the template's
/// base name with the configuration extension, in the template's own
/// directory.
pub fn template_config_path(config_path: &String, template: &String) -> (r: Result<String, Error>)
    ensures
        match r {
            Ok(out) => parent_spec(config_path@) matches Some(par) && {
                let tp = join_spec(par, template@);
                &&& parent_spec(tp) matches Some(par2) && out@ == join_spec(
                    par2,
                    file_stem_spec(file_name_spec(tp)) + ".yaml"@,
                )
                &&& file_name_spec(tp).len() > 0
            },
            Err(e) => {
                ||| (parent_spec(config_path@) is None && e == Error::NoParent(*config_path))
                ||| ({
                    &&& parent_spec(config_path@) matches Some(par)
                    &&& parent_spec(join_spec(par, template@)) is None
                    &&& e matches Error::NoParent(q)
                    &&& q@ == join_spec(par, template@)
                })
                ||| ({
                    &&& parent_spec(config_path@) matches Some(par)
                    &&& parent_spec(join_spec(par, template@)) is Some
                    &&& file_name_spec(join_spec(par, template@)).len() == 0
                    &&& e matches Error::NoFileName(q)
                    &&& q@ == join_spec(par, template@)
                })
            },
        },
{
    let tp = match template_path(config_path, template) {
        Ok(t) => t,
        Err(e) => {
            return Err(e);
        },
    };
    let par2 = match parent_of(&tp) {
        Ok(d) => d,
        Err(e) => {
            return Err(e);
        },
    };
    let tlen = tp.as_str().unicode_len();
    let name_start: usize = match find_last_char(tp.as_str(), '/') {
        Some(i) => i + 1,
        None => 0,
    };
    let name = tp.as_str().substring_char(name_start, tlen);
    proof {
        assert(tp@.subrange(name_start as int, tp@.len() as int) =~= tp@.skip(name_start as int));
        if name_start == 0 {
            assert(tp@.skip(0) =~= tp@);
        }
    }
    if name.unicode_len() == 0 {
        return Err(Error::NoFileName(tp));
    }
    let stem = match find_last_char(name, '.') {
        Some(i) => {
            if i > 0 {
                name.substring_char(0, i)
            } else {
                name
            }
        },
        None => name,
    };
    proof {
        assert(stem@ == file_stem_spec(name@)) by {
            match find_last(name@, '.') {
                Some(i) => {
                    if i > 0 {
                        assert(name@.subrange(0, i) =~= name@.take(i));
                    }
                },
                None => {},
            }
        }
    }
    let mut fname = String::from_str(stem);
    fname.append(".yaml");
    Ok(join_path(&par2, fname.as_str()))
}

} // verus!
