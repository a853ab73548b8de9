use vstd::prelude::*;

verus! {

/// One variable binding: a name and a value, the value carried as the
/// YAML text of an arbitrary structured datum.
#[derive(Debug)]
pub struct VarPair {
    pub key: String,
    pub value: String,
}

impl Clone for VarPair {
    fn clone(&self) -> (res: Self)
        ensures
            res == *self,
    {
        VarPair { key: self.key.clone(), value: self.value.clone() }
    }
}

/// An ordered overlay of variable bindings.  A later pair with the same
/// key replaces an earlier one; layering two overlays is concatenation.
#[derive(Debug)]
pub struct Vars {
    pub pairs: Vec<VarPair>,
}

/// The mapping that an ordered list of pairs denotes: later pairs win.
pub open spec fn map_of(pairs: Seq<VarPair>) -> Map<Seq<char>, Seq<char>>
    decreases pairs.len(),
{
    if pairs.len() == 0 {
        Map::empty()
    } else {
        map_of(pairs.drop_last()).insert(pairs.last().key@, pairs.last().value@)
    }
}

impl View for Vars {
    type V = Map<Seq<char>, Seq<char>>;

    open spec fn view(&self) -> Map<Seq<char>, Seq<char>> {
        map_of(self.pairs@)
    }
}

impl Clone for Vars {
    fn clone(&self) -> (res: Self)
        ensures
            res.pairs@ == self.pairs@,
    {
        let mut pairs: Vec<VarPair> = Vec::new();
        let mut i: usize = 0;
        while i < self.pairs.len()
            invariant
                i <= self.pairs.len(),
                pairs@ =~= self.pairs@.take(i as int),
            decreases self.pairs.len() - i,
        {
            pairs.push(self.pairs[i].clone());
            i = i + 1;
        }
        proof {
            assert(pairs@ =~= self.pairs@);
        }
        Vars { pairs }
    }
}

/// Concatenating two pair lists denotes layering their mappings, with the
/// second list taking precedence.
pub proof fn lemma_map_of_append(a: Seq<VarPair>, b: Seq<VarPair>)
    ensures
        map_of(a + b) == map_of(a).union_prefer_right(map_of(b)),
    decreases b.len(),
{
    if b.len() == 0 {
        assert(a + b =~= a);
        assert(map_of(a).union_prefer_right(map_of(b)) =~= map_of(a));
    } else {
        lemma_map_of_append(a, b.drop_last());
        assert((a + b).drop_last() =~= a + b.drop_last());
        assert((a + b).last() == b.last());
        assert(map_of(a).union_prefer_right(map_of(b.drop_last())).insert(
            b.last().key@,
            b.last().value@,
        ) =~= map_of(a).union_prefer_right(map_of(b.drop_last()).insert(
            b.last().key@,
            b.last().value@,
        )));
    }
}

impl Vars {
    /// No bindings.
    pub fn empty() -> (r: Vars)
        ensures
            r@ == Map::<Seq<char>, Seq<char>>::empty(),
    {
        Vars { pairs: Vec::new() }
    }

    /// `self` with `upper` layered on top: a key bound in `upper` takes
    /// its value from `upper`, every other key keeps its value from `self`.
    pub fn layered(&self, upper: &Vars) -> (r: Vars)
        ensures
            r@ == self@.union_prefer_right(upper@),
    {
        let mut joined = self.clone();
        let mut i: usize = 0;
        while i < upper.pairs.len()
            invariant
                i <= upper.pairs.len(),
                joined.pairs@ =~= self.pairs@ + upper.pairs@.take(i as int),
            decreases upper.pairs.len() - i,
        {
            joined.pairs.push(upper.pairs[i].clone());
            proof {
                assert(joined.pairs@ =~= self.pairs@ + upper.pairs@.take(i + 1));
            }
            i = i + 1;
        }
        proof {
            assert(joined.pairs@ =~= self.pairs@ + upper.pairs@);
            lemma_map_of_append(self.pairs@, upper.pairs@);
        }
        joined
    }
}

/// The variable set a single output file is rendered with: the global
/// set, overridden per template, then per repository, then per file.
pub open spec fn merged_vars(
    global: Map<Seq<char>, Seq<char>>,
    template: Map<Seq<char>, Seq<char>>,
    repo: Map<Seq<char>, Seq<char>>,
    file: Map<Seq<char>, Seq<char>>,
) -> Map<Seq<char>, Seq<char>> {
    global.union_prefer_right(template).union_prefer_right(repo).union_prefer_right(file)
}

/// Precedence of the four variable scopes: a key defined at several scopes
/// takes the value of the most specific one that defines it — file scope
/// first, then repository, then template, then global — and a key is
/// defined in the merged set exactly when some scope defines it.
pub proof fn lemma_var_precedence(
    global: Map<Seq<char>, Seq<char>>,
    template: Map<Seq<char>, Seq<char>>,
    repo: Map<Seq<char>, Seq<char>>,
    file: Map<Seq<char>, Seq<char>>,
    k: Seq<char>,
)
    ensures
        merged_vars(global, template, repo, file).contains_key(k) <==> (global.contains_key(k)
            || template.contains_key(k) || repo.contains_key(k) || file.contains_key(k)),
        file.contains_key(k) ==> merged_vars(global, template, repo, file)[k] == file[k],
        !file.contains_key(k) && repo.contains_key(k) ==> merged_vars(
            global,
            template,
            repo,
            file,
        )[k] == repo[k],
        !file.contains_key(k) && !repo.contains_key(k) && template.contains_key(k) ==> merged_vars(
            global,
            template,
            repo,
            file,
        )[k] == template[k],
        !file.contains_key(k) && !repo.contains_key(k) && !template.contains_key(k)
            && global.contains_key(k) ==> merged_vars(global, template, repo, file)[k] == global[k],
{
}

} // verus!
