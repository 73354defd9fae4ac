//! The table of branching labels of a source text: each label name maps to
//! its name qualified by the function that declares it.

use vstd::prelude::*;
use crate::command::BranchingCommand;
use crate::text::lemma_chars_deep_view;

verus! {

/// The qualified name of `label` declared inside `function`: `function$label`.
pub open spec fn mangle_spec(function: Seq<char>, label: Seq<char>) -> Seq<char> {
    function + seq!['$'] + label
}

/// The map that a sequence of insertions of `keys[i] -> values[i]` builds,
/// in order (a later insertion of a key replaces an earlier one).
pub open spec fn assoc_map(keys: Seq<Seq<char>>, values: Seq<Seq<char>>) -> Map<Seq<char>, Seq<char>>
    decreases keys.len(),
{
    if keys.len() == 0 {
        Map::empty()
    } else {
        assoc_map(keys.drop_last(), values.drop_last()).insert(keys.last(), values.last())
    }
}

/// A map from label names to qualified label names.
pub struct LabelMap {
    keys: Vec<Vec<char>>,
    values: Vec<Vec<char>>,
}

impl LabelMap {
    #[verifier::type_invariant]
    spec fn inv(self) -> bool {
        self.keys.len() == self.values.len()
    }

    /// The map's contents.
    pub closed spec fn view(&self) -> Map<Seq<char>, Seq<char>> {
        assoc_map(self.keys.deep_view(), self.values.deep_view())
    }

    /// An empty map.
    pub fn new() -> (m: LabelMap)
        ensures
            m.view() == Map::<Seq<char>, Seq<char>>::empty(),
    {
        let m = LabelMap { keys: Vec::new(), values: Vec::new() };
        assert(m.keys.deep_view().len() == 0);
        m
    }

    /// Maps `key` to `value`, replacing what `key` mapped to before.
    pub fn insert(&mut self, key: Vec<char>, value: Vec<char>)
        ensures
            final(self).view() == old(self).view().insert(key@, value@),
    {
        proof {
            use_type_invariant(&*self);
        }
        let ghost ok = self.keys.deep_view();
        let ghost ov = self.values.deep_view();
        proof {
            lemma_chars_deep_view(key);
            lemma_chars_deep_view(value);
        }
        let ghost k = key@;
        let ghost v = value@;
        let mut whole = LabelMap { keys: Vec::new(), values: Vec::new() };
        std::mem::swap(&mut whole, self);
        let LabelMap { mut keys, mut values } = whole;
        keys.push(key);
        values.push(value);
        assert(keys.deep_view().drop_last() =~= ok);
        assert(values.deep_view().drop_last() =~= ov);
        *self = LabelMap { keys, values };
    }

    /// What `key` maps to.
    pub fn get(&self, key: &Vec<char>) -> (r: Option<Vec<char>>)
        ensures
            match r {
                Some(v) => self.view().contains_key(key@) && self.view()[key@] == v@,
                None => !self.view().contains_key(key@),
            },
    {
        proof {
            use_type_invariant(self);
        }
        let ghost ks = self.keys.deep_view();
        let ghost vs = self.values.deep_view();
        let mut i: usize = self.keys.len();
        assert(ks.take(i as int) =~= ks);
        assert(vs.take(i as int) =~= vs);
        while i > 0
            invariant
                i <= self.keys.len() == self.values.len(),
                ks == self.keys.deep_view(),
                vs == self.values.deep_view(),
                self.view() == assoc_map(ks, vs),
                assoc_map(ks, vs).contains_key(key@) == assoc_map(ks.take(i as int), vs.take(i as int)).contains_key(key@),
                assoc_map(ks, vs).contains_key(key@) ==> assoc_map(ks, vs)[key@] == assoc_map(ks.take(i as int), vs.take(i as int))[key@],
            decreases i,
        {
            let ghost pk = ks.take(i as int);
            let ghost pv = vs.take(i as int);
            assert(pk.drop_last() =~= ks.take(i - 1));
            assert(pv.drop_last() =~= vs.take(i - 1));
            proof {
                lemma_chars_deep_view(self.keys[i - 1]);
                lemma_chars_deep_view(self.values[i - 1]);
            }
            if vec_chars_eq(&self.keys[i - 1], key) {
                let mut out: Vec<char> = Vec::new();
                push_vec(&mut out, &self.values[i - 1]);
                return Some(out);
            }
            i = i - 1;
        }
        None
    }
}

fn vec_chars_eq(a: &Vec<char>, b: &Vec<char>) -> (r: bool)
    ensures
        r == (a@ == b@),
{
    if a.len() != b.len() {
        return false;
    }
    let mut i: usize = 0;
    while i < a.len()
        invariant
            i <= a.len() == b.len(),
            forall|j: int| 0 <= j < i ==> a@[j] == b@[j],
        decreases a.len() - i,
    {
        if a[i] != b[i] {
            return false;
        }
        i = i + 1;
    }
    assert(a@ =~= b@);
    true
}

fn push_vec(out: &mut Vec<char>, v: &Vec<char>)
    ensures
        final(out)@ == old(out)@ + v@,
{
    let mut i: usize = 0;
    while i < v.len()
        invariant
            i <= v.len(),
            out@ == old(out)@ + v@.take(i as int),
        decreases v.len() - i,
    {
        out.push(v[i]);
        i = i + 1;
        assert(out@ =~= old(out)@ + v@.take(i as int));
    }
    assert(v@.take(i as int) =~= v@);
}

impl BranchingCommand {
    /// The qualified name of `label` declared inside `current_function`.
    pub fn mangle(current_function: &Vec<char>, label: &Vec<char>) -> (r: Vec<char>)
        ensures
            r@ == mangle_spec(current_function@, label@),
    {
        let mut r: Vec<char> = Vec::new();
        push_vec(&mut r, current_function);
        r.push('$');
        push_vec(&mut r, label);
        assert(r@ =~= mangle_spec(current_function@, label@));
        r
    }
}

} // verus!
