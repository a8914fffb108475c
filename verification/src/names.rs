//! A table of values by name, in which no name occurs twice.

use vstd::prelude::*;

use crate::text::same_text;

verus! {

/// The map that a list of named values stands for.
pub open spec fn pairs_map<V>(pairs: Seq<(Seq<char>, V)>) -> Map<Seq<char>, V> {
    Map::new(
        |name: Seq<char>| exists|i: int| 0 <= i < pairs.len() && (#[trigger] pairs[i]).0 == name,
        |name: Seq<char>|
            pairs[choose|i: int| 0 <= i < pairs.len() && (#[trigger] pairs[i]).0 == name].1,
    )
}

/// No name stands twice in the list.
pub open spec fn names_unique<V>(pairs: Seq<(Seq<char>, V)>) -> bool {
    forall|i: int, j: int|
        #![trigger pairs[i], pairs[j]]
        0 <= i < j < pairs.len() ==> pairs[i].0 != pairs[j].0
}

/// Values by name. Each name has at most one value.
pub struct NameMap<V> {
    entries: Vec<(String, V)>,
}

impl<V> View for NameMap<V> {
    type V = Map<Seq<char>, V>;

    open spec fn view(&self) -> Map<Seq<char>, V> {
        pairs_map(self.pairs())
    }
}

impl<V> NameMap<V> {
    /// The names with their values, in the order in which they are walked.
    pub closed spec fn pairs(&self) -> Seq<(Seq<char>, V)> {
        self.entries@.map_values(|e: (String, V)| (e.0@, e.1))
    }

    #[verifier::type_invariant]
    spec fn inv(self) -> bool {
        names_unique(self.entries@.map_values(|e: (String, V)| (e.0@, e.1)))
    }

    /// A table without entries.
    pub fn new() -> (out: Self)
        ensures
            out.pairs() == Seq::<(Seq<char>, V)>::empty(),
            out@ == Map::<Seq<char>, V>::empty(),
    {
        let out = NameMap { entries: Vec::new() };
        assert(out.pairs() =~= Seq::<(Seq<char>, V)>::empty());
        assert(out@ =~= Map::<Seq<char>, V>::empty());
        out
    }

    /// How many names the table holds.
    pub fn len(&self) -> (n: usize)
        ensures
            n == self@.len(),
            n == self.pairs().len(),
            names_unique(self.pairs()),
    {
        proof {
            use_type_invariant(self);
            lemma_as_many_names_as_pairs(self.pairs());
        }
        self.entries.len()
    }

    /// Whether the table holds no name.
    pub fn is_empty(&self) -> (r: bool)
        ensures
            r == (self@ == Map::<Seq<char>, V>::empty()),
            r == (self.pairs().len() == 0),
    {
        proof {
            if self.pairs().len() > 0 {
                assert(self@.contains_key(self.pairs()[0].0));
            } else {
                assert(self@ =~= Map::<Seq<char>, V>::empty());
            }
        }
        self.entries.len() == 0
    }

    /// The name at place `i`.
    pub fn name_at(&self, i: usize) -> (name: &String)
        requires
            i < self.pairs().len(),
        ensures
            name@ == self.pairs()[i as int].0,
    {
        &self.entries[i].0
    }

    /// The value at place `i`.
    pub fn value_at(&self, i: usize) -> (value: &V)
        requires
            i < self.pairs().len(),
        ensures
            *value == self.pairs()[i as int].1,
            self@.contains_key(self.pairs()[i as int].0),
            self@[self.pairs()[i as int].0] == *value,
    {
        proof {
            use_type_invariant(self);
            lemma_pair_in_map(self.pairs(), i as int);
        }
        &self.entries[i].1
    }

    /// Where `name` stands in the table.
    fn place_of(&self, name: &str) -> (r: Option<usize>)
        ensures
            r is Some <==> self@.contains_key(name@),
            r matches Some(i) ==> i < self.entries@.len() && self.entries@[i as int].0@ == name@,
    {
        let mut i: usize = 0;
        while i < self.entries.len()
            invariant
                i <= self.entries@.len(),
                forall|j: int| 0 <= j < i ==> (#[trigger] self.pairs()[j]).0 != name@,
            decreases self.entries@.len() - i,
        {
            if same_text(&self.entries[i].0, name) {
                assert(self.pairs()[i as int].0 == name@);
                return Some(i);
            }
            i += 1;
        }
        None
    }

    /// The value of `name`, if the table has one.
    pub fn get(&self, name: &str) -> (r: Option<&V>)
        ensures
            r is Some <==> self@.contains_key(name@),
            r matches Some(v) ==> *v == self@[name@],
    {
        match self.place_of(name) {
            Some(i) => {
                proof {
                    use_type_invariant(self);
                    lemma_pair_in_map(self.pairs(), i as int);
                }
                Some(&self.entries[i].1)
            },
            None => None,
        }
    }

    /// Gives `name` the value `value`, in place of one that it had.
    pub fn insert(&mut self, name: String, value: V)
        ensures
            final(self)@ == old(self)@.insert(name@, value),
    {
        proof {
            use_type_invariant(&*self);
        }
        let ghost before = self.pairs();
        let place = self.place_of(&name);
        let mut entries: Vec<(String, V)> = Vec::new();
        std::mem::swap(&mut entries, &mut self.entries);
        match place {
            Some(i) => {
                let ghost old_entries = entries@;
                entries.set(i, (name, value));
                let ghost after = entries@.map_values(|e: (String, V)| (e.0@, e.1));
                proof {
                    assert(after =~= before.update(i as int, (name@, value)));
                    lemma_update_pair(before, i as int, value);
                }
            },
            None => {
                entries.push((name, value));
                let ghost after = entries@.map_values(|e: (String, V)| (e.0@, e.1));
                proof {
                    assert(after =~= before.push((name@, value)));
                    lemma_push_pair(before, name@, value);
                }
            },
        }
        self.entries = entries;
    }

    /// Takes `name` out of the table and gives back the value that it had.
    pub fn remove(&mut self, name: &str) -> (r: Option<V>)
        ensures
            final(self)@ == old(self)@.remove(name@),
            r is Some <==> old(self)@.contains_key(name@),
            r matches Some(v) ==> v == old(self)@[name@],
    {
        proof {
            use_type_invariant(&*self);
        }
        let ghost before = self.pairs();
        match self.place_of(name) {
            Some(i) => {
                let mut entries: Vec<(String, V)> = Vec::new();
                std::mem::swap(&mut entries, &mut self.entries);
                let (_, value) = entries.remove(i);
                let ghost after = entries@.map_values(|e: (String, V)| (e.0@, e.1));
                proof {
                    assert(after =~= before.remove(i as int));
                    lemma_pair_in_map(before, i as int);
                    lemma_remove_pair(before, i as int);
                }
                self.entries = entries;
                Some(value)
            },
            None => {
                assert(self@ =~= self@.remove(name@));
                None
            },
        }
    }

    /// Takes over every entry of `other`, in place of those under the same name.
    pub fn extend(&mut self, other: NameMap<V>)
        ensures
            final(self)@ == old(self)@.union_prefer_right(other@),
    {
        let ghost all = other@;
        let ghost start = self@;
        let mut rest = other;
        loop
            invariant
                start.union_prefer_right(all) == self@.union_prefer_right(rest@),
            ensures
                start.union_prefer_right(all) == self@,
            decreases rest.pairs().len(),
        {
            match rest.pop() {
                Some((name, value)) => {
                    self.insert(name, value);
                },
                None => {
                    assert(self@.union_prefer_right(Map::empty()) =~= self@);
                    break;
                },
            }
        }
    }

    /// Takes one entry out of the table.
    fn pop(&mut self) -> (r: Option<(String, V)>)
        ensures
            r matches Some((name, value)) ==> {
                &&& old(self).pairs().len() == final(self).pairs().len() + 1
                &&& old(self)@ == final(self)@.insert(name@, value)
                &&& !final(self)@.contains_key(name@)
            },
            r is None ==> old(self)@ == Map::<Seq<char>, V>::empty() && *final(self) == *old(self),
    {
        proof {
            use_type_invariant(&*self);
        }
        if self.is_empty() {
            return None;
        }
        let ghost before = self.pairs();
        let mut entries: Vec<(String, V)> = Vec::new();
        std::mem::swap(&mut entries, &mut self.entries);
        let last = entries.pop();
        let ghost after = entries@.map_values(|e: (String, V)| (e.0@, e.1));
        proof {
            let end = before.len() - 1;
            assert(after =~= before.remove(end));
            lemma_pair_in_map(before, end);
            lemma_remove_pair(before, end);
            assert(pairs_map(before) =~= pairs_map(after).insert(before[end].0, before[end].1));
        }
        self.entries = entries;
        last
    }
}

proof fn lemma_pair_in_map<V>(pairs: Seq<(Seq<char>, V)>, i: int)
    requires
        names_unique(pairs),
        0 <= i < pairs.len(),
    ensures
        pairs_map(pairs).contains_key(pairs[i].0),
        pairs_map(pairs)[pairs[i].0] == pairs[i].1,
{
    let name = pairs[i].0;
    let k = choose|k: int| 0 <= k < pairs.len() && (#[trigger] pairs[k]).0 == name;
    assert(pairs[i].0 == name);
    assert(k == i);
}

proof fn lemma_as_many_names_as_pairs<V>(pairs: Seq<(Seq<char>, V)>)
    requires
        names_unique(pairs),
    ensures
        pairs_map(pairs).dom().finite(),
        pairs_map(pairs).len() == pairs.len(),
    decreases pairs.len(),
{
    if pairs.len() == 0 {
        assert(pairs_map(pairs).dom() =~= Set::<Seq<char>>::empty());
    } else {
        let end = pairs.len() - 1;
        lemma_pair_in_map(pairs, end);
        lemma_remove_pair(pairs, end);
        lemma_as_many_names_as_pairs(pairs.remove(end));
        assert(pairs_map(pairs).dom() =~= pairs_map(pairs.remove(end)).dom().insert(pairs[end].0));
    }
}

proof fn lemma_map_of_pairs<V>(pairs: Seq<(Seq<char>, V)>, target: Map<Seq<char>, V>)
    requires
        names_unique(pairs),
        forall|j: int|
            0 <= j < pairs.len() ==> target.contains_key((#[trigger] pairs[j]).0)
                && target[pairs[j].0] == pairs[j].1,
        forall|name: Seq<char>| #[trigger]
            target.contains_key(name) ==> exists|j: int|
                0 <= j < pairs.len() && (#[trigger] pairs[j]).0 == name,
    ensures
        pairs_map(pairs) == target,
{
    assert forall|name: Seq<char>| #[trigger] pairs_map(pairs).contains_key(name) implies target[name]
        == pairs_map(pairs)[name] by {
        let j = choose|j: int| 0 <= j < pairs.len() && (#[trigger] pairs[j]).0 == name;
        lemma_pair_in_map(pairs, j);
    }
    assert(pairs_map(pairs) =~= target);
}

proof fn lemma_update_pair<V>(pairs: Seq<(Seq<char>, V)>, i: int, value: V)
    requires
        names_unique(pairs),
        0 <= i < pairs.len(),
    ensures
        names_unique(pairs.update(i, (pairs[i].0, value))),
        pairs_map(pairs.update(i, (pairs[i].0, value))) == pairs_map(pairs).insert(
            pairs[i].0,
            value,
        ),
{
    let after = pairs.update(i, (pairs[i].0, value));
    let target = pairs_map(pairs).insert(pairs[i].0, value);
    assert forall|a: int, b: int|
        #![trigger after[a], after[b]]
        0 <= a < b < after.len() implies after[a].0 != after[b].0 by {
        assert(pairs[a].0 != pairs[b].0);
    }
    assert forall|j: int| 0 <= j < after.len() implies target.contains_key((#[trigger] after[j]).0)
        && target[after[j].0] == after[j].1 by {
        lemma_pair_in_map(pairs, j);
        if j < i {
            assert(pairs[j].0 != pairs[i].0);
        } else if j > i {
            assert(pairs[i].0 != pairs[j].0);
        }
    }
    assert forall|name: Seq<char>| #[trigger] target.contains_key(name) implies exists|j: int|
        0 <= j < after.len() && (#[trigger] after[j]).0 == name by {
        if name == pairs[i].0 {
            assert(after[i].0 == name);
        } else {
            let j = choose|j: int| 0 <= j < pairs.len() && (#[trigger] pairs[j]).0 == name;
            assert(after[j].0 == name);
        }
    }
    lemma_map_of_pairs(after, target);
}

proof fn lemma_push_pair<V>(pairs: Seq<(Seq<char>, V)>, name: Seq<char>, value: V)
    requires
        names_unique(pairs),
        !pairs_map(pairs).contains_key(name),
    ensures
        names_unique(pairs.push((name, value))),
        pairs_map(pairs.push((name, value))) == pairs_map(pairs).insert(name, value),
{
    let after = pairs.push((name, value));
    let target = pairs_map(pairs).insert(name, value);
    assert forall|a: int, b: int|
        #![trigger after[a], after[b]]
        0 <= a < b < after.len() implies after[a].0 != after[b].0 by {
        assert(pairs[a].0 == after[a].0);
        lemma_pair_in_map(pairs, a);
        if b < pairs.len() {
            assert(pairs[b].0 == after[b].0);
        }
    }
    assert forall|j: int| 0 <= j < after.len() implies target.contains_key((#[trigger] after[j]).0)
        && target[after[j].0] == after[j].1 by {
        if j < pairs.len() {
            lemma_pair_in_map(pairs, j);
        }
    }
    assert forall|k: Seq<char>| #[trigger] target.contains_key(k) implies exists|j: int|
        0 <= j < after.len() && (#[trigger] after[j]).0 == k by {
        if k == name {
            assert(after[pairs.len() as int].0 == k);
        } else {
            let j = choose|j: int| 0 <= j < pairs.len() && (#[trigger] pairs[j]).0 == k;
            assert(after[j].0 == k);
        }
    }
    lemma_map_of_pairs(after, target);
}

proof fn lemma_remove_pair<V>(pairs: Seq<(Seq<char>, V)>, i: int)
    requires
        names_unique(pairs),
        0 <= i < pairs.len(),
    ensures
        names_unique(pairs.remove(i)),
        pairs_map(pairs.remove(i)) == pairs_map(pairs).remove(pairs[i].0),
{
    let after = pairs.remove(i);
    let target = pairs_map(pairs).remove(pairs[i].0);
    let from = |j: int| if j < i { j } else { j + 1 };
    assert forall|a: int, b: int|
        #![trigger after[a], after[b]]
        0 <= a < b < after.len() implies after[a].0 != after[b].0 by {
        assert(after[a] == pairs[from(a)]);
        assert(after[b] == pairs[from(b)]);
    }
    assert forall|j: int| 0 <= j < after.len() implies target.contains_key((#[trigger] after[j]).0)
        && target[after[j].0] == after[j].1 by {
        assert(after[j] == pairs[from(j)]);
        lemma_pair_in_map(pairs, from(j));
        if from(j) < i {
            assert(pairs[from(j)].0 != pairs[i].0);
        } else {
            assert(pairs[i].0 != pairs[from(j)].0);
        }
    }
    assert forall|k: Seq<char>| #[trigger] target.contains_key(k) implies exists|j: int|
        0 <= j < after.len() && (#[trigger] after[j]).0 == k by {
        let j = choose|j: int| 0 <= j < pairs.len() && (#[trigger] pairs[j]).0 == k;
        if j < i {
            assert(after[j].0 == k);
        } else {
            assert(after[j - 1].0 == k);
        }
    }
    lemma_map_of_pairs(after, target);
}

} // verus!
