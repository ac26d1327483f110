//! Agents are found by their id: the first agent of a roster whose id matches,
//! and a table of per-agent values in which a later entry for an id replaces
//! the earlier one.

use vstd::prelude::*;

verus! {

/// Whether some id of `ids` reads `id`.
pub open spec fn has_id(ids: Seq<String>, id: Seq<char>) -> bool {
    exists|j: int| 0 <= j < ids.len() && #[trigger] ids[j]@ == id
}

/// `i` is the first position of `ids` whose id reads `id`.
pub open spec fn is_first_match(ids: Seq<String>, id: Seq<char>, i: int) -> bool {
    &&& 0 <= i < ids.len()
    &&& ids[i]@ == id
    &&& forall|j: int| 0 <= j < i ==> #[trigger] ids[j]@ != id
}

/// The position of the first agent in `agent_ids` whose id is `id`, or `None`
/// when no agent has that id.
pub fn first_agent_index(agent_ids: &Vec<String>, id: &String) -> (r: Option<usize>)
    ensures
        match r {
            Some(i) => is_first_match(agent_ids@, id@, i as int),
            None => !has_id(agent_ids@, id@),
        },
{
    let n: usize = agent_ids.len();
    let mut i: usize = 0;
    while i < n
        invariant
            n == agent_ids@.len(),
            0 <= i <= n,
            forall|j: int| 0 <= j < i ==> #[trigger] agent_ids@[j]@ != id@,
        decreases n - i,
    {
        if agent_ids[i] == *id {
            return Some(i);
        }
        i = i + 1;
    }
    None
}

/// Per-agent values keyed by agent id. Each id occurs at most once; setting the
/// value of an id that is present replaces it.
pub struct AgentTable<V> {
    entries: Vec<(String, V)>,
}

impl<V> AgentTable<V> {
    /// No id occurs twice.
    #[verifier::type_invariant]
    spec fn ids_unique(self) -> bool {
        forall|i: int, j: int|
            0 <= i < self.entries@.len() && 0 <= j < self.entries@.len() && i != j
                ==> #[trigger] self.entries@[i].0@ != #[trigger] self.entries@[j].0@
    }

    /// Whether the table holds a value for `id`.
    pub closed spec fn holds(self, id: Seq<char>) -> bool {
        exists|i: int| 0 <= i < self.entries@.len() && #[trigger] self.entries@[i].0@ == id
    }

    /// The value held for `id` (meaningful where `holds(id)`).
    pub closed spec fn value_of(self, id: Seq<char>) -> V {
        self.entries@[choose|i: int| 0 <= i < self.entries@.len() && #[trigger] self.entries@[i].0@ == id].1
    }

    /// The number of ids with a value.
    pub closed spec fn size(self) -> nat {
        self.entries@.len()
    }

    /// The table as a map from agent id to value.
    pub open spec fn as_map(self) -> Map<Seq<char>, V> {
        Map::new(|id: Seq<char>| self.holds(id), |id: Seq<char>| self.value_of(id))
    }

    /// An empty table.
    pub fn new() -> (t: Self)
        ensures
            t.as_map() == Map::<Seq<char>, V>::empty(),
            t.size() == 0,
    {
        let t = AgentTable { entries: Vec::new() };
        assert(t.as_map() =~= Map::<Seq<char>, V>::empty());
        t
    }

    /// Position of `id` in the table.
    fn position(&self, id: &String) -> (r: Option<usize>)
        ensures
            match r {
                Some(i) => i < self.entries@.len() && self.entries@[i as int].0@ == id@,
                None => !self.holds(id@),
            },
    {
        let n: usize = self.entries.len();
        let mut i: usize = 0;
        while i < n
            invariant
                n == self.entries@.len(),
                0 <= i <= n,
                forall|j: int| 0 <= j < i ==> #[trigger] self.entries@[j].0@ != id@,
            decreases n - i,
        {
            if self.entries[i].0 == *id {
                return Some(i);
            }
            i = i + 1;
        }
        None
    }

    /// Sets the value for `id`, replacing any value it had.
    pub fn insert(&mut self, id: String, value: V)
        ensures
            final(self).as_map() == old(self).as_map().insert(id@, value),
            final(self).size() == if old(self).holds(id@) { old(self).size() } else { old(self).size() + 1 },
    {
        proof { use_type_invariant(&*self); }
        let ghost id_view = id@;
        match self.position(&id) {
            Some(i) => {
                let ghost before = *self;
                let mut entries: Vec<(String, V)> = Vec::new();
                std::mem::swap(&mut entries, &mut self.entries);
                entries.set(i, (id, value));
                *self = AgentTable { entries };
                proof {
                    assert forall|k: Seq<char>| self.holds(k) == before.holds(k) by {
                        if before.holds(k) {
                            let j = choose|j: int| 0 <= j < before.entries@.len() && #[trigger] before.entries@[j].0@ == k;
                            assert(self.entries@[j].0@ == k);
                        }
                        if self.holds(k) {
                            let j = choose|j: int| 0 <= j < self.entries@.len() && #[trigger] self.entries@[j].0@ == k;
                            assert(before.entries@[j].0@ == k);
                        }
                    }
                    assert forall|k: Seq<char>| #[trigger] self.holds(k) && k != id_view implies self.value_of(k) == before.value_of(k) by {
                        let j = choose|j: int| 0 <= j < self.entries@.len() && #[trigger] self.entries@[j].0@ == k;
                        let j2 = choose|j: int| 0 <= j < before.entries@.len() && #[trigger] before.entries@[j].0@ == k;
                        assert(before.entries@[j].0@ == k);
                        assert(j == j2);
                    }
                    assert(self.value_of(id_view) == value) by {
                        let j = choose|j: int| 0 <= j < self.entries@.len() && #[trigger] self.entries@[j].0@ == id_view;
                        assert(self.entries@[i as int].0@ == id_view);
                        assert(j == i);
                    }
                    assert(self.as_map() =~= before.as_map().insert(id_view, value));
                }
            },
            None => {
                let ghost before = *self;
                let mut entries: Vec<(String, V)> = Vec::new();
                std::mem::swap(&mut entries, &mut self.entries);
                entries.push((id, value));
                *self = AgentTable { entries };
                proof {
                    let n = before.entries@.len();
                    assert(self.entries@[n as int].0@ == id_view);
                    assert forall|k: Seq<char>| self.holds(k) == (before.holds(k) || k == id_view) by {
                        if before.holds(k) {
                            let j = choose|j: int| 0 <= j < before.entries@.len() && #[trigger] before.entries@[j].0@ == k;
                            assert(self.entries@[j].0@ == k);
                        }
                        if self.holds(k) && k != id_view {
                            let j = choose|j: int| 0 <= j < self.entries@.len() && #[trigger] self.entries@[j].0@ == k;
                            assert(before.entries@[j].0@ == k);
                        }
                    }
                    assert forall|k: Seq<char>| #[trigger] self.holds(k) && k != id_view implies self.value_of(k) == before.value_of(k) by {
                        let j = choose|j: int| 0 <= j < self.entries@.len() && #[trigger] self.entries@[j].0@ == k;
                        let j2 = choose|j: int| 0 <= j < before.entries@.len() && #[trigger] before.entries@[j].0@ == k;
                        assert(j != n);
                        assert(before.entries@[j].0@ == k);
                        assert(j == j2);
                    }
                    assert(self.value_of(id_view) == value) by {
                        let j = choose|j: int| 0 <= j < self.entries@.len() && #[trigger] self.entries@[j].0@ == id_view;
                        assert(j == n);
                    }
                    assert(self.as_map() =~= before.as_map().insert(id_view, value));
                }
            },
        }
    }

    /// The value held for `id`, if any.
    pub fn get(&self, id: &String) -> (r: Option<&V>)
        ensures
            match r {
                Some(v) => self.as_map().contains_key(id@) && *v == self.as_map()[id@],
                None => !self.as_map().contains_key(id@),
            },
    {
        proof { use_type_invariant(self); }
        match self.position(id) {
            Some(i) => {
                proof {
                    let j = choose|j: int| 0 <= j < self.entries@.len() && #[trigger] self.entries@[j].0@ == id@;
                    assert(self.entries@[i as int].0@ == id@);
                    assert(j == i);
                }
                Some(&self.entries[i].1)
            },
            None => None,
        }
    }
}

} // verus!
