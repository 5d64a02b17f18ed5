//! The table from project identifiers to the paths found by the latest scan.
use vstd::prelude::*;

verus! {

/// The table that `pairs` describe: each identifier maps to the path of its
/// last pair.
pub open spec fn pairs_map(pairs: Seq<(Seq<char>, Seq<char>)>) -> Map<Seq<char>, Seq<char>>
    decreases pairs.len(),
{
    if pairs.len() == 0 {
        Map::empty()
    } else {
        pairs_map(pairs.drop_last()).insert(pairs.last().0, pairs.last().1)
    }
}

/// A table filled from `pairs` holds exactly the identifiers of `pairs`,
/// each with the path of its last pair: nothing of what the table held
/// before survives.
pub proof fn replaced_table_holds_only_new_pairs(pairs: Seq<(Seq<char>, Seq<char>)>, id: Seq<char>)
    ensures
        pairs_map(pairs).contains_key(id) <==> exists|i: int|
            0 <= i < pairs.len() && (#[trigger] pairs[i]).0 == id,
        pairs_map(pairs).contains_key(id) ==> exists|i: int|
            0 <= i < pairs.len() && (#[trigger] pairs[i]) == (id, pairs_map(pairs)[id]) && forall|
                j: int,
            |
                i < j < pairs.len() ==> (#[trigger] pairs[j]).0 != id,
    decreases pairs.len(),
{
    if pairs.len() > 0 {
        let rest = pairs.drop_last();
        replaced_table_holds_only_new_pairs(rest, id);
        if pairs_map(rest).contains_key(id) && pairs.last().0 != id {
            let i = choose|i: int|
                0 <= i < rest.len() && (#[trigger] rest[i]) == (id, pairs_map(rest)[id]) && forall|
                    j: int,
                |
                    i < j < rest.len() ==> (#[trigger] rest[j]).0 != id;
            assert(pairs[i] == rest[i]);
            assert forall|j: int| i < j < pairs.len() implies (#[trigger] pairs[j]).0 != id by {
                if j < rest.len() {
                    assert(pairs[j] == rest[j]);
                }
            }
        }
        if pairs.last().0 == id {
            assert(pairs[pairs.len() - 1].0 == id);
        }
        assert forall|i: int| 0 <= i < rest.len() && (#[trigger] rest[i]).0 == id implies exists|
            k: int,
        | 0 <= k < pairs.len() && (#[trigger] pairs[k]).0 == id by {
            assert(pairs[i] == rest[i]);
        }
        assert forall|i: int| 0 <= i < pairs.len() && (#[trigger] pairs[i]).0 == id && i
            < rest.len() implies exists|k: int| 0 <= k < rest.len() && (#[trigger] rest[k]).0
            == id by {
            assert(pairs[i] == rest[i]);
        }
    }
}

/// Once an identifier has been taken, looking it up finds nothing.
pub proof fn taken_identifier_is_gone(table: Map<Seq<char>, Seq<char>>, id: Seq<char>)
    ensures
        !table.remove(id).contains_key(id),
{
}

/// Of two takes of one identifier, one after the other, at most the first
/// finds an entry; the second leaves the table as it was.
pub proof fn only_one_take_succeeds(table: Map<Seq<char>, Seq<char>>, id: Seq<char>)
    ensures
        !table.remove(id).contains_key(id),
        table.remove(id).remove(id) == table.remove(id),
{
    assert(table.remove(id).remove(id) =~= table.remove(id));
}

/// The view of identifier and path strings.
pub open spec fn pairs_view(pairs: Seq<(String, String)>) -> Seq<(Seq<char>, Seq<char>)> {
    pairs.map_values(|p: (String, String)| (p.0@, p.1@))
}

/// Maps each identifier of the latest scan to the path of its project folder.
/// Callers that share it between threads keep it behind one lock, so that each
/// method runs as one indivisible step.
pub struct ProjectCache {
    entries: Vec<(String, String)>,
    table: Ghost<Map<Seq<char>, Seq<char>>>,
}

impl View for ProjectCache {
    type V = Map<Seq<char>, Seq<char>>;

    closed spec fn view(&self) -> Map<Seq<char>, Seq<char>> {
        self.table@
    }
}

impl ProjectCache {
    /// Each identifier is stored once, and the stored pairs are exactly the
    /// table.
    pub closed spec fn wf(&self) -> bool {
        &&& forall|i: int, j: int|
            0 <= i < j < self.entries@.len() ==> (#[trigger] self.entries@[i]).0@
                != (#[trigger] self.entries@[j]).0@
        &&& forall|i: int|
            0 <= i < self.entries@.len() ==> self.table@.contains_key(
                (#[trigger] self.entries@[i]).0@,
            ) && self.table@[self.entries@[i].0@] == self.entries@[i].1@
        &&& forall|k: Seq<char>|
            #[trigger] self.table@.contains_key(k) ==> exists|i: int|
                0 <= i < self.entries@.len() && (#[trigger] self.entries@[i]).0@ == k
    }

    /// An empty table.
    pub fn new() -> (r: ProjectCache)
        ensures
            r.wf(),
            r@ == Map::<Seq<char>, Seq<char>>::empty(),
    {
        ProjectCache { entries: Vec::new(), table: Ghost(Map::empty()) }
    }

    /// The index of the entry for `id`, if there is one.
    fn position(&self, id: &String) -> (r: Option<usize>)
        requires
            self.wf(),
        ensures
            r is None <==> !self@.contains_key(id@),
            r matches Some(i) ==> i < self.entries@.len() && self.entries@[i as int].0@ == id@,
    {
        let mut i: usize = 0;
        while i < self.entries.len()
            invariant
                self.wf(),
                i <= self.entries@.len(),
                forall|k: int| 0 <= k < i ==> (#[trigger] self.entries@[k]).0@ != id@,
            decreases self.entries@.len() - i,
        {
            if self.entries[i].0 == *id {
                return Some(i);
            }
            i = i + 1;
        }
        None
    }

    /// The path recorded for `id`, if any.
    pub fn resolve(&self, id: &String) -> (r: Option<String>)
        requires
            self.wf(),
        ensures
            r is None <==> !self@.contains_key(id@),
            r matches Some(p) ==> p@ == self@[id@],
    {
        match self.position(id) {
            Some(i) => Some(self.entries[i].1.clone()),
            None => None,
        }
    }

    /// Removes the entry for `id` and hands its path back; `None`, with the
    /// table unchanged, where there is none.
    pub fn take(&mut self, id: &String) -> (r: Option<String>)
        requires
            old(self).wf(),
        ensures
            final(self).wf(),
            final(self)@ == old(self)@.remove(id@),
            r is None <==> !old(self)@.contains_key(id@),
            r matches Some(p) ==> p@ == old(self)@[id@],
    {
        match self.position(id) {
            Some(i) => {
                let ghost prev = self.entries@;
                let (_, path) = self.entries.remove(i);
                self.table = Ghost(self.table@.remove(id@));
                proof {
                    assert forall|k: int| 0 <= k < self.entries@.len() implies self.entries@[k]
                        == prev[if k < i { k } else { k + 1 }] by {}
                    assert forall|k: Seq<char>| #[trigger] self.table@.contains_key(k) implies exists|
                        n: int,
                    | 0 <= n < self.entries@.len() && (#[trigger] self.entries@[n]).0@ == k by {
                        let m = choose|m: int| 0 <= m < prev.len() && (#[trigger] prev[m]).0@ == k;
                        if m < i {
                            assert(self.entries@[m].0@ == k);
                        } else {
                            assert(m != i);
                            assert(self.entries@[m - 1].0@ == k);
                        }
                    }
                }
                Some(path)
            },
            None => {
                assert(self.table@.remove(id@) =~= self.table@);
                None
            },
        }
    }

    /// Records `path` for `id`, replacing an earlier path for it.
    fn insert(&mut self, id: String, path: String)
        requires
            old(self).wf(),
        ensures
            final(self).wf(),
            final(self)@ == old(self)@.insert(id@, path@),
    {
        match self.position(&id) {
            Some(i) => {
                let ghost prev = self.entries@;
                let ghost key = id@;
                self.entries.set(i, (id, path));
                self.table = Ghost(self.table@.insert(key, path@));
                proof {
                    assert forall|k: Seq<char>| #[trigger] self.table@.contains_key(k) implies exists|
                        n: int,
                    | 0 <= n < self.entries@.len() && (#[trigger] self.entries@[n]).0@ == k by {
                        if k != key {
                            let m = choose|m: int| 0 <= m < prev.len() && (#[trigger] prev[m]).0@ == k;
                            assert(self.entries@[m].0@ == k);
                        } else {
                            assert(self.entries@[i as int].0@ == k);
                        }
                    }
                }
            },
            None => {
                let ghost key = id@;
                let ghost prev = self.entries@;
                self.entries.push((id, path));
                self.table = Ghost(self.table@.insert(key, path@));
                proof {
                    let last = self.entries@.len() - 1;
                    assert forall|k: Seq<char>| #[trigger] self.table@.contains_key(k) implies exists|
                        n: int,
                    | 0 <= n < self.entries@.len() && (#[trigger] self.entries@[n]).0@ == k by {
                        if k != key {
                            let m = choose|m: int| 0 <= m < prev.len() && (#[trigger] prev[m]).0@ == k;
                            assert(self.entries@[m].0@ == k);
                        } else {
                            assert(self.entries@[last].0@ == k);
                        }
                    }
                }
            },
        }
    }

    /// Discards every entry, then records each pair in order; where an
    /// identifier comes twice, its last path wins.
    pub fn replace_all(&mut self, pairs: Vec<(String, String)>)
        requires
            old(self).wf(),
        ensures
            final(self).wf(),
            final(self)@ == pairs_map(pairs_view(pairs@)),
    {
        *self = ProjectCache::new();
        let mut i: usize = 0;
        while i < pairs.len()
            invariant
                self.wf(),
                i <= pairs@.len(),
                self@ == pairs_map(pairs_view(pairs@.take(i as int))),
            decreases pairs@.len() - i,
        {
            let id = pairs[i].0.clone();
            let path = pairs[i].1.clone();
            proof {
                assert(pairs_view(pairs@.take(i + 1)).drop_last() =~= pairs_view(pairs@.take(i as int)));
            }
            self.insert(id, path);
            i = i + 1;
        }
        assert(pairs@.take(i as int) =~= pairs@);
    }
}

} // verus!
