use vstd::prelude::*;

verus! {

/// A request in flight: the id that the handle assigned to it, the status
/// that the submit call wrote into its slot, and the continuation that
/// resolves the caller who issued it.
pub struct PendingEntry<K> {
    pub id: i64,
    pub status: u32,
    pub continuation: K,
}

impl<K> PendingEntry<K> {
    pub fn new(id: i64, status: u32, continuation: K) -> (r: PendingEntry<K>)
        ensures
            r.id == id,
            r.status == status,
            r.continuation == continuation,
    {
        PendingEntry { id, status, continuation }
    }
}

/// No two entries of `s` carry the same id.
pub open spec fn ids_unique<K>(s: Seq<PendingEntry<K>>) -> bool {
    forall|i: int, j: int|
        0 <= i < s.len() && 0 <= j < s.len() && i != j ==> #[trigger] s[i].id != #[trigger] s[j].id
}

/// Some entry of `s` carries `id`.
pub open spec fn has_id<K>(s: Seq<PendingEntry<K>>, id: i64) -> bool {
    exists|i: int| 0 <= i < s.len() && #[trigger] s[i].id == id
}

/// Where the entry with `id` stands in `s`, or -1 when there is none.
pub open spec fn position_of<K>(s: Seq<PendingEntry<K>>, id: i64) -> int {
    if has_id(s, id) {
        choose|i: int| 0 <= i < s.len() && #[trigger] s[i].id == id
    } else {
        -1
    }
}

/// `s` once the entry with `id` is taken out of it (unchanged if there is none).
pub open spec fn without_id<K>(s: Seq<PendingEntry<K>>, id: i64) -> Seq<PendingEntry<K>> {
    if has_id(s, id) {
        s.remove(position_of(s, id))
    } else {
        s
    }
}

pub proof fn lemma_position_of<K>(s: Seq<PendingEntry<K>>, i: int)
    requires
        ids_unique(s),
        0 <= i < s.len(),
    ensures
        has_id(s, s[i].id),
        position_of(s, s[i].id) == i,
{
    let id = s[i].id;
    assert(s[i].id == id);
    let j = position_of(s, id);
    assert(0 <= j < s.len() && s[j].id == id);
}

pub proof fn lemma_position_of_found<K>(s: Seq<PendingEntry<K>>, id: i64)
    requires
        has_id(s, id),
    ensures
        0 <= position_of(s, id) < s.len(),
        s[position_of(s, id)].id == id,
{
}

/// Taking an entry out of a sequence with unique ids leaves the ids unique.
pub proof fn lemma_remove_keeps_unique<K>(s: Seq<PendingEntry<K>>, k: int)
    requires
        ids_unique(s),
        0 <= k < s.len(),
    ensures
        ids_unique(s.remove(k)),
{
    let r = s.remove(k);
    assert forall|i: int, j: int|
        0 <= i < r.len() && 0 <= j < r.len() && i != j implies #[trigger] r[i].id != #[trigger] r[j].id by {
        let a = if i < k { i } else { i + 1 };
        let b = if j < k { j } else { j + 1 };
        assert(r[i] == s[a]);
        assert(r[j] == s[b]);
    }
}

/// Appending an entry whose id is new keeps the ids unique.
pub proof fn lemma_push_keeps_unique<K>(s: Seq<PendingEntry<K>>, e: PendingEntry<K>)
    requires
        ids_unique(s),
        !has_id(s, e.id),
    ensures
        ids_unique(s.push(e)),
{
    let r = s.push(e);
    assert forall|i: int, j: int|
        0 <= i < r.len() && 0 <= j < r.len() && i != j implies #[trigger] r[i].id != #[trigger] r[j].id by {
        if i == s.len() {
            assert(r[j] == s[j]);
        } else if j == s.len() {
            assert(r[i] == s[i]);
        } else {
            assert(r[i] == s[i]);
            assert(r[j] == s[j]);
        }
    }
}

/// The correlation table of one dispatcher: the entries in flight, in the
/// order in which they arrived, keyed by their id.
pub struct Registry<K> {
    entries: Vec<PendingEntry<K>>,
}

impl<K> Registry<K> {
    pub closed spec fn view(&self) -> Seq<PendingEntry<K>> {
        self.entries@
    }

    /// Ids are unique while their entries are pending.
    pub closed spec fn wf(&self) -> bool {
        ids_unique(self.entries@)
    }

    pub fn new() -> (r: Registry<K>)
        ensures
            r.wf(),
            r@ == Seq::<PendingEntry<K>>::empty(),
    {
        Registry { entries: Vec::new() }
    }

    pub fn len(&self) -> (r: usize)
        ensures
            r == self@.len(),
    {
        self.entries.len()
    }

    pub fn is_empty(&self) -> (r: bool)
        ensures
            r == (self@.len() == 0),
    {
        self.entries.len() == 0
    }

    /// Where the entry with `id` stands, if there is one.
    fn find(&self, id: i64) -> (r: Option<usize>)
        requires
            self.wf(),
        ensures
            r is None <==> !has_id(self@, id),
            r matches Some(i) ==> i == position_of(self@, id),
    {
        let mut i: usize = 0;
        while i < self.entries.len()
            invariant
                0 <= i <= self.entries@.len(),
                ids_unique(self.entries@),
                forall|j: int| 0 <= j < i ==> #[trigger] self.entries@[j].id != id,
            decreases self.entries@.len() - i,
        {
            if self.entries[i].id == id {
                proof {
                    lemma_position_of(self.entries@, i as int);
                }
                return Some(i);
            }
            i = i + 1;
        }
        None
    }

    pub fn contains(&self, id: i64) -> (r: bool)
        requires
            self.wf(),
        ensures
            r == has_id(self@, id),
    {
        self.find(id).is_some()
    }

    /// Adds `e` unless an entry with its id is already pending; in that case
    /// the registry is left as it was and `e` is handed back.
    pub fn insert(&mut self, e: PendingEntry<K>) -> (r: Result<(), PendingEntry<K>>)
        requires
            old(self).wf(),
        ensures
            final(self).wf(),
            r is Ok <==> !has_id(old(self)@, e.id),
            r is Ok ==> final(self)@ == old(self)@.push(e),
            r matches Err(back) ==> back == e && final(self)@ == old(self)@,
    {
        match self.find(e.id) {
            Some(_) => Err(e),
            None => {
                proof {
                    lemma_push_keeps_unique(self.entries@, e);
                }
                self.entries.push(e);
                Ok(())
            },
        }
    }

    /// Takes out the entry with `id`, if one is pending.
    pub fn remove(&mut self, id: i64) -> (r: Option<PendingEntry<K>>)
        requires
            old(self).wf(),
        ensures
            final(self).wf(),
            r is None <==> !has_id(old(self)@, id),
            r matches Some(e) ==> e == old(self)@[position_of(old(self)@, id)],
            final(self)@ == without_id(old(self)@, id),
    {
        match self.find(id) {
            None => None,
            Some(i) => {
                proof {
                    lemma_remove_keeps_unique(self.entries@, i as int);
                }
                let e = self.entries.remove(i);
                Some(e)
            },
        }
    }

    /// Takes out every pending entry, in the order in which they arrived.
    pub fn take_all(&mut self) -> (r: Vec<PendingEntry<K>>)
        requires
            old(self).wf(),
        ensures
            final(self).wf(),
            r@ == old(self)@,
            final(self)@ == Seq::<PendingEntry<K>>::empty(),
    {
        let mut all: Vec<PendingEntry<K>> = Vec::new();
        std::mem::swap(&mut all, &mut self.entries);
        all
    }
}

} // verus!
