//! The list of the sources registered in a loop, indexed by their id.
use vstd::prelude::*;

verus! {

/// The smallest id whose slot is free, or the length of the list when all
/// slots are taken.
pub open spec fn first_free<D>(s: Seq<Option<D>>) -> int
    decreases s.len(),
{
    if s.len() == 0 {
        0
    } else if first_free(s.drop_last()) < s.len() - 1 {
        first_free(s.drop_last())
    } else if s.last() is None {
        s.len() - 1
    } else {
        s.len() as int
    }
}

/// The id a new source receives is the smallest free slot: every slot
/// before it is taken, and it is free or just past the end.
pub proof fn lemma_first_free<D>(s: Seq<Option<D>>)
    ensures
        0 <= first_free(s) <= s.len(),
        first_free(s) < s.len() ==> s[first_free(s)] is None,
        forall|i: int| 0 <= i < first_free(s) ==> #[trigger] s[i] is Some,
    decreases s.len(),
{
    if s.len() > 0 {
        lemma_first_free(s.drop_last());
        assert forall|i: int| 0 <= i < s.len() - 1 implies s.drop_last()[i] == s[i] by {}
    }
}

/// Adding a source and removing it under the id it received leaves the
/// registered sources as they were: the same ids hold the same sources.
pub proof fn lemma_add_del_restores<D>(s: Seq<Option<D>>, d: D)
    ensures
        ({
            let id = first_free(s);
            let added = if id < s.len() {
                s.update(id, Some(d))
            } else {
                s.push(Some(d))
            };
            let removed = added.update(id, None);
            forall|j: int|
                0 <= j < removed.len() ==> (removed[j] is Some <==> (j < s.len() && s[j] is Some))
                    && (removed[j] is Some ==> removed[j] == s[j])
        }),
{
    lemma_first_free(s);
}

/// The sources of a loop; a removed source leaves a free slot that the next
/// inserted source takes.
#[derive(Debug)]
pub struct SourceList<D> {
    sources: Vec<Option<D>>,
}

impl<D> View for SourceList<D> {
    type V = Seq<Option<D>>;

    closed spec fn view(&self) -> Seq<Option<D>> {
        self.sources@
    }
}

impl<D> SourceList<D> {
    /// An empty list.
    pub fn new() -> (l: Self)
        ensures
            l@ == Seq::<Option<D>>::empty(),
    {
        SourceList { sources: Vec::new() }
    }

    /// Whether a source is registered under `id`.
    pub fn contains(&self, id: u32) -> (r: bool)
        ensures
            r <==> (id < self@.len() && self@[id as int] is Some),
    {
        let i = id as usize;
        if i < self.sources.len() {
            match &self.sources[i] {
                Some(_) => true,
                None => false,
            }
        } else {
            false
        }
    }

    /// The source registered under `id`, if any.
    pub fn get_dispatcher(&self, id: u32) -> (r: Option<&D>)
        ensures
            r is Some <==> (id < self@.len() && self@[id as int] is Some),
            r matches Some(d) ==> self@[id as int] == Some(*d),
    {
        let i = id as usize;
        if i < self.sources.len() {
            match &self.sources[i] {
                Some(d) => Some(d),
                None => None,
            }
        } else {
            None
        }
    }

    /// The id the next inserted source will receive.
    pub fn vacant_id(&self) -> (id: usize)
        ensures
            id == first_free(self@),
    {
        proof {
            lemma_first_free(self@);
        }
        let n = self.sources.len();
        let mut i: usize = 0;
        while i < n
            invariant
                n == self@.len(),
                i <= n,
                forall|j: int| 0 <= j < i ==> #[trigger] self@[j] is Some,
                0 <= first_free(self@) <= n,
                first_free(self@) < n ==> self@[first_free(self@)] is None,
                forall|j: int| 0 <= j < first_free(self@) ==> #[trigger] self@[j] is Some,
            decreases n - i,
        {
            match &self.sources[i] {
                None => {
                    return i;
                },
                Some(_) => {},
            }
            i = i + 1;
        }
        n
    }

    /// Insert a source in the first free slot, or at the end; returns its id
    /// (the slot's index, cut to 32 bits).
    pub fn add_source(&mut self, dispatcher: D) -> (id: u32)
        ensures
            id == first_free(old(self)@) as u32,
            first_free(old(self)@) < old(self)@.len() ==> final(self)@ == old(self)@.update(
                first_free(old(self)@),
                Some(dispatcher),
            ),
            first_free(old(self)@) == old(self)@.len() ==> final(self)@ == old(self)@.push(
                Some(dispatcher),
            ),
    {
        proof {
            lemma_first_free(self@);
        }
        let free_id = self.vacant_id();
        if free_id < self.sources.len() {
            self.sources.set(free_id, Some(dispatcher));
            free_id as u32
        } else {
            self.sources.push(Some(dispatcher));
            (self.sources.len() - 1) as u32
        }
    }

    /// Remove the source registered under `id`, handing it back.
    pub fn del_source(&mut self, id: u32) -> (r: Option<D>)
        requires
            id < old(self)@.len(),
        ensures
            r == old(self)@[id as int],
            final(self)@ == old(self)@.update(id as int, None),
    {
        let ghost before = self.sources@;
        self.sources.push(None);
        let slot = self.sources.swap_remove(id as usize);
        assert(self.sources@ =~= before.update(id as int, None));
        slot
    }
}

} // verus!
