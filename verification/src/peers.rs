//! The set of peers that a broadcast goes to.

use vstd::prelude::*;

verus! {

/// The identifiers in `ids` with every repetition left out: each one stands
/// where it first occurs.
pub open spec fn distinct_of(ids: Seq<Seq<char>>) -> Seq<Seq<char>>
    decreases ids.len(),
{
    if ids.len() == 0 {
        Seq::empty()
    } else {
        let front = distinct_of(ids.drop_last());
        if front.contains(ids.last()) {
            front
        } else {
            front.push(ids.last())
        }
    }
}

/// What each of the given strings holds.
pub open spec fn texts(items: Seq<String>) -> Seq<Seq<char>> {
    items.map_values(|item: String| item@)
}

/// `distinct_of` repeats nothing and keeps exactly the identifiers it was
/// given.
pub proof fn lemma_distinct_of(ids: Seq<Seq<char>>)
    ensures
        distinct_of(ids).no_duplicates(),
        forall|id: Seq<char>| distinct_of(ids).contains(id) <==> ids.contains(id),
    decreases ids.len(),
{
    if ids.len() > 0 {
        let front_ids = ids.drop_last();
        let front = distinct_of(front_ids);
        lemma_distinct_of(front_ids);
        assert forall|id: Seq<char>| distinct_of(ids).contains(id) <==> ids.contains(id) by {
            if ids.contains(id) {
                let i = choose|i: int| 0 <= i < ids.len() && ids[i] == id;
                if i < ids.len() - 1 {
                    assert(front_ids[i] == id);
                    assert(front_ids.contains(id));
                    assert(front.contains(id));
                    let j = choose|j: int| 0 <= j < front.len() && front[j] == id;
                    assert(distinct_of(ids)[j] == id);
                } else if !front.contains(id) {
                    assert(distinct_of(ids)[front.len() as int] == id);
                }
            }
            if distinct_of(ids).contains(id) {
                let j = choose|j: int| 0 <= j < distinct_of(ids).len() && distinct_of(ids)[j] == id;
                if j < front.len() {
                    assert(front[j] == id);
                    assert(front.contains(id));
                    assert(front_ids.contains(id));
                    let i = choose|i: int| 0 <= i < front_ids.len() && front_ids[i] == id;
                    assert(ids[i] == id);
                } else {
                    assert(ids[ids.len() - 1] == id);
                }
            }
        }
    }
}

/// A set of peer identifiers. It holds each identifier once, in the order
/// in which they were put in, and hands them out in that order.
pub struct PeerSet {
    ids: Vec<String>,
}

impl PeerSet {
    /// The identifiers of the set, in the order in which they are visited.
    pub closed spec fn ids(&self) -> Seq<Seq<char>> {
        texts(self.ids@)
    }

    #[verifier::type_invariant]
    spec fn holds_each_once(&self) -> bool {
        self.ids().no_duplicates()
    }

    /// The identifiers of the set.
    pub open spec fn view(&self) -> Set<Seq<char>> {
        self.ids().to_set()
    }

    /// The empty set.
    pub fn new() -> (set: Self)
        ensures
            set.ids() == Seq::<Seq<char>>::empty(),
    {
        let ids: Vec<String> = Vec::new();
        assert(texts(ids@) =~= Seq::<Seq<char>>::empty());
        PeerSet { ids }
    }

    /// The number of peers. No identifier is counted twice, since none is
    /// held twice.
    pub fn len(&self) -> (n: usize)
        ensures
            n == self.ids().len(),
            self.ids().no_duplicates(),
    {
        proof {
            use_type_invariant(self);
        }
        self.ids.len()
    }

    /// The identifier that is visited at position `i`.
    pub fn get(&self, i: usize) -> (id: &String)
        requires
            i < self.ids().len(),
        ensures
            id@ == self.ids()[i as int],
    {
        &self.ids[i]
    }

    /// Whether `id` is in the set.
    pub fn contains(&self, id: &String) -> (found: bool)
        ensures
            found == self.ids().contains(id@),
    {
        let mut i: usize = 0;
        while i < self.ids.len()
            invariant
                i <= self.ids@.len(),
                forall|j: int| 0 <= j < i ==> self.ids()[j] != id@,
            decreases self.ids@.len() - i,
        {
            if self.ids[i] == *id {
                assert(self.ids()[i as int] == id@);
                return true;
            }
            i += 1;
        }
        false
    }

    /// Puts `id` into the set and tells whether it was new. An identifier
    /// that the set holds already stays where it is.
    pub fn insert(&mut self, id: String) -> (fresh: bool)
        ensures
            fresh == !old(self).ids().contains(id@),
            fresh ==> final(self).ids() == old(self).ids().push(id@),
            !fresh ==> final(self).ids() == old(self).ids(),
    {
        proof {
            use_type_invariant(&*self);
        }
        if self.contains(&id) {
            false
        } else {
            let mut taken = PeerSet::new();
            core::mem::swap(self, &mut taken);
            let mut ids = taken.ids;
            let ghost before = ids@;
            ids.push(id);
            assert(texts(ids@) =~= texts(before).push(id@));
            *self = PeerSet { ids };
            true
        }
    }

    /// The set of the given identifiers. One that is given more than once
    /// counts where it comes first.
    pub fn from_ids(ids: Vec<String>) -> (set: Self)
        ensures
            set.ids() == distinct_of(texts(ids@)),
            forall|id: Seq<char>| set@.contains(id) <==> texts(ids@).contains(id),
    {
        proof {
            lemma_distinct_of(texts(ids@));
        }
        let mut set = PeerSet::new();
        let mut i: usize = 0;
        while i < ids.len()
            invariant
                i <= ids@.len(),
                set.ids() == distinct_of(texts(ids@).subrange(0, i as int)),
            decreases ids@.len() - i,
        {
            let id = ids[i].clone();
            let ghost seen = texts(ids@).subrange(0, i as int);
            assert(texts(ids@).subrange(0, i + 1).drop_last() =~= seen);
            set.insert(id);
            i += 1;
        }
        assert(texts(ids@).subrange(0, ids@.len() as int) =~= texts(ids@));
        set
    }
}

} // verus!
