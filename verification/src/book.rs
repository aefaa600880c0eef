//! The depth book of one symbol: the entries that the venue has announced and not
//! taken back, each under its entry id.

use vstd::prelude::*;
use crate::text::{bytes_eq, copy_bytes};
use crate::types::{DepthPrice, PriceType};

verus! {

/// What an entry holds, as the contracts speak of it: the side, the price and the size.
pub open spec fn price_view(p: DepthPrice) -> (PriceType, Seq<u8>, Seq<u8>) {
    (p.price_type, p.price@, p.size@)
}

/// A copy of an entry.
pub fn copy_price(p: &DepthPrice) -> (r: DepthPrice)
    ensures
        price_view(r) == price_view(*p),
{
    DepthPrice { price_type: p.price_type, price: p.price.duplicate(), size: p.size.duplicate() }
}

/// A depth book. Its view is the map from entry ids to entries.
#[derive(Debug)]
pub struct DepthBook {
    ids: Vec<Vec<u8>>,
    prices: Vec<DepthPrice>,
}

impl View for DepthBook {
    type V = Map<Seq<u8>, (PriceType, Seq<u8>, Seq<u8>)>;

    closed spec fn view(&self) -> Map<Seq<u8>, (PriceType, Seq<u8>, Seq<u8>)> {
        Map::new(
            |id: Seq<u8>| self.holds(id),
            |id: Seq<u8>| price_view(self.prices@[self.position(id)]),
        )
    }
}

impl DepthBook {
    /// No entry id stands twice in the book.
    pub closed spec fn wf(&self) -> bool {
        &&& self.ids@.len() == self.prices@.len()
        &&& forall|i: int, j: int|
            0 <= i < j < self.ids@.len() ==> (#[trigger] self.ids@[i])@ != (#[trigger] self.ids@[j])@
    }

    closed spec fn holds(&self, id: Seq<u8>) -> bool {
        exists|i: int| 0 <= i < self.ids@.len() && (#[trigger] self.ids@[i])@ == id
    }

    closed spec fn position(&self, id: Seq<u8>) -> int {
        choose|i: int| 0 <= i < self.ids@.len() && (#[trigger] self.ids@[i])@ == id
    }

    /// An empty book.
    pub fn new() -> (r: DepthBook)
        ensures
            r.wf(),
            r@ == Map::<Seq<u8>, (PriceType, Seq<u8>, Seq<u8>)>::empty(),
    {
        let r = DepthBook { ids: Vec::new(), prices: Vec::new() };
        assert(r@ =~= Map::empty());
        r
    }

    fn find(&self, id: &[u8]) -> (r: Option<usize>)
        requires
            self.wf(),
        ensures
            match r {
                Some(i) => i < self.ids@.len() && self.ids@[i as int]@ == id@ && self.holds(id@)
                    && self.position(id@) == i,
                None => !self.holds(id@),
            },
    {
        let mut i: usize = 0;
        while i < self.ids.len()
            invariant
                self.wf(),
                i <= self.ids@.len(),
                forall|j: int| 0 <= j < i ==> (#[trigger] self.ids@[j])@ != id@,
            decreases self.ids@.len() - i,
        {
            if bytes_eq(self.ids[i].as_slice(), id) {
                assert(self.ids@[i as int]@ == id@);
                return Some(i);
            }
            i = i + 1;
        }
        None
    }

    /// The size of the view is the number of ids.
    proof fn lemma_size(&self)
        requires
            self.wf(),
        ensures
            self@.dom().finite(),
            self@.len() == self.ids@.len(),
    {
        let keys = Seq::new(self.ids@.len(), |i: int| self.ids@[i]@);
        assert(keys.no_duplicates());
        keys.unique_seq_to_set();
        assert forall|id: Seq<u8>| keys.to_set().contains(id) == self@.dom().contains(id) by {
            if keys.to_set().contains(id) {
                let i = choose|i: int| 0 <= i < keys.len() && keys[i] == id;
                assert(self.ids@[i]@ == id);
            }
            if self.holds(id) {
                let i = self.position(id);
                assert(keys[i] == id);
            }
        }
        assert(keys.to_set() =~= self@.dom());
    }

    /// The number of entries.
    pub fn len(&self) -> (r: usize)
        requires
            self.wf(),
        ensures
            r == self@.len(),
            self@.dom().finite(),
    {
        proof {
            self.lemma_size();
        }
        self.ids.len()
    }

    /// The entry under `id`.
    pub fn get(&self, id: &[u8]) -> (r: Option<DepthPrice>)
        requires
            self.wf(),
        ensures
            match r {
                Some(p) => self@.contains_key(id@) && self@[id@] == price_view(p),
                None => !self@.contains_key(id@),
            },
    {
        match self.find(id) {
            Some(i) => Some(copy_price(&self.prices[i])),
            None => None,
        }
    }

    /// Puts `price` under `id`, in place of what stood there.
    pub fn insert(&mut self, id: Vec<u8>, price: DepthPrice)
        requires
            old(self).wf(),
        ensures
            final(self).wf(),
            final(self)@ == old(self)@.insert(id@, price_view(price)),
    {
        let ghost pv = price_view(price);
        match self.find(id.as_slice()) {
            Some(i) => {
                self.prices[i] = price;
                assert forall|k: Seq<u8>| self.holds(k) == old(self).holds(k) by {}
                assert forall|k: Seq<u8>| self.holds(k) implies self.position(k) == old(
                    self,
                ).position(k) by {}
                assert(self@ =~= old(self)@.insert(id@, pv));
            },
            None => {
                self.ids.push(id);
                self.prices.push(price);
                let ghost n = old(self).ids@.len() as int;
                assert(self.ids@[n]@ == id@);
                assert forall|k: Seq<u8>| self.holds(k) == (old(self).holds(k) || k == id@) by {
                    if old(self).holds(k) {
                        let j = old(self).position(k);
                        assert(self.ids@[j]@ == k);
                    }
                }
                assert forall|k: Seq<u8>| old(self).holds(k) implies self.position(k) == old(
                    self,
                ).position(k) by {
                    let j = old(self).position(k);
                    assert(self.ids@[j]@ == k);
                }
                assert(self.holds(id@));
                assert(self.position(id@) == n);
                assert(self@ =~= old(self)@.insert(id@, pv));
            },
        }
    }

    /// Takes the entry under `id` out of the book.
    pub fn remove(&mut self, id: &[u8])
        requires
            old(self).wf(),
        ensures
            final(self).wf(),
            final(self)@ == old(self)@.remove(id@),
    {
        match self.find(id) {
            Some(i) => {
                self.ids.remove(i);
                self.prices.remove(i);
                assert forall|k: Seq<u8>| self.holds(k) == (old(self).holds(k) && k != id@) by {
                    if old(self).holds(k) && k != id@ {
                        let j = old(self).position(k);
                        if j < i {
                            assert(self.ids@[j]@ == k);
                        } else {
                            assert(self.ids@[j - 1]@ == k);
                        }
                    }
                    if self.holds(k) {
                        let j = self.position(k);
                        if j < i {
                            assert(old(self).ids@[j]@ == k);
                        } else {
                            assert(old(self).ids@[j + 1]@ == k);
                        }
                    }
                }
                assert forall|k: Seq<u8>| self.holds(k) implies price_view(
                    self.prices@[self.position(k)],
                ) == price_view(old(self).prices@[old(self).position(k)]) by {
                    let j = self.position(k);
                    if j < i {
                        assert(old(self).ids@[j]@ == k);
                    } else {
                        assert(old(self).ids@[j + 1]@ == k);
                    }
                }
                assert(self@ =~= old(self)@.remove(id@));
            },
            None => {
                assert(self@ =~= old(self)@.remove(id@));
            },
        }
    }

    /// A copy of the book.
    pub fn duplicate(&self) -> (r: DepthBook)
        requires
            self.wf(),
        ensures
            r.wf(),
            r@ == self@,
    {
        let mut ids: Vec<Vec<u8>> = Vec::new();
        let mut prices: Vec<DepthPrice> = Vec::new();
        let mut i: usize = 0;
        while i < self.ids.len()
            invariant
                self.wf(),
                i <= self.ids@.len(),
                ids@.len() == i,
                prices@.len() == i,
                forall|j: int| 0 <= j < i ==> (#[trigger] ids@[j])@ == self.ids@[j]@,
                forall|j: int|
                    0 <= j < i ==> price_view(#[trigger] prices@[j]) == price_view(self.prices@[j]),
            decreases self.ids@.len() - i,
        {
            ids.push(copy_bytes(self.ids[i].as_slice()));
            prices.push(copy_price(&self.prices[i]));
            i = i + 1;
        }
        let r = DepthBook { ids, prices };
        assert forall|k: Seq<u8>| r.holds(k) == self.holds(k) by {
            if self.holds(k) {
                let j = self.position(k);
                assert(r.ids@[j]@ == k);
            }
            if r.holds(k) {
                let j = r.position(k);
                assert(self.ids@[j]@ == k);
            }
        }
        assert forall|k: Seq<u8>| r.holds(k) implies r.position(k) == self.position(k) by {
            let j = r.position(k);
            assert(self.ids@[j]@ == k);
        }
        assert(r@ =~= self@);
        r
    }

    /// The entries of the book, each with its id, in the order in which their ids
    /// came into the book.
    pub fn entries(&self) -> (r: Vec<(Vec<u8>, DepthPrice)>)
        requires
            self.wf(),
        ensures
            r@.len() == self@.len(),
            forall|i: int|
                0 <= i < r@.len() ==> self@.contains_key((#[trigger] r@[i]).0@) && self@[r@[i].0@]
                    == price_view(r@[i].1),
            forall|i: int, j: int|
                0 <= i < j < r@.len() ==> (#[trigger] r@[i]).0@ != (#[trigger] r@[j]).0@,
    {
        let mut out: Vec<(Vec<u8>, DepthPrice)> = Vec::new();
        proof {
            self.lemma_size();
        }
        let mut i: usize = 0;
        while i < self.ids.len()
            invariant
                self@.len() == self.ids@.len(),
                self.wf(),
                i <= self.ids@.len(),
                out@.len() == i,
                forall|j: int| 0 <= j < i ==> (#[trigger] out@[j]).0@ == self.ids@[j]@,
                forall|j: int|
                    0 <= j < i ==> price_view((#[trigger] out@[j]).1) == price_view(
                        self.prices@[j],
                    ),
            decreases self.ids@.len() - i,
        {
            out.push((copy_bytes(self.ids[i].as_slice()), copy_price(&self.prices[i])));
            i = i + 1;
        }
        assert forall|i: int| 0 <= i < out@.len() implies self@.contains_key(
            (#[trigger] out@[i]).0@,
        ) && self@[out@[i].0@] == price_view(out@[i].1) by {
            assert(self.ids@[i]@ == out@[i].0@);
            assert(self.holds(out@[i].0@));
            assert(self.position(out@[i].0@) == i);
        }
        out
    }
}

/// Putting an entry into a book and taking it out again leaves the book as it was
/// without that entry; a book that did not hold the id is unchanged.
pub proof fn lemma_insert_then_remove(
    book: Map<Seq<u8>, (PriceType, Seq<u8>, Seq<u8>)>,
    id: Seq<u8>,
    price: (PriceType, Seq<u8>, Seq<u8>),
)
    ensures
        book.insert(id, price).remove(id) == book.remove(id),
        !book.contains_key(id) ==> book.insert(id, price).remove(id) == book,
{
    assert(book.insert(id, price).remove(id) =~= book.remove(id));
    if !book.contains_key(id) {
        assert(book.remove(id) =~= book);
    }
}

} // verus!
