//! The subscriptions of a quote client for one kind of market data: where each symbol
//! stands between the request and the venue's answer.

use vstd::prelude::*;
use vstd::std_specs::hash::spec_keys_iter;
use vstd::std_specs::iter::IteratorSpec;
use std::collections::HashMap;
use crate::text::{bytes_eq, copy_bytes};

verus! {

/// Where the subscription of a symbol stands. A symbol without state is not subscribed.
#[derive(Debug)]
pub enum RequestState {
    /// Requested with this `MDReqID`; the venue has not answered yet.
    Requested(Vec<u8>),
    Accepted,
    Rejected,
}

/// A subscription state as the contracts speak of it.
pub enum StateView {
    Requested(Seq<u8>),
    Accepted,
    Rejected,
}

impl View for RequestState {
    type V = StateView;

    open spec fn view(&self) -> StateView {
        match *self {
            RequestState::Requested(id) => StateView::Requested(id@),
            RequestState::Accepted => StateView::Accepted,
            RequestState::Rejected => StateView::Rejected,
        }
    }
}

impl RequestState {
    /// A copy of the state.
    pub fn duplicate(&self) -> (r: RequestState)
        ensures
            r@ == self@,
    {
        match self {
            RequestState::Requested(id) => RequestState::Requested(copy_bytes(id.as_slice())),
            RequestState::Accepted => RequestState::Accepted,
            RequestState::Rejected => RequestState::Rejected,
        }
    }
}

/// True when symbol `s` was requested with the identifier `id` and waits for an answer.
pub open spec fn asked_with(m: Map<u32, StateView>, s: u32, id: Seq<u8>) -> bool {
    m.contains_key(s) && m[s] == StateView::Requested(id)
}

/// True when `s` is the one symbol that was requested with `id`.
pub open spec fn only_asked_with(m: Map<u32, StateView>, s: u32, id: Seq<u8>) -> bool {
    asked_with(m, s, id) && forall|t: u32| asked_with(m, t, id) ==> t == s
}

/// True when the subscription of `symbol` is accepted.
pub open spec fn is_accepted(states: Map<u32, StateView>, symbol: u32) -> bool {
    states.contains_key(symbol) && states[symbol] == StateView::Accepted
}

/// True when the subscription of `symbol` waits for the venue's answer.
pub open spec fn is_requested(states: Map<u32, StateView>, symbol: u32) -> bool {
    states.contains_key(symbol) && states[symbol] is Requested
}

/// The symbol that was requested with `id`, if exactly one was.
pub open spec fn pending_symbol(states: Map<u32, StateView>, id: Seq<u8>) -> Option<u32> {
    if exists|s: u32| only_asked_with(states, s, id) {
        Some(choose|s: u32| only_asked_with(states, s, id))
    } else {
        None
    }
}

/// The states after the venue's first snapshot for `symbol`: a requested subscription
/// is accepted.
pub open spec fn promoted(states: Map<u32, StateView>, symbol: u32) -> Map<u32, StateView> {
    if is_requested(states, symbol) {
        states.insert(symbol, StateView::Accepted)
    } else {
        states
    }
}

/// The states after the venue rejected the request `id`: the subscription that was
/// requested with it is rejected.
pub open spec fn rejected(states: Map<u32, StateView>, id: Seq<u8>) -> Map<u32, StateView> {
    match pending_symbol(states, id) {
        Some(s) => states.insert(s, StateView::Rejected),
        None => states,
    }
}

/// The states of a map from symbols to subscription states, as the contracts speak of
/// them.
pub open spec fn states_view(m: Map<u32, RequestState>) -> Map<u32, StateView> {
    m.map_values(|s: RequestState| s@)
}

/// The subscription states of the symbols. The view is the map from symbol to state.
#[derive(Debug)]
pub struct Subscriptions {
    states: HashMap<u32, RequestState>,
}

impl View for Subscriptions {
    type V = Map<u32, StateView>;

    closed spec fn view(&self) -> Map<u32, StateView> {
        states_view(self.states@)
    }
}

impl Subscriptions {
    /// No subscriptions.
    pub fn new() -> (r: Subscriptions)
        ensures
            r@ == Map::<u32, StateView>::empty(),
    {
        let r = Subscriptions { states: HashMap::new() };
        assert(r@ =~= Map::empty());
        r
    }

    /// The state of `symbol`.
    pub fn get(&self, symbol: u32) -> (r: Option<RequestState>)
        ensures
            match r {
                Some(state) => self@.contains_key(symbol) && self@[symbol] == state@,
                None => !self@.contains_key(symbol),
            },
    {
        broadcast use vstd::std_specs::hash::group_hash_axioms;

        match self.states.get(&symbol) {
            Some(state) => Some(state.duplicate()),
            None => None,
        }
    }

    /// Gives `symbol` the state `state`.
    pub fn set(&mut self, symbol: u32, state: RequestState)
        ensures
            final(self)@ == old(self)@.insert(symbol, state@),
    {
        broadcast use vstd::std_specs::hash::group_hash_axioms;

        let ghost sv = state@;
        self.states.insert(symbol, state);
        assert(self@ =~= old(self)@.insert(symbol, sv));
    }

    /// Forgets `symbol`.
    pub fn remove(&mut self, symbol: u32)
        ensures
            final(self)@ == old(self)@.remove(symbol),
    {
        broadcast use vstd::std_specs::hash::group_hash_axioms;

        self.states.remove(&symbol);
        assert(self@ =~= old(self)@.remove(symbol));
    }

    /// The venue sent its first snapshot for `symbol`: a subscription that waited for
    /// its answer is accepted, and the result says whether one did.
    pub fn accept(&mut self, symbol: u32) -> (r: bool)
        ensures
            r == is_requested(old(self)@, symbol),
            final(self)@ == promoted(old(self)@, symbol),
    {
        broadcast use vstd::std_specs::hash::group_hash_axioms;

        let requested = match self.states.get(&symbol) {
            Some(RequestState::Requested(_)) => true,
            _ => false,
        };
        if requested {
            self.set(symbol, RequestState::Accepted);
        }
        requested
    }

    /// The venue rejected the request `id`: the subscription of the one symbol that
    /// was requested with it is rejected, and the result names the symbol.
    pub fn reject(&mut self, id: &[u8]) -> (r: Option<u32>)
        ensures
            r == pending_symbol(old(self)@, id@),
            final(self)@ == rejected(old(self)@, id@),
    {
        match self.requested_by(id) {
            Some(s) => {
                self.set(s, RequestState::Rejected);
                Some(s)
            },
            None => None,
        }
    }

    /// The symbols whose subscription the venue accepted, each once, in no particular
    /// order.
    pub fn accepted(&self) -> (r: Vec<u32>)
        ensures
            forall|s: u32|
                r@.contains(s) <==> (self@.contains_key(s) && self@[s] == StateView::Accepted),
            r@.no_duplicates(),
    {
        broadcast use vstd::std_specs::hash::group_hash_axioms;
        broadcast use vstd::std_specs::hash::axiom_spec_keys_iter;

        let mut out: Vec<u32> = Vec::new();
        let ghost keys: Seq<u32> = spec_keys_iter(&self.states).remaining().unref();
        let ghost mut from: Seq<int> = Seq::empty();
        let ghost mut done: int = 0;
        for k in it: self.states.keys()
            invariant
                it.seq().unref() == keys,
                keys.to_set() == self.states@.dom(),
                keys.no_duplicates(),
                done == it.index(),
                from.len() == out@.len(),
                forall|a: int|
                    0 <= a < out@.len() ==> 0 <= #[trigger] from[a] < done && keys[from[a]]
                        == out@[a] && is_accepted(self@, out@[a]),
                forall|a: int, b: int|
                    0 <= a < b < out@.len() ==> #[trigger] from[a] < #[trigger] from[b],
                forall|j: int|
                    0 <= j < done && is_accepted(self@, #[trigger] keys[j]) ==> out@.contains(
                        keys[j],
                    ),
        {
            assert(keys[done] == *k);
            assert(keys.to_set().contains(*k));
            let accepted = match self.states.get(k) {
                Some(RequestState::Accepted) => true,
                _ => false,
            };
            assert(accepted == is_accepted(self@, *k));
            if accepted {
                let ghost before = out@;
                out.push(*k);
                proof {
                    from = from.push(done);
                    assert(out@[before.len() as int] == *k);
                    assert forall|j: int|
                        0 <= j < done + 1 && is_accepted(
                            self@,
                            #[trigger] keys[j],
                        ) implies out@.contains(keys[j]) by {
                        if j < done {
                            let a = choose|a: int| 0 <= a < before.len() && before[a] == keys[j];
                            assert(out@[a] == keys[j]);
                        }
                    }
                }
            }
            proof {
                done = done + 1;
            }
        }
        assert(done == keys.len());
        assert forall|s: u32| out@.contains(s) <==> is_accepted(self@, s) by {
            if out@.contains(s) {
                let a = choose|a: int| 0 <= a < out@.len() && out@[a] == s;
                assert(0 <= from[a] < done);
            }
            if is_accepted(self@, s) {
                assert(keys.to_set().contains(s));
                let j = choose|j: int| 0 <= j < keys.len() && keys[j] == s;
                assert(out@.contains(keys[j]));
            }
        }
        assert forall|a: int, b: int|
            0 <= a < out@.len() && 0 <= b < out@.len() && a != b implies out@[a] != out@[b] by {
            if a < b {
                assert(from[a] < from[b]);
            } else {
                assert(from[b] < from[a]);
            }
        }
        out
    }

    /// The one symbol that was requested with `id` and still waits for its answer;
    /// nothing where no symbol or more than one was requested with it.
    pub fn requested_by(&self, id: &[u8]) -> (r: Option<u32>)
        ensures
            match r {
                Some(s) => only_asked_with(self@, s, id@),
                None => forall|s: u32| !only_asked_with(self@, s, id@),
            },
    {
        broadcast use vstd::std_specs::hash::group_hash_axioms;
        broadcast use vstd::std_specs::hash::axiom_spec_keys_iter;

        let ghost keys: Seq<u32> = spec_keys_iter(&self.states).remaining().unref();
        let mut found: Option<u32> = None;
        let mut several = false;
        let ghost mut done: int = 0;
        let ghost mut first: int = 0;
        let ghost mut second: int = 0;
        for k in it: self.states.keys()
            invariant
                it.seq().unref() == keys,
                keys.to_set() == self.states@.dom(),
                keys.no_duplicates(),
                done == it.index(),
                match found {
                    Some(s) => 0 <= first < done && keys[first] == s && asked_with(self@, s, id@),
                    None => !several && forall|j: int|
                        0 <= j < done ==> !asked_with(self@, #[trigger] keys[j], id@),
                },
                several ==> 0 <= second < done && second != first && asked_with(
                    self@,
                    keys[second],
                    id@,
                ),
                !several && found is Some ==> forall|j: int|
                    0 <= j < done && j != first ==> !asked_with(self@, #[trigger] keys[j], id@),
        {
            assert(keys[done] == *k);
            assert(keys.to_set().contains(*k));
            let asked = match self.states.get(k) {
                Some(RequestState::Requested(v)) => bytes_eq(v.as_slice(), id),
                _ => false,
            };
            assert(asked == asked_with(self@, *k, id@));
            if asked {
                match found {
                    Some(_) => {
                        several = true;
                        proof {
                            second = done;
                        }
                    },
                    None => {
                        found = Some(*k);
                        proof {
                            first = done;
                        }
                    },
                }
            }
            proof {
                done = done + 1;
            }
        }
        assert(done == keys.len());
        match found {
            Some(s) => {
                if several {
                    proof {
                        let t = keys[second];
                        assert(t != s);
                        assert forall|x: u32| !only_asked_with(self@, x, id@) by {
                            if only_asked_with(self@, x, id@) {
                                assert(t == x);
                                assert(s == x);
                            }
                        }
                    }
                    None
                } else {
                    proof {
                        assert forall|t: u32| asked_with(self@, t, id@) implies t == s by {
                            assert(keys.to_set().contains(t));
                            let j = choose|j: int| 0 <= j < keys.len() && keys[j] == t;
                            assert(j == first);
                        }
                    }
                    Some(s)
                }
            },
            None => {
                proof {
                    assert forall|x: u32| !only_asked_with(self@, x, id@) by {
                        if asked_with(self@, x, id@) {
                            assert(keys.to_set().contains(x));
                            let j = choose|j: int| 0 <= j < keys.len() && keys[j] == x;
                            assert(!asked_with(self@, keys[j], id@));
                        }
                    }
                }
                None
            },
        }
    }
}

} // verus!
