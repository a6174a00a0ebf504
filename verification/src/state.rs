//! Shared application state: the single-flight registry of keys whose
//! generation is currently in flight.

use vstd::prelude::*;

use crate::config::WebSimConfig;
use crate::db::Database;
use crate::utils::str_eq;

verus! {

/// Shared application state: the artifact store, the loaded configuration
/// and the in-flight registry.  The composition root owns one value of this
/// and injects it into the handler.
pub struct AppState {
    pub db: Database,
    pub config: WebSimConfig,
    pub in_flight: InFlightSet,
}

/// Process-wide set of path+query strings currently being generated.  A key
/// is inserted when a read-style request begins generation after a cache miss
/// and removed unconditionally when that request's handling completes, so at
/// most one generation is in flight per key.
pub struct InFlightSet {
    keys: Vec<String>,
}

impl View for InFlightSet {
    type V = Set<Seq<char>>;

    closed spec fn view(&self) -> Set<Seq<char>> {
        Set::new(|s: Seq<char>| exists|i: int| 0 <= i < self.keys@.len() && self.keys@[i]@ == s)
    }
}

impl InFlightSet {
    pub fn new() -> (r: InFlightSet)
        ensures
            r@ == Set::<Seq<char>>::empty(),
    {
        let r = InFlightSet { keys: Vec::new() };
        proof {
            assert(r@ =~= Set::<Seq<char>>::empty());
        }
        r
    }

    /// Whether `key` is currently in flight.
    pub fn contains(&self, key: &str) -> (r: bool)
        ensures
            r == self@.contains(key@),
    {
        let n = self.keys.len();
        let mut i: usize = 0;
        while i < n
            invariant
                i <= n,
                n == self.keys@.len(),
                forall|j: int| 0 <= j < i ==> self.keys@[j]@ != key@,
            decreases n - i,
        {
            if str_eq(self.keys[i].as_str(), key) {
                return true;
            }
            i = i + 1;
        }
        proof {
            assert(!self@.contains(key@));
        }
        false
    }

    /// Marks `key` as in flight.
    pub fn insert(&mut self, key: &str)
        ensures
            final(self)@ == old(self)@.insert(key@),
    {
        let owned: String = key.to_owned();
        self.keys.push(owned);
        proof {
            assert forall|s: Seq<char>| self@.contains(s) implies old(self)@.insert(
                key@,
            ).contains(s) by {
                let i = choose|i: int| 0 <= i < self.keys@.len() && self.keys@[i]@ == s;
                if i < self.keys@.len() - 1 {
                    assert(old(self).keys@[i]@ == s);
                }
            }
            assert forall|s: Seq<char>| old(self)@.insert(key@).contains(s) implies self@.contains(
                s,
            ) by {
                if s == key@ {
                    assert(self.keys@[self.keys@.len() - 1]@ == s);
                } else {
                    let i = choose|i: int| 0 <= i < old(self).keys@.len() && old(
                        self,
                    ).keys@[i]@ == s;
                    assert(self.keys@[i]@ == s);
                }
            }
            assert(self@ =~= old(self)@.insert(key@));
        }
    }

    /// Releases `key`, whatever the outcome of its generation was.
    pub fn remove(&mut self, key: &str)
        ensures
            final(self)@ == old(self)@.remove(key@),
    {
        let n = self.keys.len();
        let mut kept: Vec<String> = Vec::new();
        let mut i: usize = 0;
        while i < n
            invariant
                i <= n,
                n == self.keys@.len(),
                self.keys == old(self).keys,
                forall|j: int| 0 <= j < kept@.len() ==> (#[trigger] kept@[j])@ != key@,
                forall|j: int|
                    0 <= j < kept@.len() ==> exists|l: int|
                        0 <= l < i && (#[trigger] kept@[j])@ == self.keys@[l]@,
                forall|l: int|
                    0 <= l < i && (#[trigger] self.keys@[l])@ != key@ ==> exists|j: int|
                        0 <= j < kept@.len() && kept@[j]@ == self.keys@[l]@,
            decreases n - i,
        {
            if !str_eq(self.keys[i].as_str(), key) {
                let item = self.keys[i].clone();
                let ghost kept0: Seq<String> = kept@;
                kept.push(item);
                proof {
                    assert forall|l: int|
                        0 <= l < i + 1 && (#[trigger] self.keys@[l])@ != key@ implies exists|j: int|
                        0 <= j < kept@.len() && kept@[j]@ == self.keys@[l]@ by {
                        if l == i {
                            assert(kept@[kept@.len() - 1]@ == self.keys@[l]@);
                        } else {
                            let j = choose|j: int|
                                0 <= j < kept0.len() && kept0[j]@ == self.keys@[l]@;
                            assert(kept@[j]@ == self.keys@[l]@);
                        }
                    }
                }
            }
            i = i + 1;
        }
        let ghost keptv: Seq<String> = kept@;
        self.keys = kept;
        proof {
            assert forall|s: Seq<char>| old(self)@.remove(key@).contains(s) implies self@.contains(
                s,
            ) by {
                let l = choose|l: int|
                    0 <= l < old(self).keys@.len() && old(self).keys@[l]@ == s;
                assert((old(self).keys@[l])@ != key@);
                let j = choose|j: int| 0 <= j < keptv.len() && keptv[j]@ == old(self).keys@[l]@;
                assert(self.keys@[j]@ == s);
            }
            assert forall|s: Seq<char>| self@.contains(s) implies old(self)@.remove(key@).contains(
                s,
            ) by {
                let j = choose|j: int| 0 <= j < self.keys@.len() && self.keys@[j]@ == s;
                assert((keptv[j])@ == s);
                let l = choose|l: int| 0 <= l < old(self).keys@.len() && keptv[j]@ == old(
                    self,
                ).keys@[l]@;
                assert(old(self).keys@[l]@ == s);
            }
            assert(self@ =~= old(self)@.remove(key@));
        }
    }
}

} // verus!
