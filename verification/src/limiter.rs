use vstd::prelude::*;
use vstd::multiset::Multiset;

verus! {

broadcast use vstd::seq_lib::group_to_multiset_ensures;

/// Process-wide concurrency bookkeeping of one provider: the ceiling of every
/// live runtime and the number of provider calls in flight.
#[derive(Debug)]
pub struct ProviderLimiterState {
    registrations: Vec<u16>,
    in_flight: u16,
}

/// `m` is the smallest element of `regs`.
pub open spec fn is_strictest(m: u16, regs: Multiset<u16>) -> bool {
    regs.count(m) > 0 && forall|x: u16| #[trigger] regs.count(x) > 0 ==> m <= x
}

impl ProviderLimiterState {
    #[verifier::type_invariant]
    spec fn valid(self) -> bool {
        forall|i: int| 0 <= i < self.registrations@.len() ==> #[trigger] self.registrations@[i] >= 1
    }

    /// Ceilings of the live runtimes, one per registration.
    pub closed spec fn spec_registrations(&self) -> Multiset<u16> {
        self.registrations@.to_multiset()
    }

    pub closed spec fn spec_in_flight(&self) -> u16 {
        self.in_flight
    }

    pub fn new() -> (s: Self)
        ensures
            s.spec_registrations() =~= Multiset::empty(),
            s.spec_in_flight() == 0,
    {
        let s = ProviderLimiterState { registrations: Vec::new(), in_flight: 0 };
        assert(s.registrations@ =~= Seq::<u16>::empty());
        s
    }

    /// A runtime with ceiling `max` comes alive.
    pub fn register(&mut self, max: u16)
        requires
            max >= 1,
        ensures
            final(self).spec_registrations() =~= old(self).spec_registrations().insert(max),
            final(self).spec_in_flight() == old(self).spec_in_flight(),
    {
        proof {
            use_type_invariant(&*self);
        }
        let mut registrations = Vec::new();
        std::mem::swap(&mut registrations, &mut self.registrations);
        registrations.push(max);
        self.registrations = registrations;
    }

    /// A runtime with ceiling `max` goes away.
    pub fn unregister(&mut self, max: u16)
        ensures
            old(self).spec_registrations().count(max) > 0 ==> final(self).spec_registrations()
                =~= old(self).spec_registrations().remove(max),
            old(self).spec_registrations().count(max) == 0 ==> final(self).spec_registrations()
                =~= old(self).spec_registrations(),
            final(self).spec_in_flight() == old(self).spec_in_flight(),
    {
        proof {
            use_type_invariant(&*self);
        }
        let mut i: usize = 0;
        while i < self.registrations.len()
            invariant
                0 <= i <= self.registrations@.len(),
                self.registrations@ == old(self).registrations@,
                self.in_flight == old(self).in_flight,
                forall|k: int| 0 <= k < self.registrations@.len() ==> #[trigger] self.registrations@[k] >= 1,
                forall|j: int| 0 <= j < i ==> self.registrations@[j] != max,
            decreases self.registrations.len() - i,
        {
            if self.registrations[i] == max {
                let mut registrations = Vec::new();
                std::mem::swap(&mut registrations, &mut self.registrations);
                let ghost before = registrations@;
                registrations.remove(i);
                assert(registrations@ == before.remove(i as int));
                assert(before[i as int] == max);
                assert forall|k: int| 0 <= k < registrations@.len() implies #[trigger] registrations@[k] >= 1 by {
                    if k < i {
                        assert(registrations@[k] == before[k]);
                    } else {
                        assert(registrations@[k] == before[k + 1]);
                    }
                }
                self.registrations = registrations;
                return;
            }
            i = i + 1;
        }
        assert(!self.registrations@.contains(max));
    }

    /// The strictest ceiling among live runtimes, if any runtime is alive.
    pub fn effective_max(&self) -> (r: Option<u16>)
        ensures
            r is None <==> self.spec_registrations().len() == 0,
            r matches Some(m) ==> is_strictest(m, self.spec_registrations()) && m >= 1,
    {
        proof {
            use_type_invariant(self);
        }
        if self.registrations.len() == 0 {
            return None;
        }
        let mut best = self.registrations[0];
        let mut at: usize = 0;
        let mut i: usize = 1;
        while i < self.registrations.len()
            invariant
                1 <= i <= self.registrations@.len(),
                at < self.registrations@.len(),
                best == self.registrations@[at as int],
                forall|j: int| 0 <= j < i ==> best <= #[trigger] self.registrations@[j],
            decreases self.registrations.len() - i,
        {
            if self.registrations[i] < best {
                best = self.registrations[i];
                at = i;
            }
            i = i + 1;
        }
        proof {
            let s = self.registrations@;
            assert(s.contains(s[at as int]));
            assert forall|x: u16| #[trigger] s.to_multiset().count(x) > 0 implies best <= x by {
                assert(s.contains(x));
            }
        }
        Some(best)
    }

    /// Takes one permit when fewer calls than the strictest ceiling are in flight.
    pub fn try_acquire(&mut self) -> (r: bool)
        requires
            old(self).spec_registrations().len() > 0,
        ensures
            final(self).spec_registrations() == old(self).spec_registrations(),
            r <==> exists|m: u16| is_strictest(m, old(self).spec_registrations())
                && old(self).spec_in_flight() < m,
            r ==> final(self).spec_in_flight() == old(self).spec_in_flight() + 1,
            !r ==> final(self).spec_in_flight() == old(self).spec_in_flight(),
    {
        proof {
            use_type_invariant(&*self);
        }
        let max = match self.effective_max() {
            Some(m) => m,
            None => return false,
        };
        if self.in_flight >= max {
            proof {
                assert forall|m: u16| is_strictest(m, old(self).spec_registrations()) implies !(
                old(self).spec_in_flight() < m) by {
                    assert(m <= max && max <= m);
                }
            }
            return false;
        }
        self.in_flight = self.in_flight + 1;
        true
    }

    /// Returns one permit.
    pub fn release(&mut self)
        ensures
            final(self).spec_registrations() == old(self).spec_registrations(),
            final(self).spec_in_flight() == if old(self).spec_in_flight() == 0 {
                0
            } else {
                old(self).spec_in_flight() - 1
            },
    {
        proof {
            use_type_invariant(&*self);
        }
        self.in_flight = self.in_flight.saturating_sub(1);
    }
}

/// The strictest live ceiling is unique, and a wider runtime never lifts a
/// stricter one: registering a ceiling keeps the effective ceiling at most
/// that value.
pub proof fn lemma_strictest_ceiling(regs: Multiset<u16>, a: u16, b: u16, max: u16)
    ensures
        is_strictest(a, regs) && is_strictest(b, regs) ==> a == b,
        is_strictest(a, regs.insert(max)) ==> a <= max,
        is_strictest(a, regs) && max >= a ==> is_strictest(a, regs.insert(max)),
{
    if is_strictest(a, regs.insert(max)) {
        assert(regs.insert(max).count(max) > 0);
    }
    if is_strictest(a, regs) && max >= a {
        assert forall|x: u16| #[trigger] regs.insert(max).count(x) > 0 implies a <= x by {
            if x != max {
                assert(regs.count(x) > 0);
            }
        }
    }
}

/// A runtime that registers and later unregisters leaves the other
/// registrations exactly as they were.
pub proof fn lemma_register_unregister_restores(regs: Multiset<u16>, max: u16)
    ensures
        regs.insert(max).count(max) > 0,
        regs.insert(max).remove(max) =~= regs,
{
}

} // verus!
