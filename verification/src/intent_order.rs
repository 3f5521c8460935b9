use vstd::prelude::*;
use vstd::multiset::Multiset;
use vstd::string::*;

use crate::job_runtime::{JobRuntime, RuntimeIntent};
use crate::jobs::IntentState;

verus! {

broadcast use vstd::seq_lib::group_to_multiset_ensures;

/// `a` comes before `b` from position `i` on, comparing characters by code
/// point, which is the byte order of their UTF-8 text; a proper prefix comes
/// first.
pub open spec fn text_less_from(a: Seq<char>, b: Seq<char>, i: int) -> bool
    decreases b.len() - i,
{
    if i < 0 || i >= b.len() {
        false
    } else if i >= a.len() {
        true
    } else if (a[i] as u32) < (b[i] as u32) {
        true
    } else if a[i] == b[i] {
        text_less_from(a, b, i + 1)
    } else {
        false
    }
}

/// `a` sorts strictly before `b`, as `str` orders them.
pub open spec fn text_less(a: Seq<char>, b: Seq<char>) -> bool {
    text_less_from(a, b, 0)
}

/// The job identifier text a record is ordered by.
pub open spec fn job_key(r: RuntimeIntent) -> Seq<char> {
    r.spec_intent().spec_job_id()@
}

/// Records in ascending job-identifier order (equal identifiers in any order).
pub open spec fn ascending_by_job(s: Seq<RuntimeIntent>) -> bool {
    forall|i: int, j: int| 0 <= i < j < s.len() ==> !text_less(job_key(s[j]), job_key(s[i]))
}

/// A record that startup reconciliation looks at: this runtime's provider,
/// not yet reconciled.
pub open spec fn awaits_startup(runtime: JobRuntime, r: RuntimeIntent) -> bool {
    r.spec_provider()@ == runtime.spec_provider()@ && r.spec_state() != IntentState::Reconciled
}

/// The records startup reconciliation looks at, in their given order.
pub open spec fn awaiting_startup(runtime: JobRuntime, s: Seq<RuntimeIntent>) -> Seq<RuntimeIntent>
    decreases s.len(),
{
    if s.len() == 0 {
        Seq::empty()
    } else {
        (if awaits_startup(runtime, s[0]) {
            seq![s[0]]
        } else {
            Seq::empty()
        }) + awaiting_startup(runtime, s.drop_first())
    }
}

proof fn lemma_text_less_asymmetric(a: Seq<char>, b: Seq<char>, i: int)
    requires
        0 <= i,
        text_less_from(a, b, i),
    ensures
        !text_less_from(b, a, i),
    decreases b.len() - i,
{
    if i < b.len() && i < a.len() && a[i] == b[i] {
        lemma_text_less_asymmetric(a, b, i + 1);
    }
}

proof fn lemma_text_less_transitive(a: Seq<char>, b: Seq<char>, c: Seq<char>, i: int)
    requires
        0 <= i,
        text_less_from(a, b, i),
        text_less_from(b, c, i),
    ensures
        text_less_from(a, c, i),
    decreases c.len() - i,
{
    if i < a.len() && i < b.len() && i < c.len() && a[i] == b[i] && b[i] == c[i] {
        lemma_text_less_transitive(a, b, c, i + 1);
    }
}

/// Whether `a` sorts strictly before `b`.
fn text_less_exec(a: &str, b: &str) -> (r: bool)
    ensures
        r == text_less(a@, b@),
{
    let n = a.unicode_len();
    let m = b.unicode_len();
    let mut i: usize = 0;
    while i < n && i < m
        invariant
            n == a@.len(),
            m == b@.len(),
            0 <= i <= n,
            i <= m,
            text_less_from(a@, b@, 0) == text_less_from(a@, b@, i as int),
        decreases n - i,
    {
        let x = a.get_char(i);
        let y = b.get_char(i);
        if (x as u32) < (y as u32) {
            return true;
        }
        if x != y {
            return false;
        }
        i = i + 1;
    }
    i < m
}

/// Inserts `x` after every record whose job identifier does not come after
/// its own, keeping the order ascending.
fn insert_by_job(out: &mut Vec<RuntimeIntent>, x: RuntimeIntent)
    requires
        ascending_by_job(old(out)@),
    ensures
        ascending_by_job(final(out)@),
        final(out)@.to_multiset() == old(out)@.to_multiset().insert(x),
{
    let ghost s = out@;
    let key = x.intent().job_id().as_str();
    let mut p: usize = 0;
    let mut found = false;
    while p < out.len() && !found
        invariant
            out@ == s,
            0 <= p <= s.len(),
            key@ == job_key(x),
            forall|k: int| 0 <= k < p ==> !text_less(job_key(x), #[trigger] job_key(s[k])),
            found ==> p < s.len() && text_less(job_key(x), job_key(s[p as int])),
        decreases s.len() - p, if found { 0int } else { 1int },
    {
        if text_less_exec(key, out[p].intent().job_id().as_str()) {
            found = true;
        } else {
            p = p + 1;
        }
    }
    assert(p < s.len() ==> text_less(job_key(x), job_key(s[p as int])));
    out.insert(p, x);
    proof {
        let t = out@;
        assert(t == s.insert(p as int, x));
        assert(t[p as int] == x);
        assert forall|i: int, j: int| 0 <= i < j < t.len() implies !text_less(
            job_key(t[j]),
            job_key(t[i]),
        ) by {
            if j < p {
                assert(t[i] == s[i] && t[j] == s[j]);
            } else if j == p {
                assert(t[i] == s[i]);
                assert(!text_less(job_key(x), job_key(s[i])));
            } else if i == p {
                assert(t[j] == s[j - 1]);
                if text_less(job_key(s[j - 1]), job_key(x)) {
                    if j - 1 == p {
                        lemma_text_less_asymmetric(job_key(x), job_key(s[p as int]), 0);
                    } else {
                        lemma_text_less_transitive(
                            job_key(s[j - 1]),
                            job_key(x),
                            job_key(s[p as int]),
                            0,
                        );
                        assert(!text_less(job_key(s[j - 1]), job_key(s[p as int])));
                    }
                }
            } else if i < p {
                assert(t[i] == s[i] && t[j] == s[j - 1]);
            } else {
                assert(t[i] == s[i - 1] && t[j] == s[j - 1]);
            }
        }
        assert(s =~= s.take(p as int) + s.skip(p as int));
        assert(t =~= s.take(p as int) + (seq![x] + s.skip(p as int)));
        vstd::seq_lib::lemma_multiset_commutative(s.take(p as int), s.skip(p as int));
        vstd::seq_lib::lemma_multiset_commutative(s.take(p as int), seq![x] + s.skip(p as int));
        vstd::seq_lib::lemma_multiset_commutative(seq![x], s.skip(p as int));
        assert(seq![x].to_multiset() =~= Multiset::empty().insert(x)) by {
            assert(seq![x] =~= Seq::<RuntimeIntent>::empty().push(x));
        }
        assert(t.to_multiset() =~= s.to_multiset().insert(x));
    }
}

/// The records in ascending job-identifier order, each kept once.
pub fn order_by_job_id(records: Vec<RuntimeIntent>) -> (r: Vec<RuntimeIntent>)
    ensures
        r@.to_multiset() == records@.to_multiset(),
        ascending_by_job(r@),
{
    let ghost all = records@;
    let mut rest = records;
    let mut out: Vec<RuntimeIntent> = Vec::new();
    while rest.len() > 0
        invariant
            rest@ == all.take(rest@.len() as int),
            rest@.len() <= all.len(),
            ascending_by_job(out@),
            out@.to_multiset() == all.skip(rest@.len() as int).to_multiset(),
        decreases rest@.len(),
    {
        let ghost k = rest@.len() as int;
        let x = rest.pop().unwrap();
        proof {
            assert(x == all[k - 1]);
            assert(rest@ =~= all.take(k - 1));
            assert(all.skip(k - 1) =~= seq![x] + all.skip(k));
            vstd::seq_lib::lemma_multiset_commutative(seq![x], all.skip(k));
            assert(seq![x].to_multiset() =~= Multiset::empty().insert(x)) by {
                assert(seq![x] =~= Seq::<RuntimeIntent>::empty().push(x));
            }
        }
        insert_by_job(&mut out, x);
        proof {
            assert(out@.to_multiset() =~= all.skip(k - 1).to_multiset());
        }
    }
    assert(all.skip(0) =~= all);
    out
}

impl JobRuntime {
    /// The records startup reconciliation works through, in the order it
    /// works through them: those of this provider that are not reconciled,
    /// in ascending job-identifier order.
    pub fn startup_order(&self, records: Vec<RuntimeIntent>) -> (r: Vec<RuntimeIntent>)
        ensures
            r@.to_multiset() == awaiting_startup(*self, records@).to_multiset(),
            ascending_by_job(r@),
            forall|i: int| 0 <= i < r@.len() ==> awaits_startup(*self, #[trigger] r@[i]),
    {
        let ghost all = records@;
        let mut rest = records;
        let mut out: Vec<RuntimeIntent> = Vec::new();
        proof {
            assert(all.skip(all.len() as int) =~= Seq::<RuntimeIntent>::empty());
        }
        while rest.len() > 0
            invariant
                rest@ == all.take(rest@.len() as int),
                rest@.len() <= all.len(),
                ascending_by_job(out@),
                out@.to_multiset() == awaiting_startup(*self, all.skip(rest@.len() as int)).to_multiset(),
            decreases rest@.len(),
        {
            let ghost k = rest@.len() as int;
            let x = rest.pop().unwrap();
            proof {
                assert(x == all[k - 1]);
                assert(rest@ =~= all.take(k - 1));
                assert(all.skip(k - 1).drop_first() =~= all.skip(k));
                assert(all.skip(k - 1)[0] == x);
            }
            let keep = self.awaits_startup_reconciliation(&x);
            let ghost before = out@;
            if keep {
                insert_by_job(&mut out, x);
            }
            proof {
                let head: Seq<RuntimeIntent> = if awaits_startup(*self, x) {
                    seq![x]
                } else {
                    Seq::empty()
                };
                assert(awaiting_startup(*self, all.skip(k - 1)) == head + awaiting_startup(
                    *self,
                    all.skip(k),
                ));
                vstd::seq_lib::lemma_multiset_commutative(head, awaiting_startup(*self, all.skip(k)));
                if keep {
                    assert(head.to_multiset() =~= Multiset::empty().insert(x)) by {
                        assert(head =~= Seq::<RuntimeIntent>::empty().push(x));
                    }
                } else {
                    assert(head.to_multiset() =~= Multiset::empty());
                }
                assert(out@.to_multiset() =~= awaiting_startup(*self, all.skip(k - 1)).to_multiset());
            }
        }
        proof {
            assert(all.skip(0) =~= all);
            assert forall|i: int| 0 <= i < out@.len() implies awaits_startup(*self, #[trigger] out@[i]) by {
                lemma_awaiting_only(*self, all, out@[i]);
                assert(out@.to_multiset().count(out@[i]) > 0);
            }
        }
        out
    }
}

/// Every record that `awaiting_startup` keeps awaits startup.
proof fn lemma_awaiting_only(runtime: JobRuntime, s: Seq<RuntimeIntent>, x: RuntimeIntent)
    ensures
        awaiting_startup(runtime, s).to_multiset().count(x) > 0 ==> awaits_startup(runtime, x),
    decreases s.len(),
{
    if s.len() > 0 {
        let head: Seq<RuntimeIntent> = if awaits_startup(runtime, s[0]) {
            seq![s[0]]
        } else {
            Seq::empty()
        };
        lemma_awaiting_only(runtime, s.drop_first(), x);
        vstd::seq_lib::lemma_multiset_commutative(head, awaiting_startup(runtime, s.drop_first()));
        if awaits_startup(runtime, s[0]) {
            assert(head.to_multiset() =~= Multiset::empty().insert(s[0])) by {
                assert(head =~= Seq::<RuntimeIntent>::empty().push(s[0]));
            }
        } else {
            assert(head.to_multiset() =~= Multiset::empty());
        }
    }
}

} // verus!
