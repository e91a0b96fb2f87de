//! Joining what is found position by position into one sequence.

use vstd::prelude::*;

verus! {

/// The findings at the positions below `n`, joined in order of position.
pub open spec fn gather<B>(n: nat, at: spec_fn(int) -> Seq<B>) -> Seq<B>
    decreases n,
{
    if n == 0 {
        Seq::empty()
    } else {
        gather((n - 1) as nat, at) + at(n - 1)
    }
}

/// The findings below position `i` open the findings below any later
/// position `n`.
pub proof fn lemma_gather_split<B>(i: nat, n: nat, at: spec_fn(int) -> Seq<B>)
    requires
        i <= n,
    ensures
        gather(i, at).len() <= gather(n, at).len(),
        gather(n, at) == gather(i, at) + gather(n, at).skip(gather(i, at).len() as int),
    decreases n - i,
{
    if i < n {
        lemma_gather_split(i, (n - 1) as nat, at);
        let head = gather(i, at);
        let shorter = gather((n - 1) as nat, at);
        assert(gather(n, at) =~= head + (shorter.skip(head.len() as int) + at(n - 1)));
        assert(gather(n, at).skip(head.len() as int) =~= shorter.skip(head.len() as int) + at(
            n - 1,
        ));
    } else {
        assert(gather(n, at) =~= gather(i, at) + gather(n, at).skip(gather(i, at).len() as int));
    }
}

/// Nothing is found overall exactly when nothing is found at any position.
pub proof fn lemma_gather_empty<B>(n: nat, at: spec_fn(int) -> Seq<B>)
    ensures
        gather(n, at).len() == 0 <==> forall|i: int| 0 <= i < n ==> (#[trigger] at(i)).len() == 0,
    decreases n,
{
    if n > 0 {
        lemma_gather_empty((n - 1) as nat, at);
        if gather(n, at).len() == 0 {
            assert(at(n - 1).len() == 0);
            assert forall|i: int| 0 <= i < n implies (#[trigger] at(i)).len() == 0 by {
                if i < n - 1 {
                } else {
                }
            }
        }
    }
}

/// A finding is among all findings exactly when it is found at some
/// position.
pub proof fn lemma_gather_contains<B>(n: nat, at: spec_fn(int) -> Seq<B>, finding: B)
    ensures
        gather(n, at).contains(finding) <==> exists|i: int|
            0 <= i < n && (#[trigger] at(i)).contains(finding),
    decreases n,
{
    if n > 0 {
        let shorter = gather((n - 1) as nat, at);
        let last = at(n - 1);
        lemma_gather_contains((n - 1) as nat, at, finding);
        if gather(n, at).contains(finding) {
            let k = choose|k: int| 0 <= k < gather(n, at).len() && gather(n, at)[k] == finding;
            if k < shorter.len() {
                assert(shorter[k] == finding);
                assert(shorter.contains(finding));
            } else {
                assert(last[k - shorter.len()] == finding);
                assert(last.contains(finding));
            }
        }
        if exists|i: int| 0 <= i < n && (#[trigger] at(i)).contains(finding) {
            let i = choose|i: int| 0 <= i < n && (#[trigger] at(i)).contains(finding);
            if i < n - 1 {
                assert(shorter.contains(finding));
                let k = choose|k: int| 0 <= k < shorter.len() && shorter[k] == finding;
                assert(gather(n, at)[k] == finding);
            } else {
                let k = choose|k: int| 0 <= k < last.len() && last[k] == finding;
                assert(gather(n, at)[shorter.len() + k] == finding);
            }
        }
    } else {
        assert(!gather(n, at).contains(finding));
    }
}

} // verus!
