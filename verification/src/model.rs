//! The mathematical model of reconciliation.
//!
//! A ledger is the set of migration names recorded as applied. Given a
//! ledger and the ordered list of migration names, `up_plan` gives the
//! indices whose scripts an `up` run executes (check-then-act: an entry
//! runs exactly when its name is absent, and is recorded at once), and
//! `up_ledger` the ledger left behind by a completed run. `down_plan` and
//! `down_ledger` are the mirror images for `down`. The lemmas here state
//! the library's laws: idempotence of both directions, the up/down round
//! trip, order preservation, and resumability after a partial failure.

use vstd::prelude::*;

verus! {

/// The ledger after a successful `up` run has processed entries `k..` of
/// `names`: every such name is recorded.
pub open spec fn up_ledger(l: Set<Seq<char>>, names: Seq<Seq<char>>, k: int) -> Set<Seq<char>>
    decreases names.len() - k,
{
    if k < 0 || k >= names.len() {
        l
    } else {
        up_ledger(l.insert(names[k]), names, k + 1)
    }
}

/// The indices in `k..` whose scripts an `up` run executes, in execution
/// order: an entry runs exactly when its name is not yet in the ledger,
/// and its name is recorded before the next entry is considered.
pub open spec fn up_plan(l: Set<Seq<char>>, names: Seq<Seq<char>>, k: int) -> Seq<int>
    decreases names.len() - k,
{
    if k < 0 || k >= names.len() {
        Seq::empty()
    } else if l.contains(names[k]) {
        up_plan(l, names, k + 1)
    } else {
        seq![k] + up_plan(l.insert(names[k]), names, k + 1)
    }
}

/// The ledger after a successful `down` run has processed entries `k..`:
/// every such name is gone.
pub open spec fn down_ledger(l: Set<Seq<char>>, names: Seq<Seq<char>>, k: int) -> Set<Seq<char>>
    decreases names.len() - k,
{
    if k < 0 || k >= names.len() {
        l
    } else {
        down_ledger(l.remove(names[k]), names, k + 1)
    }
}

/// The indices in `k..` whose scripts a `down` run executes, in execution
/// order: an entry runs exactly when its name is still in the ledger, and
/// its name is deleted before the next entry is considered.
pub open spec fn down_plan(l: Set<Seq<char>>, names: Seq<Seq<char>>, k: int) -> Seq<int>
    decreases names.len() - k,
{
    if k < 0 || k >= names.len() {
        Seq::empty()
    } else if l.contains(names[k]) {
        seq![k] + down_plan(l.remove(names[k]), names, k + 1)
    } else {
        down_plan(l, names, k + 1)
    }
}

/// What `up` leaves in the ledger: the names already there, together with
/// the names of the entries processed.
pub proof fn lemma_up_ledger_membership(
    l: Set<Seq<char>>,
    names: Seq<Seq<char>>,
    k: int,
    x: Seq<char>,
)
    requires
        0 <= k,
    ensures
        up_ledger(l, names, k).contains(x) <==> l.contains(x) || exists|j: int|
            k <= j < names.len() && names[j] == x,
    decreases names.len() - k,
{
    if k < 0 || k >= names.len() {
    } else {
        lemma_up_ledger_membership(l.insert(names[k]), names, k + 1, x);
        if up_ledger(l, names, k).contains(x) {
            if l.insert(names[k]).contains(x) {
                if !l.contains(x) {
                    assert(names[k] == x);
                    assert(k <= k < names.len() && names[k] == x);
                }
            } else {
                let j = choose|j: int| k + 1 <= j < names.len() && names[j] == x;
                assert(k <= j < names.len() && names[j] == x);
            }
        }
        if l.contains(x) || exists|j: int| k <= j < names.len() && names[j] == x {
            if !l.contains(x) {
                let j = choose|j: int| k <= j < names.len() && names[j] == x;
                if j == k {
                    assert(l.insert(names[k]).contains(x));
                } else {
                    assert(k + 1 <= j < names.len() && names[j] == x);
                }
            }
        }
    }
}

/// What `down` leaves in the ledger: the names already there, less the
/// names of the entries processed.
pub proof fn lemma_down_ledger_membership(
    l: Set<Seq<char>>,
    names: Seq<Seq<char>>,
    k: int,
    x: Seq<char>,
)
    requires
        0 <= k,
    ensures
        down_ledger(l, names, k).contains(x) <==> l.contains(x) && !(exists|j: int|
            k <= j < names.len() && names[j] == x),
    decreases names.len() - k,
{
    if k < 0 || k >= names.len() {
    } else {
        lemma_down_ledger_membership(l.remove(names[k]), names, k + 1, x);
        if l.contains(x) && !(exists|j: int| k <= j < names.len() && names[j] == x) {
            assert(!(k <= k < names.len() && names[k] == x));
            assert(names[k] != x);
            assert(l.remove(names[k]).contains(x));
            assert forall|j: int| k + 1 <= j < names.len() implies names[j] != x by {
                assert(!(k <= j < names.len() && names[j] == x));
            }
        }
        if down_ledger(l, names, k).contains(x) {
            assert(l.remove(names[k]).contains(x));
            assert(names[k] != x);
            assert forall|j: int| k <= j < names.len() implies names[j] != x by {
                if j > k {
                    assert(!(k + 1 <= j < names.len() && names[j] == x));
                }
            }
        }
    }
}

/// `up` executes nothing over a stretch of entries whose names are all
/// already in the ledger: the run resumes past them unchanged.
pub proof fn lemma_up_plan_skips_present(
    l: Set<Seq<char>>,
    names: Seq<Seq<char>>,
    a: int,
    b: int,
)
    requires
        0 <= a <= b <= names.len(),
        forall|j: int| a <= j < b ==> l.contains(names[j]),
    ensures
        up_plan(l, names, a) == up_plan(l, names, b),
    decreases b - a,
{
    if a < b {
        lemma_up_plan_skips_present(l, names, a + 1, b);
    }
}

/// `down` executes nothing over a stretch of entries whose names are all
/// absent from the ledger.
pub proof fn lemma_down_plan_skips_absent(
    l: Set<Seq<char>>,
    names: Seq<Seq<char>>,
    a: int,
    b: int,
)
    requires
        0 <= a <= b <= names.len(),
        forall|j: int| a <= j < b ==> !l.contains(names[j]),
    ensures
        down_plan(l, names, a) == down_plan(l, names, b),
    decreases b - a,
{
    if a < b {
        lemma_down_plan_skips_absent(l, names, a + 1, b);
    }
}

/// Idempotence of `up`: after one successful `up` run, running `up` again
/// with the same list executes no script and leaves the ledger unchanged.
pub proof fn lemma_up_idempotent(l: Set<Seq<char>>, names: Seq<Seq<char>>)
    ensures
        up_plan(up_ledger(l, names, 0), names, 0) == Seq::<int>::empty(),
        up_ledger(up_ledger(l, names, 0), names, 0) =~= up_ledger(l, names, 0),
{
    let l1 = up_ledger(l, names, 0);
    assert forall|j: int| 0 <= j < names.len() implies l1.contains(names[j]) by {
        lemma_up_ledger_membership(l, names, 0, names[j]);
    }
    lemma_up_plan_skips_present(l1, names, 0, names.len() as int);
    assert forall|x: Seq<char>|
        up_ledger(l1, names, 0).contains(x) <==> l1.contains(x) by {
        lemma_up_ledger_membership(l1, names, 0, x);
        lemma_up_ledger_membership(l, names, 0, x);
    }
}

/// Idempotence of `down`: after one successful `down` run, running `down`
/// again with the same list executes no script and leaves the ledger
/// unchanged.
pub proof fn lemma_down_idempotent(l: Set<Seq<char>>, names: Seq<Seq<char>>)
    ensures
        down_plan(down_ledger(l, names, 0), names, 0) == Seq::<int>::empty(),
        down_ledger(down_ledger(l, names, 0), names, 0) =~= down_ledger(l, names, 0),
{
    let l1 = down_ledger(l, names, 0);
    assert forall|j: int| 0 <= j < names.len() implies !l1.contains(names[j]) by {
        lemma_down_ledger_membership(l, names, 0, names[j]);
    }
    lemma_down_plan_skips_absent(l1, names, 0, names.len() as int);
    assert forall|x: Seq<char>|
        down_ledger(l1, names, 0).contains(x) <==> l1.contains(x) by {
        lemma_down_ledger_membership(l1, names, 0, x);
        lemma_down_ledger_membership(l, names, 0, x);
    }
}

/// Round trip: `up` over a fresh (empty) ledger followed by `down` over
/// the reversed list leaves the ledger empty again.
pub proof fn lemma_round_trip(names: Seq<Seq<char>>)
    ensures
        down_ledger(up_ledger(Set::empty(), names, 0), names.reverse(), 0)
            =~= Set::<Seq<char>>::empty(),
{
    let l1 = up_ledger(Set::empty(), names, 0);
    let rev = names.reverse();
    assert forall|x: Seq<char>| !down_ledger(l1, rev, 0).contains(x) by {
        lemma_down_ledger_membership(l1, rev, 0, x);
        lemma_up_ledger_membership(Set::empty(), names, 0, x);
        if l1.contains(x) {
            let j = choose|j: int| 0 <= j < names.len() && names[j] == x;
            assert(rev[names.len() - 1 - j] == x);
        }
    }
}

/// Order preservation for `up`: the plan lists indices of the given list
/// in strictly increasing order, so the script at one position never runs
/// before every earlier selected script has run.
pub proof fn lemma_up_plan_ordered(l: Set<Seq<char>>, names: Seq<Seq<char>>, k: int)
    requires
        0 <= k <= names.len(),
    ensures
        forall|a: int| 0 <= a < up_plan(l, names, k).len() ==> k <= #[trigger] up_plan(
            l,
            names,
            k,
        )[a] < names.len(),
        forall|a: int, b: int|
            0 <= a < b < up_plan(l, names, k).len() ==> up_plan(l, names, k)[a] < up_plan(
                l,
                names,
                k,
            )[b],
    decreases names.len() - k,
{
    let plan = up_plan(l, names, k);
    if k < names.len() {
        if l.contains(names[k]) {
            lemma_up_plan_ordered(l, names, k + 1);
            assert(plan == up_plan(l, names, k + 1));
        } else {
            lemma_up_plan_ordered(l.insert(names[k]), names, k + 1);
            let rest = up_plan(l.insert(names[k]), names, k + 1);
            assert(plan == seq![k] + rest);
            assert forall|a: int| 0 <= a < plan.len() implies k <= #[trigger] plan[a] < names.len() by {
                if a == 0 {
                    assert(plan[0] == k);
                } else {
                    assert(plan[a] == rest[a - 1]);
                }
            }
            assert forall|a: int, b: int|
                0 <= a < b < plan.len() implies #[trigger] plan[a] < #[trigger] plan[b] by {
                assert(plan[b] == rest[b - 1]);
                if a == 0 {
                    assert(plan[0] == k);
                } else {
                    assert(plan[a] == rest[a - 1]);
                }
            }
        }
    }
}

/// Order preservation for `down`: mirror image of the `up` statement.
pub proof fn lemma_down_plan_ordered(l: Set<Seq<char>>, names: Seq<Seq<char>>, k: int)
    requires
        0 <= k <= names.len(),
    ensures
        forall|a: int| 0 <= a < down_plan(l, names, k).len() ==> k <= #[trigger] down_plan(
            l,
            names,
            k,
        )[a] < names.len(),
        forall|a: int, b: int|
            0 <= a < b < down_plan(l, names, k).len() ==> down_plan(l, names, k)[a] < down_plan(
                l,
                names,
                k,
            )[b],
    decreases names.len() - k,
{
    let plan = down_plan(l, names, k);
    if k < names.len() {
        if l.contains(names[k]) {
            lemma_down_plan_ordered(l.remove(names[k]), names, k + 1);
            let rest = down_plan(l.remove(names[k]), names, k + 1);
            assert(plan == seq![k] + rest);
            assert forall|a: int| 0 <= a < plan.len() implies k <= #[trigger] plan[a] < names.len() by {
                if a == 0 {
                    assert(plan[0] == k);
                } else {
                    assert(plan[a] == rest[a - 1]);
                }
            }
            assert forall|a: int, b: int|
                0 <= a < b < plan.len() implies #[trigger] plan[a] < #[trigger] plan[b] by {
                assert(plan[b] == rest[b - 1]);
                if a == 0 {
                    assert(plan[0] == k);
                } else {
                    assert(plan[a] == rest[a - 1]);
                }
            }
        } else {
            lemma_down_plan_ordered(l, names, k + 1);
            assert(plan == down_plan(l, names, k + 1));
        }
    }
}

/// Resumability of `up` after a partial failure. When a run over `names`
/// stops at entry `k` (entries before `k` processed, entry `k` not yet
/// recorded), the ledger is `up_ledger` of the prefix: it holds every name
/// before position `k`, and a re-run with the same list skips those
/// entries and resumes at `k`. If entry `k`'s name is absent — as it is
/// when its script was the one that failed — the re-run attempts entry `k`
/// first.
pub proof fn lemma_up_resumes(l: Set<Seq<char>>, names: Seq<Seq<char>>, k: int)
    requires
        0 <= k <= names.len(),
    ensures
        forall|j: int|
            0 <= j < k ==> up_ledger(l, names.take(k), 0).contains(#[trigger] names[j]),
        up_plan(up_ledger(l, names.take(k), 0), names, 0) == up_plan(
            up_ledger(l, names.take(k), 0),
            names,
            k,
        ),
        k < names.len() && !up_ledger(l, names.take(k), 0).contains(names[k])
            ==> up_plan(up_ledger(l, names.take(k), 0), names, 0)[0] == k,
{
    let prefix = names.take(k);
    let l1 = up_ledger(l, prefix, 0);
    assert forall|j: int| 0 <= j < k implies l1.contains(names[j]) by {
        lemma_up_ledger_membership(l, prefix, 0, names[j]);
        assert(prefix[j] == names[j]);
    }
    lemma_up_plan_skips_present(l1, names, 0, k);
    if k < names.len() && !l1.contains(names[k]) {
        assert(up_plan(l1, names, k) == seq![k] + up_plan(l1.insert(names[k]), names, k + 1));
    }
}

/// Resumability of `down` after a partial failure: mirror image of the
/// `up` statement — a re-run skips the already-deleted prefix and resumes
/// at the entry that failed.
pub proof fn lemma_down_resumes(l: Set<Seq<char>>, names: Seq<Seq<char>>, k: int)
    requires
        0 <= k <= names.len(),
    ensures
        forall|j: int|
            0 <= j < k ==> !down_ledger(l, names.take(k), 0).contains(#[trigger] names[j]),
        down_plan(down_ledger(l, names.take(k), 0), names, 0) == down_plan(
            down_ledger(l, names.take(k), 0),
            names,
            k,
        ),
        k < names.len() && down_ledger(l, names.take(k), 0).contains(names[k])
            ==> down_plan(down_ledger(l, names.take(k), 0), names, 0)[0] == k,
{
    let prefix = names.take(k);
    let l1 = down_ledger(l, prefix, 0);
    assert forall|j: int| 0 <= j < k implies !l1.contains(names[j]) by {
        lemma_down_ledger_membership(l, prefix, 0, names[j]);
        assert(prefix[j] == names[j]);
    }
    lemma_down_plan_skips_absent(l1, names, 0, k);
    if k < names.len() && l1.contains(names[k]) {
        assert(down_plan(l1, names, k) == seq![k] + down_plan(
            l1.remove(names[k]),
            names,
            k + 1,
        ));
    }
}

} // verus!
