//! The machine implements the model.
//!
//! A faithful database answers each existence query with the ledger
//! membership of the name asked about, reports success for every other
//! command, and its ledger changes exactly when an insert or delete
//! completes. `run_execs` and `run_ledger` unfold a [`Run`] against such a
//! database; the lemmas here prove that what comes out is exactly the
//! model's plan and ledger ([`crate::model`]), so the model's laws —
//! idempotence, round trip, order, resumability — hold of every run driven
//! by a faithful database.

use vstd::prelude::*;
use crate::model;
use crate::run::{Direction, Event, Phase, Run};

verus! {

/// The event a faithful database with ledger `l` reports for the command
/// of state `r`: ledger membership for an existence query, success for
/// everything else.
pub open spec fn faithful_event(l: Set<Seq<char>>, names: Seq<Seq<char>>, r: Run) -> Event {
    if r.phase == Phase::Check {
        Event::Found(l.contains(names[r.i as int]))
    } else {
        Event::Completed
    }
}

/// The ledger after the command of state `r` completes: an insert or
/// delete lands the entry's name, nothing else touches the ledger.
pub open spec fn ledger_next(l: Set<Seq<char>>, names: Seq<Seq<char>>, r: Run) -> Set<Seq<char>> {
    if r.phase == Phase::Record {
        if r.dir == Direction::Up {
            l.insert(names[r.i as int])
        } else {
            l.remove(names[r.i as int])
        }
    } else {
        l
    }
}

/// Within one entry the machine moves Ensure, Check, Apply, Record, each
/// step down this rank; between entries the index grows.
pub open spec fn rank(p: Phase) -> int {
    match p {
        Phase::Ensure => 3,
        Phase::Check => 2,
        Phase::Apply => 1,
        Phase::Record => 0,
        Phase::Finished => 0,
        Phase::Stopped => 0,
    }
}

/// The indices whose scripts a run from state `r` executes against a
/// faithful database with ledger `l`, in execution order. An index is
/// counted when its script batch completes.
pub open spec fn run_execs(l: Set<Seq<char>>, names: Seq<Seq<char>>, r: Run) -> Seq<int>
    decreases r.n - r.i, rank(r.phase),
        when r.wf() && r.n == names.len()
{
    if r.phase == Phase::Finished || r.phase == Phase::Stopped {
        Seq::empty()
    } else {
        let here: Seq<int> = if r.phase == Phase::Apply {
            seq![r.i as int]
        } else {
            Seq::empty()
        };
        here + run_execs(ledger_next(l, names, r), names, r.advanced(faithful_event(l, names, r)))
    }
}

/// The ledger a run from state `r` leaves behind against a faithful
/// database with ledger `l`.
pub open spec fn run_ledger(l: Set<Seq<char>>, names: Seq<Seq<char>>, r: Run) -> Set<Seq<char>>
    decreases r.n - r.i, rank(r.phase),
        when r.wf() && r.n == names.len()
{
    if r.phase == Phase::Finished || r.phase == Phase::Stopped {
        l
    } else {
        run_ledger(ledger_next(l, names, r), names, r.advanced(faithful_event(l, names, r)))
    }
}

proof fn lemma_up_run_invariant(l: Set<Seq<char>>, names: Seq<Seq<char>>, r: Run)
    requires
        r.wf(),
        r.n == names.len(),
        r.dir == Direction::Up,
    ensures
        r.phase == Phase::Ensure ==> run_execs(l, names, r) == model::up_plan(l, names, 0)
            && run_ledger(l, names, r) == model::up_ledger(l, names, 0),
        r.phase == Phase::Check ==> run_execs(l, names, r) == model::up_plan(l, names, r.i as int)
            && run_ledger(l, names, r) == model::up_ledger(l, names, r.i as int),
        r.phase == Phase::Apply ==> run_execs(l, names, r) == seq![r.i as int] + model::up_plan(
            l.insert(names[r.i as int]),
            names,
            r.i + 1,
        ) && run_ledger(l, names, r) == model::up_ledger(l, names, r.i as int),
        r.phase == Phase::Record ==> run_execs(l, names, r) == model::up_plan(
            l.insert(names[r.i as int]),
            names,
            r.i + 1,
        ) && run_ledger(l, names, r) == model::up_ledger(l, names, r.i as int),
    decreases r.n - r.i, rank(r.phase),
{
    if r.phase == Phase::Ensure || r.phase == Phase::Check || r.phase == Phase::Apply || r.phase
        == Phase::Record {
        let ev = faithful_event(l, names, r);
        let r2 = r.advanced(ev);
        let l2 = ledger_next(l, names, r);
        lemma_up_run_invariant(l2, names, r2);
        assert(Seq::<int>::empty() + run_execs(l2, names, r2) =~= run_execs(l2, names, r2));
        if r2.phase == Phase::Finished {
            assert(run_execs(l2, names, r2) =~= Seq::<int>::empty());
            assert(run_ledger(l2, names, r2) == l2);
            assert(model::up_plan(l2, names, r2.i as int) =~= Seq::<int>::empty());
            assert(model::up_ledger(l2, names, r2.i as int) == l2);
        }
        if r.phase == Phase::Check && l.contains(names[r.i as int]) {
            assert(l.insert(names[r.i as int]) =~= l);
        }
    }
}

proof fn lemma_down_run_invariant(l: Set<Seq<char>>, names: Seq<Seq<char>>, r: Run)
    requires
        r.wf(),
        r.n == names.len(),
        r.dir == Direction::Down,
    ensures
        r.phase == Phase::Ensure ==> run_execs(l, names, r) == model::down_plan(l, names, 0)
            && run_ledger(l, names, r) == model::down_ledger(l, names, 0),
        r.phase == Phase::Check ==> run_execs(l, names, r) == model::down_plan(
            l,
            names,
            r.i as int,
        ) && run_ledger(l, names, r) == model::down_ledger(l, names, r.i as int),
        r.phase == Phase::Apply ==> run_execs(l, names, r) == seq![r.i as int] + model::down_plan(
            l.remove(names[r.i as int]),
            names,
            r.i + 1,
        ) && run_ledger(l, names, r) == model::down_ledger(l, names, r.i as int),
        r.phase == Phase::Record ==> run_execs(l, names, r) == model::down_plan(
            l.remove(names[r.i as int]),
            names,
            r.i + 1,
        ) && run_ledger(l, names, r) == model::down_ledger(l, names, r.i as int),
    decreases r.n - r.i, rank(r.phase),
{
    if r.phase == Phase::Ensure || r.phase == Phase::Check || r.phase == Phase::Apply || r.phase
        == Phase::Record {
        let ev = faithful_event(l, names, r);
        let r2 = r.advanced(ev);
        let l2 = ledger_next(l, names, r);
        lemma_down_run_invariant(l2, names, r2);
        assert(Seq::<int>::empty() + run_execs(l2, names, r2) =~= run_execs(l2, names, r2));
        if r2.phase == Phase::Finished {
            assert(run_execs(l2, names, r2) =~= Seq::<int>::empty());
            assert(run_ledger(l2, names, r2) == l2);
            assert(model::down_plan(l2, names, r2.i as int) =~= Seq::<int>::empty());
            assert(model::down_ledger(l2, names, r2.i as int) == l2);
        }
        if r.phase == Phase::Check && !l.contains(names[r.i as int]) {
            assert(l.remove(names[r.i as int]) =~= l);
        }
    }
}

/// An `up` run driven by a faithful database with ledger `l` executes
/// exactly the scripts of the model's plan, in its order, and leaves the
/// model's ledger behind.
pub proof fn lemma_up_run_follows_plan(l: Set<Seq<char>>, names: Seq<Seq<char>>, r: Run)
    requires
        r == (Run { dir: Direction::Up, n: names.len() as usize, i: 0, phase: Phase::Ensure }),
        names.len() <= usize::MAX,
    ensures
        run_execs(l, names, r) == model::up_plan(l, names, 0),
        run_ledger(l, names, r) == model::up_ledger(l, names, 0),
{
    lemma_up_run_invariant(l, names, r);
}

/// A `down` run driven by a faithful database with ledger `l` executes
/// exactly the scripts of the model's plan, in its order, and leaves the
/// model's ledger behind.
pub proof fn lemma_down_run_follows_plan(l: Set<Seq<char>>, names: Seq<Seq<char>>, r: Run)
    requires
        r == (Run { dir: Direction::Down, n: names.len() as usize, i: 0, phase: Phase::Ensure }),
        names.len() <= usize::MAX,
    ensures
        run_execs(l, names, r) == model::down_plan(l, names, 0),
        run_ledger(l, names, r) == model::down_ledger(l, names, 0),
{
    lemma_down_run_invariant(l, names, r);
}

/// The state `Migration::up` starts a run in, over `n` entries.
pub open spec fn up_start(n: int) -> Run {
    Run { dir: Direction::Up, n: n as usize, i: 0, phase: Phase::Ensure }
}

/// The state `Migration::down` starts a run in, over `n` entries.
pub open spec fn down_start(n: int) -> Run {
    Run { dir: Direction::Down, n: n as usize, i: 0, phase: Phase::Ensure }
}

/// Idempotence of `up` over runs: after one faithful `up` run, a second
/// run with the same list executes no script and leaves the ledger as it
/// found it.
pub proof fn lemma_up_run_idempotent(l: Set<Seq<char>>, names: Seq<Seq<char>>)
    requires
        names.len() <= usize::MAX,
    ensures
        ({
            let r = up_start(names.len() as int);
            let l1 = run_ledger(l, names, r);
            run_execs(l1, names, r) =~= Seq::<int>::empty() && run_ledger(l1, names, r) =~= l1
        }),
{
    let r = up_start(names.len() as int);
    lemma_up_run_follows_plan(l, names, r);
    let l1 = run_ledger(l, names, r);
    lemma_up_run_follows_plan(l1, names, r);
    model::lemma_up_idempotent(l, names);
}

/// Idempotence of `down` over runs: after one faithful `down` run, a
/// second run with the same list executes no script and leaves the ledger
/// as it found it.
pub proof fn lemma_down_run_idempotent(l: Set<Seq<char>>, names: Seq<Seq<char>>)
    requires
        names.len() <= usize::MAX,
    ensures
        ({
            let r = down_start(names.len() as int);
            let l1 = run_ledger(l, names, r);
            run_execs(l1, names, r) =~= Seq::<int>::empty() && run_ledger(l1, names, r) =~= l1
        }),
{
    let r = down_start(names.len() as int);
    lemma_down_run_follows_plan(l, names, r);
    let l1 = run_ledger(l, names, r);
    lemma_down_run_follows_plan(l1, names, r);
    model::lemma_down_idempotent(l, names);
}

/// Round trip over runs: a faithful `up` run over a fresh (empty) ledger,
/// followed by a faithful `down` run over the reversed list, leaves the
/// ledger empty again.
pub proof fn lemma_run_round_trip(names: Seq<Seq<char>>)
    requires
        names.len() <= usize::MAX,
    ensures
        ({
            let after_up = run_ledger(Set::empty(), names, up_start(names.len() as int));
            run_ledger(after_up, names.reverse(), down_start(names.len() as int))
                =~= Set::<Seq<char>>::empty()
        }),
{
    lemma_up_run_follows_plan(Set::empty(), names, up_start(names.len() as int));
    let after_up = run_ledger(Set::empty(), names, up_start(names.len() as int));
    lemma_down_run_follows_plan(after_up, names.reverse(), down_start(names.len() as int));
    model::lemma_round_trip(names);
}

/// Skip-on-present: when the existence answer for an entry is positive,
/// `up` moves straight to the next entry — the entry's script is not
/// executed and no insert is attempted.
pub proof fn lemma_up_skips_present(r: Run)
    requires
        r.wf(),
        r.phase == Phase::Check,
        r.dir == Direction::Up,
    ensures
        r.advanced(Event::Found(true)) == r.to_entry(r.i + 1),
{
}

} // verus!
