//! The reconciliation state machine.
//!
//! `up` and `down` walk the script list with a check-then-act step per
//! entry. The database work itself (issuing the queries over a connection)
//! is the caller's: a [`Run`] tells the caller which command to issue next
//! ([`Run::action`]) and digests the command's outcome ([`Run::advance`]).
//! Every transition is pinned exactly by [`Run::advanced`], so the caller's
//! loop is nothing but "perform the action, report the event".
//!
//! A faithful database answers the existence query for a name with its
//! ledger membership; under those answers the indices this machine applies
//! are exactly [`crate::model::up_plan`] (or `down_plan`), as
//! [`crate::bridge`] proves.

use vstd::prelude::*;
use crate::Migration;
use crate::sql;

verus! {

/// Which way a run reconciles: `up` applies missing entries, `down`
/// reverts present ones.
#[derive(Clone, Copy, PartialEq, Eq, Structural, Debug)]
pub enum Direction {
    Up,
    Down,
}

/// What the machine awaits.
#[derive(Clone, Copy, PartialEq, Eq, Structural, Debug)]
pub enum Phase {
    /// Awaiting the idempotent creation of the ledger table.
    Ensure,
    /// Awaiting the existence answer for entry `i`.
    Check,
    /// Awaiting execution of entry `i`'s script.
    Apply,
    /// Awaiting the ledger update for entry `i` (insert for `up`, delete
    /// for `down`).
    Record,
    /// All entries processed.
    Finished,
    /// A database error was reported; the run aborted at once.
    Stopped,
}

/// The outcome of the command the caller performed.
#[derive(Clone, Copy, PartialEq, Eq, Structural, Debug)]
pub enum Event {
    /// The command succeeded (table creation, script, insert or delete).
    Completed,
    /// The existence query succeeded; true when the name is in the ledger.
    Found(bool),
    /// The command failed: abort the run and surface the error.
    DbError,
}

/// The next database command the caller must issue.
#[derive(PartialEq, Eq, Debug)]
pub enum Action {
    /// Run this multi-statement text with no parameters, no result rows.
    Batch(String),
    /// Run this parameterized data-modifying statement with the one
    /// parameter given.
    Execute(String, String),
    /// Run this parameterized single-row count query with the one
    /// parameter given; report `Found` of count > 0.
    QueryOne(String, String),
    /// The run completed: every entry was processed.
    Finished,
    /// The run aborted on the first database error.
    Stopped,
}

/// One `up` or `down` run over a list of `n` scripts.
pub struct Run {
    /// The direction of the run.
    pub dir: Direction,
    /// How many entries the script list holds.
    pub n: usize,
    /// The entry under consideration.
    pub i: usize,
    /// What the machine awaits.
    pub phase: Phase,
}

impl Run {
    /// While an entry is under consideration, it is in range; a run that
    /// is still ensuring the table has not touched any entry.
    pub open spec fn wf(self) -> bool {
        &&& (self.phase == Phase::Check || self.phase == Phase::Apply || self.phase
            == Phase::Record) ==> self.i < self.n
        &&& self.phase == Phase::Ensure ==> self.i == 0
    }

    /// The event shapes a phase can digest; terminal phases digest none.
    pub open spec fn expects(self, ev: Event) -> bool {
        match self.phase {
            Phase::Ensure => ev == Event::Completed || ev == Event::DbError,
            Phase::Check => (ev matches Event::Found(_)) || ev == Event::DbError,
            Phase::Apply => ev == Event::Completed || ev == Event::DbError,
            Phase::Record => ev == Event::Completed || ev == Event::DbError,
            Phase::Finished => false,
            Phase::Stopped => false,
        }
    }

    /// The state that turns to entry `j`: checking it if it exists, else
    /// finished.
    pub open spec fn to_entry(self, j: int) -> Run {
        Run {
            i: j as usize,
            phase: if j < self.n { Phase::Check } else { Phase::Finished },
            ..self
        }
    }

    /// The whole transition relation, one event at a time. A `DbError`
    /// stops the run wherever it stands (first-failure semantics). On a
    /// positive existence answer `up` skips the entry outright — its
    /// script is not executed and no insert is attempted — while `down`
    /// applies it; a negative answer is the mirror image.
    pub open spec fn advanced(self, ev: Event) -> Run {
        if ev == Event::DbError {
            Run { phase: Phase::Stopped, ..self }
        } else {
            match self.phase {
                Phase::Ensure => self.to_entry(0),
                Phase::Check => {
                    let hit = ev == Event::Found(true);
                    let apply = if self.dir == Direction::Up {
                        !hit
                    } else {
                        hit
                    };
                    if apply {
                        Run { phase: Phase::Apply, ..self }
                    } else {
                        self.to_entry(self.i + 1)
                    }
                },
                Phase::Apply => Run { phase: Phase::Record, ..self },
                Phase::Record => self.to_entry(self.i + 1),
                _ => self,
            }
        }
    }

    /// Digests the outcome of the action just performed.
    pub fn advance(&mut self, ev: Event)
        requires
            old(self).wf(),
            old(self).expects(ev),
        ensures
            *final(self) == old(self).advanced(ev),
            final(self).wf(),
    {
        match ev {
            Event::DbError => {
                self.phase = Phase::Stopped;
            },
            Event::Completed => {
                match self.phase {
                    Phase::Ensure => self.goto_entry(0),
                    Phase::Apply => {
                        self.phase = Phase::Record;
                    },
                    Phase::Record => {
                        let j = self.i + 1;
                        self.goto_entry(j);
                    },
                    _ => {},
                }
            },
            Event::Found(b) => {
                let apply = if self.dir == Direction::Up {
                    !b
                } else {
                    b
                };
                if apply {
                    self.phase = Phase::Apply;
                } else {
                    let j = self.i + 1;
                    self.goto_entry(j);
                }
            },
        }
    }

    fn goto_entry(&mut self, j: usize)
        requires
            j <= old(self).n,
        ensures
            *final(self) == old(self).to_entry(j as int),
    {
        self.i = j;
        self.phase = if j < self.n {
            Phase::Check
        } else {
            Phase::Finished
        };
    }

    /// The command to issue now. `scripts` is the list the run was started
    /// over: pairs of migration name and script text.
    pub fn action(&self, m: &Migration, scripts: &Vec<(String, String)>) -> (a: Action)
        requires
            self.wf(),
            scripts@.len() == self.n,
        ensures
            self.phase == Phase::Ensure ==> (a matches Action::Batch(q) && q@
                == sql::create_table_sql_spec(m.table())),
            self.phase == Phase::Check ==> (a matches Action::QueryOne(q, p) && q@
                == sql::exists_sql_spec(m.table()) && p@ == scripts@[self.i as int].0@),
            self.phase == Phase::Apply ==> (a matches Action::Batch(q) && q@
                == scripts@[self.i as int].1@),
            self.phase == Phase::Record && self.dir == Direction::Up ==> (a
                matches Action::Execute(q, p) && q@ == sql::insert_sql_spec(m.table()) && p@
                == scripts@[self.i as int].0@),
            self.phase == Phase::Record && self.dir == Direction::Down ==> (a
                matches Action::Execute(q, p) && q@ == sql::delete_sql_spec(m.table()) && p@
                == scripts@[self.i as int].0@),
            self.phase == Phase::Finished ==> a == Action::Finished,
            self.phase == Phase::Stopped ==> a == Action::Stopped,
    {
        match self.phase {
            Phase::Ensure => Action::Batch(m.create_table_sql()),
            Phase::Check => Action::QueryOne(m.exists_sql(), scripts[self.i].0.clone()),
            Phase::Apply => Action::Batch(scripts[self.i].1.clone()),
            Phase::Record => {
                let q = if self.dir == Direction::Up {
                    m.insert_sql()
                } else {
                    m.delete_sql()
                };
                Action::Execute(q, scripts[self.i].0.clone())
            },
            Phase::Finished => Action::Finished,
            Phase::Stopped => Action::Stopped,
        }
    }

    /// True when every entry was processed.
    pub fn is_finished(&self) -> (b: bool)
        ensures
            b == (self.phase == Phase::Finished),
    {
        self.phase == Phase::Finished
    }

    /// True when the run aborted on a database error.
    pub fn is_stopped(&self) -> (b: bool)
        ensures
            b == (self.phase == Phase::Stopped),
    {
        self.phase == Phase::Stopped
    }
}

impl Migration {
    /// Starts an `up` run over `scripts`: the ledger table is ensured,
    /// then each entry whose name is absent from the ledger has its script
    /// executed and its name inserted, in list order; entries whose names
    /// are present are skipped entirely.
    pub fn up(&self, scripts: &Vec<(String, String)>) -> (r: Run)
        ensures
            r == (Run { dir: Direction::Up, n: scripts@.len() as usize, i: 0, phase: Phase::Ensure }),
            r.wf(),
    {
        Run { dir: Direction::Up, n: scripts.len(), i: 0, phase: Phase::Ensure }
    }

    /// Starts a `down` run over `scripts`: the ledger table is ensured,
    /// then each entry whose name is present in the ledger has its script
    /// executed and its name deleted, in list order (callers pass a
    /// reverse-dependency order; the list is not reversed here); entries
    /// whose names are absent are skipped entirely.
    pub fn down(&self, scripts: &Vec<(String, String)>) -> (r: Run)
        ensures
            r == (Run { dir: Direction::Down, n: scripts@.len() as usize, i: 0, phase: Phase::Ensure }),
            r.wf(),
    {
        Run { dir: Direction::Down, n: scripts.len(), i: 0, phase: Phase::Ensure }
    }
}

} // verus!
