//! The query texts issued against the database.
//!
//! Each builder returns exactly the text its specification names: the table
//! name is interpolated (a valid identifier by [`crate::Migration::wf`]),
//! the migration name is always handed over as a bound parameter, never
//! spliced into the text.

use vstd::prelude::*;
use vstd::string::*;
use crate::Migration;

verus! {

/// The idempotent ledger-table creation statement for table `t`.
pub open spec fn create_table_sql_spec(t: Seq<char>) -> Seq<char> {
    "CREATE TABLE IF NOT EXISTS "@ + t
        + " ( name TEXT NOT NULL PRIMARY KEY, executed_at TIMESTAMP NOT NULL DEFAULT NOW() )"@
}

/// The parameterized ledger insert for table `t`.
pub open spec fn insert_sql_spec(t: Seq<char>) -> Seq<char> {
    "INSERT INTO "@ + t + " (name) VALUES ($1)"@
}

/// The parameterized ledger delete for table `t`.
pub open spec fn delete_sql_spec(t: Seq<char>) -> Seq<char> {
    "DELETE FROM "@ + t + " WHERE name = $1"@
}

/// The parameterized existence count query for table `t`.
pub open spec fn exists_sql_spec(t: Seq<char>) -> Seq<char> {
    "SELECT COUNT(*) FROM "@ + t + " WHERE name = $1"@
}

impl Migration {
    /// Text that creates the two-column ledger table when it is absent.
    pub fn create_table_sql(&self) -> (r: String)
        ensures
            r@ == create_table_sql_spec(self.table()),
    {
        let mut q = String::from_str("CREATE TABLE IF NOT EXISTS ");
        q.append(self.table_str());
        q.append(" ( name TEXT NOT NULL PRIMARY KEY, executed_at TIMESTAMP NOT NULL DEFAULT NOW() )");
        q
    }

    /// Text that records one applied migration name (the sole parameter).
    pub fn insert_sql(&self) -> (r: String)
        ensures
            r@ == insert_sql_spec(self.table()),
    {
        let mut q = String::from_str("INSERT INTO ");
        q.append(self.table_str());
        q.append(" (name) VALUES ($1)");
        q
    }

    /// Text that removes one migration name (the sole parameter).
    pub fn delete_sql(&self) -> (r: String)
        ensures
            r@ == delete_sql_spec(self.table()),
    {
        let mut q = String::from_str("DELETE FROM ");
        q.append(self.table_str());
        q.append(" WHERE name = $1");
        q
    }

    /// Text that counts ledger rows carrying one name (the sole parameter).
    pub fn exists_sql(&self) -> (r: String)
        ensures
            r@ == exists_sql_spec(self.table()),
    {
        let mut q = String::from_str("SELECT COUNT(*) FROM ");
        q.append(self.table_str());
        q.append(" WHERE name = $1");
        q
    }
}

/// Reads the single count returned by the existence query: a name is
/// present exactly when its row count is positive.
pub fn present_from_count(count: i64) -> (b: bool)
    ensures
        b == (count > 0),
{
    count > 0
}

} // verus!
