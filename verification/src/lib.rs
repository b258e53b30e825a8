//! A verified schema-migration library.
//!
//! A `Migration` value names a ledger table that records which migration
//! scripts have been applied. The library decides, for an ordered list of
//! named scripts, which ones to run and in what order; the database calls
//! themselves are performed by the caller, driven by the state machine in
//! [`run`].

use vstd::prelude::*;

pub mod bridge;
pub mod ident;
pub mod model;
pub mod run;
pub mod sql;

verus! {

/// Configuration for one migration run: the name of the ledger table.
pub struct Migration {
    tablename: String,
}

impl Migration {
    /// The ledger table name, as a sequence of characters.
    pub closed spec fn table(&self) -> Seq<char> {
        self.tablename@
    }

    /// A `Migration` is well formed when its table name is a valid SQL
    /// identifier, so that interpolating it into query text is safe.
    pub open spec fn wf(&self) -> bool {
        ident::valid_table_name(self.table())
    }

    /// Builds the configuration. The table name must be a valid identifier;
    /// callers holding an unchecked string test it with
    /// [`ident::check_table_name`] first.
    pub fn new(tablename: String) -> (r: Self)
        requires
            ident::valid_table_name(tablename@),
        ensures
            r.table() == tablename@,
            r.wf(),
    {
        Self { tablename }
    }

    /// The ledger table name as a string slice.
    pub fn table_str(&self) -> (r: &str)
        ensures
            r@ == self.table(),
    {
        self.tablename.as_str()
    }
}

} // verus!
