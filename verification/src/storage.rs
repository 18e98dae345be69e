//! The kind of database backing the storage layer. The connection pool
//! itself is I/O and lives outside this library; the kind tag decides which
//! configurator and SQL dialect the rest of the program uses.

use vstd::prelude::*;

verus! {

#[derive(Clone, Copy, Debug, Eq, PartialEq, Structural)]
pub enum StorageKind {
    Sqlite,
    Postgres,
}

impl StorageKind {
    pub fn is_sqlite(self) -> (r: bool)
        ensures
            r == (self is Sqlite),
    {
        match self {
            StorageKind::Sqlite => true,
            StorageKind::Postgres => false,
        }
    }

    pub fn is_postgres(self) -> (r: bool)
        ensures
            r == (self is Postgres),
    {
        match self {
            StorageKind::Sqlite => false,
            StorageKind::Postgres => true,
        }
    }
}

} // verus!
