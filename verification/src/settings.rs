//! The replication worker's connection settings: what it needs to reach
//! the database it mirrors the ledgers into, and where it left off.

use vstd::prelude::*;

verus! {

/// Connection parameters of the replication database.
pub struct Database {
    pub host: String,
    pub user: String,
    pub password: String,
    pub db_name: String,
}

/// The replication worker's settings file: the identity it signs with,
/// its database, and the last update it has applied.
pub struct Settings {
    pub dfx_pem_file: String,
    pub database: Database,
    pub last_update_id: u64,
}

impl Settings {
    /// The same settings advanced past an applied update.
    pub fn with_last_update_id(self, last_update_id: u64) -> (r: Settings)
        ensures
            r.last_update_id == last_update_id,
            r.dfx_pem_file@ == self.dfx_pem_file@,
            r.database.host@ == self.database.host@,
            r.database.user@ == self.database.user@,
            r.database.password@ == self.database.password@,
            r.database.db_name@ == self.database.db_name@,
    {
        Settings { last_update_id, ..self }
    }
}

} // verus!
