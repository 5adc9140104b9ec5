//! What the application found when it opened its configuration and its
//! database.

use vstd::prelude::*;

verus! {

/// State of the configuration file.
#[derive(Debug)]
pub enum ConfigHealth {
    Healthy,
    Error { backup_path: Option<String>, message: String },
}

/// State of the database file.
#[derive(Debug)]
pub enum DatabaseHealth {
    Healthy,
    Error { backup_path: Option<String>, message: String, using_fallback: bool },
}

/// Both findings together.
#[derive(Debug)]
pub struct SystemHealth {
    pub config_health: ConfigHealth,
    pub database_health: DatabaseHealth,
}

impl SystemHealth {
    pub fn new(config_health: ConfigHealth, database_health: DatabaseHealth) -> (r: SystemHealth)
        ensures
            r.config_health == config_health,
            r.database_health == database_health,
    {
        SystemHealth { config_health, database_health }
    }
}

} // verus!
