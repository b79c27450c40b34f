use vstd::prelude::*;

verus! {

/// Where and how much the server logs.
pub struct LoggingConfig {
    pub level: String,
    pub file_path: String,
}

impl LoggingConfig {
    /// Level `info`, into `logs/app.log`.
    pub fn default_config() -> (c: LoggingConfig)
        ensures
            c.level@ == "info"@,
            c.file_path@ == "logs/app.log"@,
    {
        LoggingConfig { level: String::from_str("info"), file_path: String::from_str("logs/app.log") }
    }
}

/// The path of the configuration file.
pub fn get_config_path() -> (r: String)
    ensures
        r@ == "config/config.json"@,
{
    String::from_str("config/config.json")
}

} // verus!
