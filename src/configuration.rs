use vstd::prelude::*;

verus! {

/// The settings as the configuration file holds them: numbers are not yet
/// checked against the ranges the server can use.
pub struct ConfigRecord {
    pub data_location: String,
    pub network_port: i64,
    pub debug_mode: bool,
    pub max_request_cache_count: i64,
    pub request_validation_token: String,
}

/// The settings a session runs with, read once at startup.
pub struct Configuration {
    pub data_location: String,
    pub network_port: u16,
    pub debug_mode: bool,
    pub max_request_cache_count: u32,
    pub request_validation_token: String,
}

/// Why a configuration record cannot be used.
#[derive(Clone, Copy, Debug, PartialEq, Eq, Structural)]
pub enum ConfigError {
    /// The port is not in `0..=65535`.
    PortOutOfRange,
    /// The cache capacity is not in `0..=u32::MAX`.
    CapacityOutOfRange,
}

pub open spec fn port_in_range(p: i64) -> bool {
    0 <= p <= u16::MAX
}

pub open spec fn capacity_in_range(c: i64) -> bool {
    0 <= c <= u32::MAX
}

/// A configuration holds exactly what a record says.
pub open spec fn config_matches(c: Configuration, r: ConfigRecord) -> bool {
    &&& c.data_location@ == r.data_location@
    &&& c.network_port as int == r.network_port as int
    &&& c.debug_mode == r.debug_mode
    &&& c.max_request_cache_count as int == r.max_request_cache_count as int
    &&& c.request_validation_token@ == r.request_validation_token@
}

impl Configuration {
    /// Turns a record read from the configuration file into settings,
    /// rejecting a port or a capacity out of range.
    pub fn load(record: ConfigRecord) -> (r: Result<Configuration, ConfigError>)
        ensures
            !port_in_range(record.network_port) ==> r == Err::<Configuration, ConfigError>(ConfigError::PortOutOfRange),
            port_in_range(record.network_port) && !capacity_in_range(record.max_request_cache_count)
                ==> r == Err::<Configuration, ConfigError>(ConfigError::CapacityOutOfRange),
            port_in_range(record.network_port) && capacity_in_range(record.max_request_cache_count)
                ==> r is Ok && config_matches(r->Ok_0, record),
    {
        if record.network_port < 0 || record.network_port > 65535 {
            return Err(ConfigError::PortOutOfRange);
        }
        if record.max_request_cache_count < 0 || record.max_request_cache_count > 4294967295 {
            return Err(ConfigError::CapacityOutOfRange);
        }
        Ok(Configuration {
            data_location: record.data_location,
            network_port: record.network_port as u16,
            debug_mode: record.debug_mode,
            max_request_cache_count: record.max_request_cache_count as u32,
            request_validation_token: record.request_validation_token,
        })
    }

    /// The record that the configuration file holds for these settings.
    pub fn save_config(conf: &Configuration) -> (r: ConfigRecord)
        ensures
            config_matches(*conf, r),
    {
        ConfigRecord {
            data_location: conf.data_location.clone(),
            network_port: conf.network_port as i64,
            debug_mode: conf.debug_mode,
            max_request_cache_count: conf.max_request_cache_count as i64,
            request_validation_token: conf.request_validation_token.clone(),
        }
    }
}

/// Two configurations hold the same settings.
pub open spec fn same_settings(a: Configuration, b: Configuration) -> bool {
    &&& a.data_location@ == b.data_location@
    &&& a.network_port == b.network_port
    &&& a.debug_mode == b.debug_mode
    &&& a.max_request_cache_count == b.max_request_cache_count
    &&& a.request_validation_token@ == b.request_validation_token@
}

/// Loading the record that settings were saved as succeeds, and gives the
/// same settings back.
pub proof fn lemma_save_then_load(c: Configuration, r: ConfigRecord)
    requires
        config_matches(c, r),
    ensures
        port_in_range(r.network_port),
        capacity_in_range(r.max_request_cache_count),
        forall|d: Configuration| config_matches(d, r) ==> same_settings(d, c),
{
}

} // verus!
