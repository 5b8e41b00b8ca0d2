//! The settings of the node.

use vstd::prelude::*;

verus! {

/// The settings that the node starts with. They do not change while it runs.
#[derive(Debug, Clone, Copy)]
pub struct Config {
    /// The name of the wireless network.
    pub ssid: &'static str,
    /// The password of the wireless network.
    pub password: &'static str,
    /// The address of the database.
    pub addr: &'static str,
    /// The token that authorizes writes to the database.
    pub influx_token: &'static str,
    /// The organisation to write to.
    pub influx_org: &'static str,
    /// The bucket to write to.
    pub influx_bucket: &'static str,
    /// The seconds between two reads of the sensor.
    pub read_sensor_interval_secs: u32,
}

impl Default for Config {
    /// The settings of a node that was not set up yet: every text asks to be changed, and the
    /// sensor is read every 30 seconds.
    fn default() -> (config: Config)
        ensures
            config.ssid@ == "<CHANGEME>"@,
            config.password@ == "<CHANGEME>"@,
            config.addr@ == "<CHANGEME>"@,
            config.influx_token@ == "<CHANGEME>"@,
            config.influx_org@ == "<CHANGEME>"@,
            config.influx_bucket@ == "<CHANGEME>"@,
            config.read_sensor_interval_secs == 30,
    {
        Config {
            ssid: "<CHANGEME>",
            password: "<CHANGEME>",
            addr: "<CHANGEME>",
            influx_token: "<CHANGEME>",
            influx_org: "<CHANGEME>",
            influx_bucket: "<CHANGEME>",
            read_sensor_interval_secs: 30,
        }
    }
}

} // verus!
