//! The verified core of an environmental sensor node: the line-protocol encoder, the readings
//! bus and the decisions of the delivery and display loops.

pub mod bus;
pub mod config;
pub mod decimal;
pub mod delivery;
pub mod display;
pub mod encoder;
pub mod http_compat;
pub mod influx;
pub mod line_proto;
pub mod producer;
pub mod reading;
pub mod sink;
pub mod wifi;
