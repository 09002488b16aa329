//! MQTT 5 control packets: wire-format codecs with verified contracts.
pub mod codec;
pub mod raft;
pub mod broker;
pub mod borrowed;
pub mod connect_defaults;
