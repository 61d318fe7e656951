//! Verified core of the Daly BMS / RS485 toolkit: Daly UART frames, Modbus RTU
//! framing, answer decoding and the decisions of the polling and bridge loops.

pub mod error;
pub mod protocol;
pub mod modbus;
pub mod types;
pub mod text;
pub mod commands;
pub mod bus;
pub mod write;
pub mod poll;
pub mod alerts;
pub mod chint;
pub mod venus;
pub mod cli;
pub mod store;
pub mod config;
pub mod payload;
pub mod dashboard;
pub mod api;
pub mod tasmota;
pub mod topics;
pub mod startup;
pub mod influx;
pub mod meters;
