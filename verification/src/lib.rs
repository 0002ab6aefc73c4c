//! Verified core of a Modbus field-device simulator.
//!
//! One document describes one device: its register map, protocol bindings,
//! and bundled scenarios. The modules below hold the word encoding, the
//! in-memory register bank, the Modbus request dispatcher, and the rules a
//! device document must satisfy.

pub mod types;
pub mod ieee;
pub mod text;
pub mod scenario;
pub mod behavior;
pub mod export;
pub mod device;
pub mod validate;
pub mod message;
pub mod lift;
pub mod load;
pub mod runner;
pub mod control;
pub mod ctl;
pub mod listen;
pub mod report;
pub mod seed;
pub mod engine;
pub mod bacnet;
pub mod opcua;
pub mod encode;
pub mod bank;
pub mod modbus;
