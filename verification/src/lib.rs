//! A small high-level synthesis library: a dataflow graph of integer
//! operations is scheduled into pipeline stages under resource budgets and
//! emitted as a clocked register-transfer-level module with a
//! start/done/idle/ready handshake.

pub mod ast;
pub mod graph;
pub mod hls;
pub mod lower;
pub mod market_data;
pub mod pipeline;
pub mod pipeline_integration;
pub mod sim;
pub mod text;
pub mod verilog;
pub mod zero_plus;
