//! Command execution, scout streaming and state-history persistence for a
//! fleet controller, with the decisions of each proved against its contract.

pub mod backoff;
pub mod cmd;
pub mod connections;
pub mod db;
pub mod dpa_interface_state_history;
pub mod exec;
pub mod flow_tables;
pub mod host_logging;
pub mod http_reply;
pub mod ib_membership_cleanup_intent;
pub mod ib_partition_state_history;
pub mod ids;
pub mod io_error;
pub mod log_connections;
pub mod log_pages;
pub mod log_tail;
pub mod mlx_executor;
pub mod network_segment_state_history;
pub mod process;
pub mod registry;
pub mod relay;
pub mod run;
pub mod scout;
pub mod text;
pub mod time;
pub mod wire;
