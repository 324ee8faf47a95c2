//! Mirrors an organisation's TruckersMP events into a Discord server's
//! scheduled events: which listed events are new, and what each new
//! scheduled event holds.
pub mod describe;
pub mod marker;
pub mod schedule;
pub mod source;
pub mod text;
pub mod tmp_response;
