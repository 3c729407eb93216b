//! Decision logic of a terminal dashboard for hardware sensors.
//!
//! The crate holds everything the dashboard computes: the telemetry table that
//! the poller writes ([`table`]), the grouping of a snapshot into bar charts
//! with their scale ceilings ([`chart`]), the frame handed to the terminal
//! toolkit ([`frame`]), the events and the key listener ([`event`]), and the
//! state machine of the event loop ([`renderer`]). Threads, channels and the
//! terminal itself belong to the program built around it.

pub mod chart;
pub mod event;
pub mod frame;
pub mod renderer;
pub mod sensor;
pub mod table;
