//! The logic of a minimal bare-metal console: a text-mode display, a
//! diagnostic byte channel, the fault policy, the test harness and the
//! start-up sequence, each as a verified state machine over plain values.
//! The surrounding program performs the hardware operations they decide on.

pub mod color;
pub mod display;
pub mod display_laws;
pub mod ports;
pub mod text;
pub mod panic_policy;
pub mod harness;
pub mod boot;
pub mod run_laws;
