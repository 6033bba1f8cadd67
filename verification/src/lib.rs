//! Unix platform layer of a terminal multiplexer: foreground-job discovery, desktop helpers,
//! shell command lines and configuration staging, as decisions over plain values.
//!
//! Nothing here performs I/O. A function that needs the outside world either takes what was read,
//! takes a closure that reads, or is a step of a state machine that names the next outside action.
pub mod freebsd;
pub mod process;
pub mod shell;
pub mod sys;
pub mod text;
pub mod linux;
pub mod unix_desktop;
