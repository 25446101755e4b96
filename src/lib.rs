//! Interactive process execution: the decisions of a pseudo-terminal session,
//! stated and proved; the terminal, the threads and the processes themselves
//! are driven from outside this library.

pub mod cancel;
pub mod control;
pub mod process;
pub mod run_loop;
pub mod session;
pub mod utf8;
