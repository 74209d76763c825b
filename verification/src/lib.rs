//! Protocol, job and session logic of a remote command execution agent.
//!
//! The crate holds the decisions of the agent: how frames are laid out, which job may change to
//! which state, when output may be sent, what a request is answered. Reading pipes, starting
//! processes and waiting are left to the program around it, which hands events in and performs
//! the actions it gets back.
pub mod byte_buf;
pub mod cancellation;
pub mod client_session;
pub mod error;
pub mod file_ipc;
pub mod io_pump;
pub mod job_manager;
pub mod job_run;
pub mod job_table;
pub mod logger;
pub mod message;
pub mod pipe_io;
pub mod pipe_server;
pub mod process_launcher;
pub mod protocol;
pub mod service_host;
pub mod string_map;
pub mod text;
pub mod wide;

pub use error::Error;
