//! Test runs of messages through programs, without a node.
//!
//! A [`manager::ExtManager`] holds actors and routes messages to them. An actor runs either a
//! WebAssembly program or a mock. A run starts with [`manager::ExtManager::start_run`], goes on
//! with [`manager::ExtManager::run_step`] until nothing is left to handle, and ends with
//! [`manager::ExtManager::finish_run`]. Where a step asks for the run of a WebAssembly program, the
//! caller runs it and hands every note of its journal to
//! [`manager::ExtManager::handle_note`].
//!
//! [`state::State`] says what the manager holds, and what each event does to it. The laws that
//! hold of the manager as a whole are in [`laws`], those of each event in [`effects`], those of
//! messages, programs and actors by themselves in [`data_laws`], and those of every call of an
//! operation in [`operations`].
//!
//! A [`sandbox::Sandbox`] runs WebAssembly code by itself, for benchmarks.
pub mod actor;
pub mod data_laws;
pub mod effects;
pub mod ids;
pub mod journal;
pub mod laws;
pub mod manager;
pub mod maps;
pub mod message;
pub mod operations;
pub mod program;
pub mod sandbox;
pub mod state;
