//! Logic of a cloud API gateway that serves a sandbox and volume contract on top of a local
//! runtime.
pub mod auth;
pub mod backend;
pub mod cloud;
pub mod convert;
pub mod error;
pub mod exec;
pub mod files;
pub mod lifecycle;
pub mod listing;
pub mod logs;
pub mod runtime;
pub mod seqs;
pub mod string_map;
pub mod text;
pub mod time;
