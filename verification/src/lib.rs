//! Verified behavior core of a Local + SFTP file-transfer client.

pub mod text;
pub mod domain;
pub mod backend;
pub mod job;
pub mod cancel;
pub mod transfer;
pub mod tree;
pub mod decisions;
pub mod operations;
pub mod scheduler;
pub mod file_ops;
pub mod recovery;
pub mod messages;
pub mod reliability;
pub mod runtime;
pub mod rules;
pub mod paths;
pub mod sync_plan;
pub mod sync;
pub mod remote_edit;
pub mod history;
pub mod application;
pub mod preferences;
pub mod profiles;
pub mod trust;
pub mod secrets;
pub mod ssh;
pub mod sftp;
pub mod cli;
pub mod connection;
pub mod display;
pub mod copy_flow;
pub mod servers;
pub mod permissions;
pub mod sync_view;
