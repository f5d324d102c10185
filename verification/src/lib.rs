//! The decisions of a PAM module that mounts the gocryptfs file system of a user
//! when a session opens, unmounts it when the session closes, and keeps its
//! passphrase in step with the password of the user.
//!
//! Nothing here touches the system. Each hook of the module is a run that asks
//! for one step at a time and is told what came of it.

pub mod change;
pub mod config;
pub mod expand;
pub mod files;
pub mod hooks;
pub mod mount;
pub mod mounts;
pub mod notice;
pub mod outside;
pub mod password;
pub mod path;
pub mod privileges;
pub mod text;
pub mod user;
pub mod wait;
