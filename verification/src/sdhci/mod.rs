//! The SDIO host controller driver.
//!
//! Every operation is a resumable [`task::Task`]: it says which register access,
//! pause or yield it needs next and is resumed with the outcome. A task is a
//! stack of [`frame::Frame`]s, one for each operation in progress, the innermost
//! on top.

pub mod access;
pub mod bounds;
pub mod buffer;
pub mod card;
pub mod clock;
pub mod command;
pub mod config;
pub mod fifo_run;
pub mod frame;
pub mod host;
pub mod init;
pub mod init_run;
pub mod memory;
pub mod port;
pub mod run;
pub mod stale;
pub mod task;
pub mod task_run;
pub mod transfer;
pub mod wait;
pub mod wire;
