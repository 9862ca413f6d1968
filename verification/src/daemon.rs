//! The resident daemon: what it decides, apart from the threads and devices it decides for.
pub mod dispatch;
pub mod notice;
pub mod recovery;
pub mod worker;
pub mod settings;
pub mod control;
