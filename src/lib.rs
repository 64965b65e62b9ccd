//! Watch-debounce-deliver pipeline of a file-sync agent: the decisions that
//! turn settled filesystem change batches into uploads, with their contracts.
//!
//! The filesystem watcher, the debouncer, the HTTP transport and logging are
//! driven by the application around this library; everything that decides
//! what is sent, where, and how a response is classified lives here.
pub mod filter;
pub mod route;
pub mod event;
pub mod upload;
