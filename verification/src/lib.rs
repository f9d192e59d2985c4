use vstd::prelude::*;

pub mod text;
pub mod schedule;
pub mod output;
pub mod capture;
pub mod config;
pub mod retry;
pub mod windows_text;
pub mod task_scheduler;
pub mod launch;
pub mod server_chan;
pub mod notifications;
pub mod credentials;
pub mod email;
pub mod run_manager;
pub mod snapshot;
pub mod status_store;
pub mod app_storage;

verus! {

} // verus!
