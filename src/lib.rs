//! Named environments of applications: the data model, edits to it, validation
//! reports and launch plans. Everything that touches the host (processes, files,
//! the terminal) is left to the caller, which hands in plain facts such as
//! "this application is running" and carries out the returned plan.

pub mod app_ref;
pub mod config;
pub mod editor;
pub mod launcher;
pub mod validator;
