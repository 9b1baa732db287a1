//! The user interface, apart from what draws it: what each of the user's
//! actions and each of signaling's events does.

pub mod app;
pub mod book_laws;
pub mod call_laws;
pub mod calls;
pub mod contacts;
pub mod dialer;
pub mod dialing;
pub mod effect;
pub mod form_laws;
pub mod forms;
pub mod history;
pub mod in_call;
pub mod label_laws;
pub mod labels;
pub mod laws;
pub mod line_laws;
pub mod lines;
pub mod message;
pub mod session;
pub mod settings;
pub mod startup;
pub mod update;
