//! Request dispatch logic for the weaver daemon.
#![allow(unused_imports)]

pub mod backend_manager;
pub mod errors;
pub mod handler;
pub mod health;
pub mod json;
pub mod num;
pub mod observe;
pub mod path_text;
pub mod reader;
pub mod refactor;
pub mod request;
pub mod response;
pub mod router;
pub mod structured_event;
pub mod text;
