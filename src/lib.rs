//! Turns Windows event log records into Common Event Format lines.

pub mod assoc;
pub mod builtin;
pub mod cef;
pub mod codes;
pub mod event;
pub mod fields;
pub mod mapping;
pub mod rules;
pub mod slots;
pub mod text;

pub use cef::ToCEF;
pub use event::Event;
pub use mapping::{load_mapping, EventMappingGetters, WinEvent};
