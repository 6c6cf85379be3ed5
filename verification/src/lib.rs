//! A verification registry: an authority opens a named event, wallets
//! register entries against it, and the authority marks each entry valid or
//! invalid until, and after, the event is closed to new registrations.
//!
//! Records live at addresses derived from their logical key, so that one
//! event exists per event id and one entry per (event, wallet) pair.

pub mod address;
pub mod context;
pub mod error;
pub mod guards;
pub mod laws;
pub mod operations;
pub mod processor;
pub mod registry;
pub mod state;

pub use address::Address;
pub use context::{CloseEvent, InitializeEvent, MarkInvalid, MarkValid, RegisterWallet};
pub use error::ErrorCode;
pub use operations::{close_event, initialize_event, mark_invalid, mark_valid, register_wallet};
pub use processor::{process, Instruction};
pub use registry::Registry;
pub use state::{EntryState, EventState, Requirement};
