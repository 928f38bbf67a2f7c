//! What the library promises as a whole: laws that relate what goes in to what comes out.
//!
//! Each law is a proof function. It speaks of all inputs, and of the results by what they hold.

pub mod conversation;
pub mod dependencies;
pub mod interfaces;
pub mod loaders;
pub mod packs;
pub mod parts;
pub mod records;
pub mod repairs;
pub mod reports;
pub mod requests;
pub mod search;
pub mod steps;
pub mod taste;
pub mod texts;
pub mod turns;
pub mod values;
