//! Configuration records of a twenty-button gaming mouse: their byte layout
//! on the wire, the transforms that make a record fit for upload, and the
//! sparse editable form of the same data.
//!
//! The mouse keeps three profiles, each a record of 154 bytes that is read
//! and written as a feature report, and a control value of four bytes that
//! selects the active profile and resolution. This crate turns such bytes
//! into values and back, and values into the form that a person edits and
//! back. It performs no input or output: the caller moves the bytes.

pub mod action;
pub mod active;
pub mod button;
pub mod color;
pub mod dpi;
pub mod error;
pub mod hexstr;
pub mod human;
pub mod led;
pub mod modifier;
pub mod profile;
pub mod profiles;
pub mod profilesio;

pub use crate::action::ButtonAction;
pub use crate::active::{ActiveProfile, ACTIVE_PROFILE_REPORT_ID, ACTIVE_PROFILE_SIZE};
pub use crate::button::{Button, HumanButton};
pub use crate::color::Color;
pub use crate::dpi::Dpi;
pub use crate::error::CodecError;
pub use crate::led::{LedEffect, ReportRate};
pub use crate::modifier::{Modifier, Modifiers};
pub use crate::human::HumanProfile;
pub use crate::profile::{Profile, NUM_BUTTONS, NUM_DPI, PROFILE_SIZE};
pub use crate::profiles::{HumanProfiles, Profiles};
pub use crate::profiles::{NUM_PROFILES, PROFILES_SIZE, PROFILE_REPORT_ID};
pub use crate::profilesio::ProfilesDump;
