//! A points ledger for an educational rewards platform, with its satellite
//! record keepers: achievement badges, redemption records and an institution
//! registry with exchange rates.
//!
//! The host environment (storage, signature checks, the ledger clock and the
//! event stream) is not ambient here: each contract is a value that owns its
//! state, and each operation receives an [`Env`] describing the ledger it runs
//! in and the accounts whose authentication the host has confirmed.
mod assoc;
pub mod badges;
pub mod env;
pub mod error;
pub mod hub;
pub mod ledger;
pub mod points;
pub mod redemption;

pub use badges::{AchievementBadges, BadgeData};
pub use env::{Address, Env};
pub use error::Error;
pub use hub::{Institution, InstitutionHub, RateKey, Registry};
pub use ledger::{AllowanceKey, AllowanceValue, Event, Ledger};
pub use points::SchoolPoints;
pub use redemption::{RedemptionRecord, RedemptionRecords};
