//! A single-owner tourist registry: one record per (owner, digital id), kept in a
//! fixed-capacity storage slot, created once, updated with trip details and
//! deactivated by its owner only.

pub mod account;
pub mod address;
pub mod codec;
pub mod codec_proofs;
pub mod error;
pub mod limits;
pub mod registry;
pub mod registry_proofs;
pub mod store;
pub mod wire;

pub use account::{
    Clock, EmergencyContact, EmergencyContactView, Pubkey, TouristAccount, TouristAccountView,
};
pub use address::{address_matches, derive_key, is_record_address};
pub use error::ErrorCode;
pub use limits::SPACE;
pub use registry::{
    deactivate_tourist, get_tourist_data, register_tourist, update_trip_details, DeactivateTourist,
    GetTouristData, RegisterTourist, UpdateTripDetails,
};
pub use store::{create, deactivate, read, update_trip};
