//! The byte budget of every field of a record, and the capacity of a storage slot.

use vstd::prelude::*;

verus! {

/// Bytes of the tag that opens every stored record.
pub const HEADER_LEN: usize = 8;

/// Bytes of an identity key.
pub const KEY_LEN: usize = 32;

/// Bytes of the length prefix in front of a text or a list.
pub const PREFIX_LEN: usize = 4;

pub const MAX_DIGITAL_ID_LEN: usize = 50;

pub const MAX_NAME_LEN: usize = 100;

pub const MAX_GENDER_LEN: usize = 10;

pub const MAX_ID_NUMBER_HASH_LEN: usize = 64;

pub const MAX_PHONE_LEN: usize = 20;

pub const MAX_NATIONALITY_LEN: usize = 50;

pub const MAX_EMAIL_LEN: usize = 100;

pub const MAX_PURPOSE_LEN: usize = 200;

pub const MAX_ACCOMMODATION_LEN: usize = 300;

pub const MAX_ITINERARY_LEN: usize = 1000;

pub const MAX_RELATIONSHIP_LEN: usize = 50;

pub const MAX_EMERGENCY_CONTACTS: usize = 5;

pub const MIN_AGE: u8 = 1;

pub const MAX_AGE: u8 = 120;

/// The only schema version that is written.
pub const SCHEMA_VERSION: u8 = 1;

/// Most bytes that one emergency contact takes in a slot: three prefixed texts.
pub const MAX_CONTACT_SPACE: usize = (4 + 100) + (4 + 50) + (4 + 20);

/// Bytes that a storage slot reserves: the header and every field at its widest, with
/// each optional field present and the contact list full.
pub const SPACE: usize = 8  // header
    + 32  // authority
    + (4 + 50)  // digital_id
    + (4 + 100)  // name
    + (4 + 10)  // gender
    + 1  // age
    + (4 + 64)  // id_number_hash
    + (4 + 20)  // phone
    + (4 + 50)  // nationality
    + (1 + 4 + 100)  // email
    + 8  // registration_timestamp
    + 8  // blockchain_timestamp
    + 8  // slot
    + 1  // is_active
    + 1  // version
    + (1 + 8)  // trip_start_date
    + (1 + 8)  // trip_end_date
    + (1 + 4 + 200)  // purpose
    + (1 + 4 + 300)  // accommodation
    + (1 + 4 + 1000)  // itinerary
    + (4 + 5 * 182)  // emergency_contacts
    + 8  // trip_updated_timestamp
    + (1 + 8);  // deactivation_timestamp

} // verus!
