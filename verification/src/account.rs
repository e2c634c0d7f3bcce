//! The record, its parts, and their mathematical views.

use crate::limits::{
    MAX_ACCOMMODATION_LEN, MAX_AGE, MAX_DIGITAL_ID_LEN, MAX_EMAIL_LEN, MAX_EMERGENCY_CONTACTS,
    MAX_GENDER_LEN, MAX_ID_NUMBER_HASH_LEN, MAX_ITINERARY_LEN, MAX_NAME_LEN, MAX_NATIONALITY_LEN,
    MAX_PHONE_LEN, MAX_PURPOSE_LEN, MAX_RELATIONSHIP_LEN, MIN_AGE, SCHEMA_VERSION,
};
use vstd::prelude::*;
use vstd::utf8::encode_utf8;

verus! {

/// The number of bytes that a text takes when written as UTF-8.
pub open spec fn byte_len(text: Seq<char>) -> nat {
    encode_utf8(text).len()
}

/// Whether an optional text, where present, takes at most `max` bytes.
pub open spec fn opt_byte_len_within(text: Option<Seq<char>>, max: nat) -> bool {
    match text {
        Some(t) => byte_len(t) <= max,
        None => true,
    }
}

/// The view of an optional text.
pub open spec fn opt_text_view(text: Option<String>) -> Option<Seq<char>> {
    match text {
        Some(t) => Some(t@),
        None => None,
    }
}

/// An identity key of 32 bytes. The caller's key has been authenticated by the host
/// before it reaches this library.
#[derive(Clone, Copy, Debug, PartialEq, Eq)]
pub struct Pubkey {
    pub bytes: [u8; 32],
}

impl View for Pubkey {
    type V = Seq<u8>;

    open spec fn view(&self) -> Seq<u8> {
        self.bytes@
    }
}

impl Pubkey {
    pub fn new(bytes: [u8; 32]) -> (key: Pubkey)
        ensures
            key@ == bytes@,
            key.bytes == bytes,
    {
        Pubkey { bytes }
    }

    pub fn to_bytes(&self) -> (bytes: [u8; 32])
        ensures
            bytes@ == self@,
    {
        self.bytes
    }

    /// Whether two keys hold the same 32 bytes.
    pub fn same_as(&self, other: &Pubkey) -> (same: bool)
        ensures
            same == (self@ == other@),
    {
        let mut i: usize = 0;
        while i < 32
            invariant
                i <= 32,
                forall|j: int| 0 <= j < i ==> self.bytes@[j] == other.bytes@[j],
            decreases 32 - i,
        {
            if self.bytes[i] != other.bytes[i] {
                return false;
            }
            i += 1;
        }
        assert(self@ =~= other@);
        true
    }
}

/// A reading of the host's trusted clock.
#[derive(Clone, Copy, Debug, PartialEq, Eq)]
pub struct Clock {
    /// The current trusted time, in seconds.
    pub unix_timestamp: i64,
    /// The host's monotonic commit counter.
    pub slot: u64,
}

/// A person to reach in an emergency; lives only inside a record's trip details.
#[derive(Clone, Debug, PartialEq, Eq)]
pub struct EmergencyContact {
    pub name: String,
    pub relationship: String,
    pub phone: String,
}

pub ghost struct EmergencyContactView {
    pub name: Seq<char>,
    pub relationship: Seq<char>,
    pub phone: Seq<char>,
}

impl View for EmergencyContact {
    type V = EmergencyContactView;

    open spec fn view(&self) -> EmergencyContactView {
        EmergencyContactView { name: self.name@, relationship: self.relationship@, phone: self.phone@ }
    }
}

impl EmergencyContactView {
    /// Every text of the contact is within its byte budget.
    pub open spec fn within_limits(self) -> bool {
        &&& byte_len(self.name) <= MAX_NAME_LEN
        &&& byte_len(self.relationship) <= MAX_RELATIONSHIP_LEN
        &&& byte_len(self.phone) <= MAX_PHONE_LEN
    }
}

/// The views of a list of contacts, in order.
pub open spec fn contacts_view(contacts: Seq<EmergencyContact>) -> Seq<EmergencyContactView> {
    Seq::new(contacts.len(), |i: int| contacts[i]@)
}

/// The record of one tourist. `authority` and `digital_id` identify it and never change.
#[derive(Clone, Debug, PartialEq, Eq)]
pub struct TouristAccount {
    pub authority: Pubkey,
    pub digital_id: String,
    pub name: String,
    pub gender: String,
    pub age: u8,
    /// A digest of the identity document; the document itself is kept elsewhere.
    pub id_number_hash: String,
    pub phone: String,
    pub nationality: String,
    pub email: Option<String>,
    /// The time the caller gave at registration.
    pub registration_timestamp: i64,
    /// The trusted time at registration.
    pub blockchain_timestamp: i64,
    /// The host's commit counter at registration.
    pub slot: u64,
    pub is_active: bool,
    pub version: u8,
    pub trip_start_date: Option<i64>,
    pub trip_end_date: Option<i64>,
    pub purpose: Option<String>,
    pub accommodation: Option<String>,
    pub itinerary: Option<String>,
    pub emergency_contacts: Vec<EmergencyContact>,
    /// The trusted time of the last update of the trip details; 0 before the first.
    pub trip_updated_timestamp: i64,
    /// The trusted time of deactivation, once deactivated.
    pub deactivation_timestamp: Option<i64>,
}

pub ghost struct TouristAccountView {
    pub authority: Seq<u8>,
    pub digital_id: Seq<char>,
    pub name: Seq<char>,
    pub gender: Seq<char>,
    pub age: u8,
    pub id_number_hash: Seq<char>,
    pub phone: Seq<char>,
    pub nationality: Seq<char>,
    pub email: Option<Seq<char>>,
    pub registration_timestamp: i64,
    pub blockchain_timestamp: i64,
    pub slot: u64,
    pub is_active: bool,
    pub version: u8,
    pub trip_start_date: Option<i64>,
    pub trip_end_date: Option<i64>,
    pub purpose: Option<Seq<char>>,
    pub accommodation: Option<Seq<char>>,
    pub itinerary: Option<Seq<char>>,
    pub emergency_contacts: Seq<EmergencyContactView>,
    pub trip_updated_timestamp: i64,
    pub deactivation_timestamp: Option<i64>,
}

impl View for TouristAccount {
    type V = TouristAccountView;

    open spec fn view(&self) -> TouristAccountView {
        TouristAccountView {
            authority: self.authority@,
            digital_id: self.digital_id@,
            name: self.name@,
            gender: self.gender@,
            age: self.age,
            id_number_hash: self.id_number_hash@,
            phone: self.phone@,
            nationality: self.nationality@,
            email: opt_text_view(self.email),
            registration_timestamp: self.registration_timestamp,
            blockchain_timestamp: self.blockchain_timestamp,
            slot: self.slot,
            is_active: self.is_active,
            version: self.version,
            trip_start_date: self.trip_start_date,
            trip_end_date: self.trip_end_date,
            purpose: opt_text_view(self.purpose),
            accommodation: opt_text_view(self.accommodation),
            itinerary: opt_text_view(self.itinerary),
            emergency_contacts: contacts_view(self.emergency_contacts@),
            trip_updated_timestamp: self.trip_updated_timestamp,
            deactivation_timestamp: self.deactivation_timestamp,
        }
    }
}

impl TouristAccount {
    /// A record with nothing in it: what a slot holds before registration fills it.
    pub fn blank() -> (record: TouristAccount)
        ensures
            record@ == TouristAccountView::blank(),
    {
        let emergency_contacts: Vec<EmergencyContact> = Vec::new();
        let bytes = [0u8; 32];
        assert(contacts_view(emergency_contacts@) =~= Seq::empty());
        assert(bytes@ =~= Seq::new(32, |i: int| 0u8));
        TouristAccount {
            authority: Pubkey { bytes },
            digital_id: String::new(),
            name: String::new(),
            gender: String::new(),
            age: 0,
            id_number_hash: String::new(),
            phone: String::new(),
            nationality: String::new(),
            email: None,
            registration_timestamp: 0,
            blockchain_timestamp: 0,
            slot: 0,
            is_active: false,
            version: 0,
            trip_start_date: None,
            trip_end_date: None,
            purpose: None,
            accommodation: None,
            itinerary: None,
            emergency_contacts,
            trip_updated_timestamp: 0,
            deactivation_timestamp: None,
        }
    }
}

impl TouristAccountView {
    /// The record with nothing in it.
    pub open spec fn blank() -> TouristAccountView {
        TouristAccountView {
            authority: Seq::new(32, |i: int| 0u8),
            digital_id: Seq::empty(),
            name: Seq::empty(),
            gender: Seq::empty(),
            age: 0,
            id_number_hash: Seq::empty(),
            phone: Seq::empty(),
            nationality: Seq::empty(),
            email: None,
            registration_timestamp: 0,
            blockchain_timestamp: 0,
            slot: 0,
            is_active: false,
            version: 0,
            trip_start_date: None,
            trip_end_date: None,
            purpose: None,
            accommodation: None,
            itinerary: None,
            emergency_contacts: Seq::empty(),
            trip_updated_timestamp: 0,
            deactivation_timestamp: None,
        }
    }

    /// Every text is within its byte budget and there are at most 5 contacts, each
    /// within its own budget: the record fits its storage slot.
    pub open spec fn within_limits(self) -> bool {
        &&& self.authority.len() == 32
        &&& byte_len(self.digital_id) <= MAX_DIGITAL_ID_LEN
        &&& byte_len(self.name) <= MAX_NAME_LEN
        &&& byte_len(self.gender) <= MAX_GENDER_LEN
        &&& byte_len(self.id_number_hash) <= MAX_ID_NUMBER_HASH_LEN
        &&& byte_len(self.phone) <= MAX_PHONE_LEN
        &&& byte_len(self.nationality) <= MAX_NATIONALITY_LEN
        &&& opt_byte_len_within(self.email, MAX_EMAIL_LEN as nat)
        &&& opt_byte_len_within(self.purpose, MAX_PURPOSE_LEN as nat)
        &&& opt_byte_len_within(self.accommodation, MAX_ACCOMMODATION_LEN as nat)
        &&& opt_byte_len_within(self.itinerary, MAX_ITINERARY_LEN as nat)
        &&& self.emergency_contacts.len() <= MAX_EMERGENCY_CONTACTS
        &&& forall|i: int|
            0 <= i < self.emergency_contacts.len() ==> (#[trigger] self.emergency_contacts[i]).within_limits()
    }

    /// What holds of every record that the registry's operations produce.
    pub open spec fn valid(self) -> bool {
        &&& self.within_limits()
        &&& MIN_AGE <= self.age <= MAX_AGE
        &&& self.version == SCHEMA_VERSION
        &&& (self.trip_start_date matches Some(start) ==> {
            &&& start >= self.trip_updated_timestamp
            &&& self.trip_end_date matches Some(end) ==> end > start
        })
        &&& (self.deactivation_timestamp is Some <==> !self.is_active)
    }
}

} // verus!
