//! The one error type of the registry.

use vstd::prelude::*;

verus! {

/// Why an operation was refused. A refused operation changes nothing.
#[derive(Clone, Copy, Debug, PartialEq, Eq, Structural)]
pub enum ErrorCode {
    /// The name is longer than 100 bytes.
    NameTooLong,
    /// The nationality is longer than 50 bytes.
    NationalityTooLong,
    /// The phone number is longer than 20 bytes.
    PhoneTooLong,
    /// The email address is longer than 100 bytes.
    EmailTooLong,
    /// The digital id is longer than 50 bytes.
    DigitalIdTooLong,
    /// The gender is longer than 10 bytes.
    GenderTooLong,
    /// The hash of the identity document is longer than 64 bytes.
    IdNumberHashTooLong,
    /// The age is not between 1 and 120.
    InvalidAge,
    /// The caller is not the record's authority.
    Unauthorized,
    /// The trip does not end after it starts.
    InvalidTripDates,
    /// The trip starts before the current trusted time.
    TripInPast,
    /// The purpose is longer than 200 bytes.
    PurposeTooLong,
    /// The itinerary is longer than 1000 bytes.
    ItineraryTooLong,
    /// The accommodation is longer than 300 bytes.
    AccommodationTooLong,
    /// There are more than 5 emergency contacts.
    TooManyContacts,
    /// A contact's name is longer than 100 bytes.
    ContactNameTooLong,
    /// A contact's relationship is longer than 50 bytes.
    RelationshipTooLong,
    /// A contact's phone number is longer than 20 bytes.
    ContactPhoneTooLong,
    /// No record was ever created in the slot.
    NotFound,
    /// A record holds a field beyond its byte budget and cannot be written.
    EncodingOverflow,
    /// The bytes of a slot are not those of a record.
    CorruptRecord,
}

} // verus!
