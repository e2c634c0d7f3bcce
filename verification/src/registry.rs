//! The operations on a record that the host has loaded: registration, update of the
//! trip details, deactivation and reading. The host authenticates the caller, reads
//! the trusted clock and hands both over; a refused operation leaves the record as
//! it was.

use crate::account::{
    byte_len, contacts_view, opt_byte_len_within, opt_text_view, Clock, EmergencyContact,
    EmergencyContactView, Pubkey, TouristAccount, TouristAccountView,
};
use crate::error::ErrorCode;
use crate::limits::{
    MAX_ACCOMMODATION_LEN, MAX_AGE, MAX_DIGITAL_ID_LEN, MAX_EMAIL_LEN, MAX_EMERGENCY_CONTACTS,
    MAX_GENDER_LEN, MAX_ID_NUMBER_HASH_LEN, MAX_ITINERARY_LEN, MAX_NAME_LEN, MAX_NATIONALITY_LEN,
    MAX_PHONE_LEN, MAX_PURPOSE_LEN, MAX_RELATIONSHIP_LEN, MIN_AGE, SCHEMA_VERSION,
};
use vstd::prelude::*;

verus! {

/// What registration works on: the record to fill and the authenticated caller, who
/// becomes its authority.
#[derive(Clone, Debug, PartialEq, Eq)]
pub struct RegisterTourist {
    pub tourist_account: TouristAccount,
    pub user: Pubkey,
}

/// What an update of the trip details works on: the record and the authenticated caller.
#[derive(Clone, Debug, PartialEq, Eq)]
pub struct UpdateTripDetails {
    pub tourist_account: TouristAccount,
    pub user: Pubkey,
}

/// What deactivation works on: the record and the authenticated caller.
#[derive(Clone, Debug, PartialEq, Eq)]
pub struct DeactivateTourist {
    pub tourist_account: TouristAccount,
    pub user: Pubkey,
}

/// What reading works on: the record alone, since anyone may read.
#[derive(Clone, Debug, PartialEq, Eq)]
pub struct GetTouristData {
    pub tourist_account: TouristAccount,
}

// ---------------------------------------------------------------------------
// Registration
// ---------------------------------------------------------------------------

/// Why a registration is refused, if it is: the first of the checks, in this order,
/// that the profile fails.
pub open spec fn registration_error(
    digital_id: Seq<char>,
    name: Seq<char>,
    gender: Seq<char>,
    age: u8,
    id_number_hash: Seq<char>,
    phone: Seq<char>,
    nationality: Seq<char>,
    email: Option<Seq<char>>,
) -> Option<ErrorCode> {
    if byte_len(name) > MAX_NAME_LEN {
        Some(ErrorCode::NameTooLong)
    } else if byte_len(nationality) > MAX_NATIONALITY_LEN {
        Some(ErrorCode::NationalityTooLong)
    } else if byte_len(phone) > MAX_PHONE_LEN {
        Some(ErrorCode::PhoneTooLong)
    } else if age < MIN_AGE || age > MAX_AGE {
        Some(ErrorCode::InvalidAge)
    } else if byte_len(digital_id) > MAX_DIGITAL_ID_LEN {
        Some(ErrorCode::DigitalIdTooLong)
    } else if !opt_byte_len_within(email, MAX_EMAIL_LEN as nat) {
        Some(ErrorCode::EmailTooLong)
    } else if byte_len(gender) > MAX_GENDER_LEN {
        Some(ErrorCode::GenderTooLong)
    } else if byte_len(id_number_hash) > MAX_ID_NUMBER_HASH_LEN {
        Some(ErrorCode::IdNumberHashTooLong)
    } else {
        None
    }
}

/// The record that a successful registration leaves: the profile as given, the caller
/// as authority, the clock's time and counter, active, and no trip details.
pub open spec fn registered(
    authority: Seq<u8>,
    digital_id: Seq<char>,
    name: Seq<char>,
    gender: Seq<char>,
    age: u8,
    id_number_hash: Seq<char>,
    phone: Seq<char>,
    nationality: Seq<char>,
    email: Option<Seq<char>>,
    registration_timestamp: i64,
    clock: Clock,
) -> TouristAccountView {
    TouristAccountView {
        authority,
        digital_id,
        name,
        gender,
        age,
        id_number_hash,
        phone,
        nationality,
        email,
        registration_timestamp,
        blockchain_timestamp: clock.unix_timestamp,
        slot: clock.slot,
        is_active: true,
        version: SCHEMA_VERSION,
        trip_start_date: None,
        trip_end_date: None,
        purpose: None,
        accommodation: None,
        itinerary: None,
        emergency_contacts: Seq::empty(),
        trip_updated_timestamp: 0,
        deactivation_timestamp: None,
    }
}

fn text_len(text: &String) -> (n: usize)
    ensures
        n == byte_len(text@),
{
    text.as_str().as_bytes().len()
}

/// Registers a tourist: checks the profile, then fills the record. The caller becomes
/// the record's authority; time and commit counter come from the clock.
pub fn register_tourist(
    ctx: &mut RegisterTourist,
    clock: &Clock,
    digital_id: String,
    name: String,
    gender: String,
    age: u8,
    id_number_hash: String,
    phone: String,
    nationality: String,
    email: Option<String>,
    registration_timestamp: i64,
) -> (r: Result<(), ErrorCode>)
    ensures
        match registration_error(
            digital_id@,
            name@,
            gender@,
            age,
            id_number_hash@,
            phone@,
            nationality@,
            opt_text_view(email),
        ) {
            Some(e) => r == Err::<(), ErrorCode>(e) && *final(ctx) == *old(ctx),
            None => {
                &&& r is Ok
                &&& final(ctx).user == old(ctx).user
                &&& final(ctx).tourist_account@ == registered(
                    old(ctx).user@,
                    digital_id@,
                    name@,
                    gender@,
                    age,
                    id_number_hash@,
                    phone@,
                    nationality@,
                    opt_text_view(email),
                    registration_timestamp,
                    *clock,
                )
                &&& final(ctx).tourist_account@.valid()
            },
        },
{
    if text_len(&name) > MAX_NAME_LEN {
        return Err(ErrorCode::NameTooLong);
    }
    if text_len(&nationality) > MAX_NATIONALITY_LEN {
        return Err(ErrorCode::NationalityTooLong);
    }
    if text_len(&phone) > MAX_PHONE_LEN {
        return Err(ErrorCode::PhoneTooLong);
    }
    if age < MIN_AGE || age > MAX_AGE {
        return Err(ErrorCode::InvalidAge);
    }
    if text_len(&digital_id) > MAX_DIGITAL_ID_LEN {
        return Err(ErrorCode::DigitalIdTooLong);
    }
    if let Some(address) = &email {
        if text_len(address) > MAX_EMAIL_LEN {
            return Err(ErrorCode::EmailTooLong);
        }
    }
    if text_len(&gender) > MAX_GENDER_LEN {
        return Err(ErrorCode::GenderTooLong);
    }
    if text_len(&id_number_hash) > MAX_ID_NUMBER_HASH_LEN {
        return Err(ErrorCode::IdNumberHashTooLong);
    }
    let emergency_contacts: Vec<EmergencyContact> = Vec::new();
    assert(contacts_view(emergency_contacts@) =~= Seq::empty());
    ctx.tourist_account = TouristAccount {
        authority: ctx.user,
        digital_id,
        name,
        gender,
        age,
        id_number_hash,
        phone,
        nationality,
        email,
        registration_timestamp,
        blockchain_timestamp: clock.unix_timestamp,
        slot: clock.slot,
        is_active: true,
        version: SCHEMA_VERSION,
        trip_start_date: None,
        trip_end_date: None,
        purpose: None,
        accommodation: None,
        itinerary: None,
        emergency_contacts,
        trip_updated_timestamp: 0,
        deactivation_timestamp: None,
    };
    Ok(())
}

// ---------------------------------------------------------------------------
// Trip details
// ---------------------------------------------------------------------------

/// Why a contact is refused, if it is.
pub open spec fn contact_error(contact: EmergencyContactView) -> Option<ErrorCode> {
    if byte_len(contact.name) > MAX_NAME_LEN {
        Some(ErrorCode::ContactNameTooLong)
    } else if byte_len(contact.relationship) > MAX_RELATIONSHIP_LEN {
        Some(ErrorCode::RelationshipTooLong)
    } else if byte_len(contact.phone) > MAX_PHONE_LEN {
        Some(ErrorCode::ContactPhoneTooLong)
    } else {
        None
    }
}

/// The error of the first contact that is refused, if any is.
pub open spec fn contacts_error(contacts: Seq<EmergencyContactView>) -> Option<ErrorCode>
    decreases contacts.len(),
{
    if contacts.len() == 0 {
        None
    } else {
        match contacts_error(contacts.drop_last()) {
            Some(e) => Some(e),
            None => contact_error(contacts.last()),
        }
    }
}

/// Why an update of the trip details is refused, if it is: the first of the checks, in
/// this order, that fails. Whether the record is active plays no part.
pub open spec fn trip_error(
    authority: Seq<u8>,
    user: Seq<u8>,
    now: i64,
    start_date: i64,
    end_date: i64,
    purpose: Seq<char>,
    accommodation: Option<Seq<char>>,
    itinerary: Seq<char>,
    emergency_contacts: Seq<EmergencyContactView>,
) -> Option<ErrorCode> {
    if authority != user {
        Some(ErrorCode::Unauthorized)
    } else if end_date <= start_date {
        Some(ErrorCode::InvalidTripDates)
    } else if start_date < now {
        Some(ErrorCode::TripInPast)
    } else if byte_len(purpose) > MAX_PURPOSE_LEN {
        Some(ErrorCode::PurposeTooLong)
    } else if byte_len(itinerary) > MAX_ITINERARY_LEN {
        Some(ErrorCode::ItineraryTooLong)
    } else if emergency_contacts.len() > MAX_EMERGENCY_CONTACTS {
        Some(ErrorCode::TooManyContacts)
    } else if !opt_byte_len_within(accommodation, MAX_ACCOMMODATION_LEN as nat) {
        Some(ErrorCode::AccommodationTooLong)
    } else {
        contacts_error(emergency_contacts)
    }
}

/// The record after its trip details were overwritten at time `now`. Nothing of the
/// earlier trip details is kept, and nothing else changes.
pub open spec fn trip_updated(
    v: TouristAccountView,
    now: i64,
    start_date: i64,
    end_date: i64,
    purpose: Seq<char>,
    accommodation: Option<Seq<char>>,
    itinerary: Seq<char>,
    emergency_contacts: Seq<EmergencyContactView>,
) -> TouristAccountView {
    TouristAccountView {
        trip_start_date: Some(start_date),
        trip_end_date: Some(end_date),
        purpose: Some(purpose),
        accommodation,
        itinerary: Some(itinerary),
        emergency_contacts,
        trip_updated_timestamp: now,
        ..v
    }
}

fn check_contact(contact: &EmergencyContact) -> (r: Option<ErrorCode>)
    ensures
        r == contact_error(contact@),
{
    if text_len(&contact.name) > MAX_NAME_LEN {
        Some(ErrorCode::ContactNameTooLong)
    } else if text_len(&contact.relationship) > MAX_RELATIONSHIP_LEN {
        Some(ErrorCode::RelationshipTooLong)
    } else if text_len(&contact.phone) > MAX_PHONE_LEN {
        Some(ErrorCode::ContactPhoneTooLong)
    } else {
        None
    }
}

fn check_contacts(contacts: &Vec<EmergencyContact>) -> (r: Option<ErrorCode>)
    ensures
        r == contacts_error(contacts_view(contacts@)),
{
    let ghost views = contacts_view(contacts@);
    let mut i: usize = 0;
    while i < contacts.len()
        invariant
            i <= contacts.len(),
            views == contacts_view(contacts@),
            contacts_error(views.take(i as int)) is None,
        decreases contacts.len() - i,
    {
        let found = check_contact(&contacts[i]);
        proof {
            let upto = views.take(i + 1);
            assert(upto.drop_last() =~= views.take(i as int));
            assert(upto.last() == contacts[i as int]@);
            if found is Some {
                lemma_contacts_error_stays(views, i + 1);
            }
        }
        if found.is_some() {
            return found;
        }
        i += 1;
    }
    proof {
        assert(views.take(contacts.len() as int) =~= views);
    }
    None
}

/// Once a front part of the list is refused, the whole list is refused for the same
/// reason.
proof fn lemma_contacts_error_stays(contacts: Seq<EmergencyContactView>, k: int)
    requires
        0 <= k <= contacts.len(),
        contacts_error(contacts.take(k)) is Some,
    ensures
        contacts_error(contacts) == contacts_error(contacts.take(k)),
    decreases contacts.len() - k,
{
    if k < contacts.len() {
        let longer = contacts.take(k + 1);
        assert(longer.drop_last() =~= contacts.take(k));
        lemma_contacts_error_stays(contacts, k + 1);
    } else {
        assert(contacts.take(k) =~= contacts);
    }
}

/// Overwrites the trip details of a record. Only the record's authority may do so; the
/// trip must end after it starts and must not start before the current trusted time.
pub fn update_trip_details(
    ctx: &mut UpdateTripDetails,
    clock: &Clock,
    start_date: i64,
    end_date: i64,
    purpose: String,
    accommodation: Option<String>,
    itinerary: String,
    emergency_contacts: Vec<EmergencyContact>,
) -> (r: Result<(), ErrorCode>)
    ensures
        match trip_error(
            old(ctx).tourist_account@.authority,
            old(ctx).user@,
            clock.unix_timestamp,
            start_date,
            end_date,
            purpose@,
            opt_text_view(accommodation),
            itinerary@,
            contacts_view(emergency_contacts@),
        ) {
            Some(e) => r == Err::<(), ErrorCode>(e) && *final(ctx) == *old(ctx),
            None => {
                &&& r is Ok
                &&& final(ctx).user == old(ctx).user
                &&& final(ctx).tourist_account@ == trip_updated(
                    old(ctx).tourist_account@,
                    clock.unix_timestamp,
                    start_date,
                    end_date,
                    purpose@,
                    opt_text_view(accommodation),
                    itinerary@,
                    contacts_view(emergency_contacts@),
                )
            },
        },
        old(ctx).tourist_account@.authority != old(ctx).user@ ==> r == Err::<(), ErrorCode>(
            ErrorCode::Unauthorized,
        ) && *final(ctx) == *old(ctx),
{
    if !ctx.tourist_account.authority.same_as(&ctx.user) {
        return Err(ErrorCode::Unauthorized);
    }
    if end_date <= start_date {
        return Err(ErrorCode::InvalidTripDates);
    }
    if start_date < clock.unix_timestamp {
        return Err(ErrorCode::TripInPast);
    }
    if text_len(&purpose) > MAX_PURPOSE_LEN {
        return Err(ErrorCode::PurposeTooLong);
    }
    if text_len(&itinerary) > MAX_ITINERARY_LEN {
        return Err(ErrorCode::ItineraryTooLong);
    }
    if emergency_contacts.len() > MAX_EMERGENCY_CONTACTS {
        return Err(ErrorCode::TooManyContacts);
    }
    if let Some(place) = &accommodation {
        if text_len(place) > MAX_ACCOMMODATION_LEN {
            return Err(ErrorCode::AccommodationTooLong);
        }
    }
    if let Some(e) = check_contacts(&emergency_contacts) {
        return Err(e);
    }
    ctx.tourist_account.trip_start_date = Some(start_date);
    ctx.tourist_account.trip_end_date = Some(end_date);
    ctx.tourist_account.purpose = Some(purpose);
    ctx.tourist_account.accommodation = accommodation;
    ctx.tourist_account.itinerary = Some(itinerary);
    ctx.tourist_account.emergency_contacts = emergency_contacts;
    ctx.tourist_account.trip_updated_timestamp = clock.unix_timestamp;
    Ok(())
}

// ---------------------------------------------------------------------------
// Deactivation
// ---------------------------------------------------------------------------

/// The record after a deactivation at time `now`: an active record becomes inactive
/// and is stamped; an inactive record stays exactly as it is.
pub open spec fn deactivated(v: TouristAccountView, now: i64) -> TouristAccountView {
    if v.is_active {
        TouristAccountView { is_active: false, deactivation_timestamp: Some(now), ..v }
    } else {
        v
    }
}

/// Why a deactivation is refused, if it is.
pub open spec fn deactivation_error(authority: Seq<u8>, user: Seq<u8>) -> Option<ErrorCode> {
    if authority != user {
        Some(ErrorCode::Unauthorized)
    } else {
        None
    }
}

/// Deactivates a record. Only the record's authority may do so. On a record that is
/// already inactive this succeeds and changes nothing.
pub fn deactivate_tourist(ctx: &mut DeactivateTourist, clock: &Clock) -> (r: Result<(), ErrorCode>)
    ensures
        match deactivation_error(old(ctx).tourist_account@.authority, old(ctx).user@) {
            Some(e) => r == Err::<(), ErrorCode>(e) && *final(ctx) == *old(ctx),
            None => {
                &&& r is Ok
                &&& final(ctx).user == old(ctx).user
                &&& final(ctx).tourist_account@ == deactivated(
                    old(ctx).tourist_account@,
                    clock.unix_timestamp,
                )
                &&& !final(ctx).tourist_account.is_active
            },
        },
        old(ctx).tourist_account@.authority != old(ctx).user@ ==> r == Err::<(), ErrorCode>(
            ErrorCode::Unauthorized,
        ) && *final(ctx) == *old(ctx),
{
    if !ctx.tourist_account.authority.same_as(&ctx.user) {
        return Err(ErrorCode::Unauthorized);
    }
    if ctx.tourist_account.is_active {
        ctx.tourist_account.is_active = false;
        ctx.tourist_account.deactivation_timestamp = Some(clock.unix_timestamp);
    }
    Ok(())
}

// ---------------------------------------------------------------------------
// Reading
// ---------------------------------------------------------------------------

/// Hands out the whole record as it stands. Anyone may read; nothing is checked.
pub fn get_tourist_data(ctx: &GetTouristData) -> (r: Result<&TouristAccount, ErrorCode>)
    ensures
        r == Ok::<&TouristAccount, ErrorCode>(&ctx.tourist_account),
{
    Ok(&ctx.tourist_account)
}

} // verus!
