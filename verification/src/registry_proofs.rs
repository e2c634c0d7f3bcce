//! What holds of the registry's operations, whatever the record and the arguments.

use crate::account::{Clock, EmergencyContactView, TouristAccountView};
use crate::codec::{parse_record, ser_record};
use crate::codec_proofs::{lemma_encoded_len_bounded, lemma_round_trip};
use crate::error::ErrorCode;
use crate::limits::SPACE;
use crate::registry::{
    contact_error, contacts_error, deactivated, deactivation_error, registered,
    registration_error, trip_error, trip_updated,
};
use vstd::prelude::*;

verus! {

/// A list of contacts is accepted exactly when each contact is within its byte budget.
pub proof fn lemma_contacts_accepted(contacts: Seq<EmergencyContactView>)
    ensures
        contacts_error(contacts) is None <==> forall|i: int|
            0 <= i < contacts.len() ==> (#[trigger] contacts[i]).within_limits(),
    decreases contacts.len(),
{
    if contacts.len() > 0 {
        let front = contacts.drop_last();
        lemma_contacts_accepted(front);
        if contacts_error(contacts) is None {
            assert forall|i: int| 0 <= i < contacts.len() implies (#[trigger] contacts[i]).within_limits() by {
                if i < contacts.len() - 1 {
                    assert(front[i].within_limits());
                } else {
                    assert(contact_error(contacts.last()) is None);
                }
            }
        } else if contacts_error(front) is None {
            assert(!contacts.last().within_limits());
        } else {
            let i = choose|i: int| 0 <= i < front.len() && !(#[trigger] front[i]).within_limits();
            assert(!contacts[i].within_limits());
        }
    }
}

/// Only the authority changes a record: an update or a deactivation that anyone else
/// asks for is refused as unauthorized, whatever else was asked.
pub proof fn lemma_authority_enforced(
    v: TouristAccountView,
    caller: Seq<u8>,
    now: i64,
    start_date: i64,
    end_date: i64,
    purpose: Seq<char>,
    accommodation: Option<Seq<char>>,
    itinerary: Seq<char>,
    emergency_contacts: Seq<EmergencyContactView>,
)
    requires
        caller != v.authority,
    ensures
        trip_error(
            v.authority,
            caller,
            now,
            start_date,
            end_date,
            purpose,
            accommodation,
            itinerary,
            emergency_contacts,
        ) == Some(ErrorCode::Unauthorized),
        deactivation_error(v.authority, caller) == Some(ErrorCode::Unauthorized),
{
}

/// A registration that is accepted leaves a valid record.
pub proof fn lemma_registered_is_valid(
    authority: Seq<u8>,
    digital_id: Seq<char>,
    name: Seq<char>,
    gender: Seq<char>,
    age: u8,
    id_number_hash: Seq<char>,
    phone: Seq<char>,
    nationality: Seq<char>,
    email: Option<Seq<char>>,
    registration_timestamp: i64,
    clock: Clock,
)
    requires
        authority.len() == 32,
        registration_error(
            digital_id,
            name,
            gender,
            age,
            id_number_hash,
            phone,
            nationality,
            email,
        ) is None,
    ensures
        registered(
            authority,
            digital_id,
            name,
            gender,
            age,
            id_number_hash,
            phone,
            nationality,
            email,
            registration_timestamp,
            clock,
        ).valid(),
{
}

/// An update that is accepted keeps a record within its byte budget, and keeps a valid
/// record valid.
pub proof fn lemma_trip_update_keeps_valid(
    v: TouristAccountView,
    caller: Seq<u8>,
    now: i64,
    start_date: i64,
    end_date: i64,
    purpose: Seq<char>,
    accommodation: Option<Seq<char>>,
    itinerary: Seq<char>,
    emergency_contacts: Seq<EmergencyContactView>,
)
    requires
        trip_error(
            v.authority,
            caller,
            now,
            start_date,
            end_date,
            purpose,
            accommodation,
            itinerary,
            emergency_contacts,
        ) is None,
    ensures
        v.within_limits() ==> trip_updated(
            v,
            now,
            start_date,
            end_date,
            purpose,
            accommodation,
            itinerary,
            emergency_contacts,
        ).within_limits(),
        v.valid() ==> trip_updated(
            v,
            now,
            start_date,
            end_date,
            purpose,
            accommodation,
            itinerary,
            emergency_contacts,
        ).valid(),
{
    lemma_contacts_accepted(emergency_contacts);
}

/// A deactivation keeps a record within its byte budget, and keeps a valid record valid.
pub proof fn lemma_deactivation_keeps_valid(v: TouristAccountView, now: i64)
    ensures
        v.within_limits() ==> deactivated(v, now).within_limits(),
        v.valid() ==> deactivated(v, now).valid(),
{
}

/// Deactivating twice is deactivating once: the second deactivation is permitted to
/// whoever was permitted the first, changes nothing, and the record stays inactive.
pub proof fn lemma_deactivation_idempotent(v: TouristAccountView, first: i64, second: i64)
    ensures
        !deactivated(v, first).is_active,
        deactivated(deactivated(v, first), second) == deactivated(v, first),
        deactivated(v, first).authority == v.authority,
{
}

/// Updating twice with the same arguments is updating once.
pub proof fn lemma_trip_update_idempotent(
    v: TouristAccountView,
    now: i64,
    start_date: i64,
    end_date: i64,
    purpose: Seq<char>,
    accommodation: Option<Seq<char>>,
    itinerary: Seq<char>,
    emergency_contacts: Seq<EmergencyContactView>,
)
    ensures
        ({
            let once = trip_updated(
                v,
                now,
                start_date,
                end_date,
                purpose,
                accommodation,
                itinerary,
                emergency_contacts,
            );
            trip_updated(
                once,
                now,
                start_date,
                end_date,
                purpose,
                accommodation,
                itinerary,
                emergency_contacts,
            ) == once
        }),
{
}

/// No operation changes whose record it is, touches the profile, or makes an inactive
/// record active again.
pub proof fn lemma_identity_and_activity_kept(
    v: TouristAccountView,
    now: i64,
    start_date: i64,
    end_date: i64,
    purpose: Seq<char>,
    accommodation: Option<Seq<char>>,
    itinerary: Seq<char>,
    emergency_contacts: Seq<EmergencyContactView>,
)
    ensures
        ({
            let u = trip_updated(
                v,
                now,
                start_date,
                end_date,
                purpose,
                accommodation,
                itinerary,
                emergency_contacts,
            );
            let d = deactivated(v, now);
            &&& u.authority == v.authority && d.authority == v.authority
            &&& u.digital_id == v.digital_id && d.digital_id == v.digital_id
            &&& u.is_active == v.is_active
            &&& u.deactivation_timestamp == v.deactivation_timestamp
            &&& !v.is_active ==> !d.is_active && d.deactivation_timestamp == v.deactivation_timestamp
            &&& same_profile(u, v) && same_profile(d, v)
            &&& same_trip(d, v)
        }),
{
}

/// Whether two records agree on the profile and on the stamps of registration.
pub open spec fn same_profile(a: TouristAccountView, b: TouristAccountView) -> bool {
    &&& a.name == b.name
    &&& a.gender == b.gender
    &&& a.age == b.age
    &&& a.id_number_hash == b.id_number_hash
    &&& a.phone == b.phone
    &&& a.nationality == b.nationality
    &&& a.email == b.email
    &&& a.registration_timestamp == b.registration_timestamp
    &&& a.blockchain_timestamp == b.blockchain_timestamp
    &&& a.slot == b.slot
    &&& a.version == b.version
}

/// Whether two records agree on the trip details.
pub open spec fn same_trip(a: TouristAccountView, b: TouristAccountView) -> bool {
    &&& a.trip_start_date == b.trip_start_date
    &&& a.trip_end_date == b.trip_end_date
    &&& a.purpose == b.purpose
    &&& a.accommodation == b.accommodation
    &&& a.itinerary == b.itinerary
    &&& a.emergency_contacts == b.emergency_contacts
    &&& a.trip_updated_timestamp == b.trip_updated_timestamp
}

/// Every valid record can be written, fits the capacity of a slot, and is read back
/// unchanged: the codec refuses nothing that the registry's operations produce.
pub proof fn lemma_valid_records_are_storable(v: TouristAccountView, padding: Seq<u8>)
    requires
        v.valid(),
    ensures
        v.within_limits(),
        ser_record(v).len() <= SPACE,
        parse_record(ser_record(v) + padding) == Some((v, padding)),
{
    lemma_encoded_len_bounded(v);
    lemma_round_trip(v, padding);
}

} // verus!
