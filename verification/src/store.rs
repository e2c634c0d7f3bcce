//! The registry over storage slots. The host keeps one slot of `SPACE` bytes per
//! record, at the key derived from owner and digital id; a slot that was reserved and
//! never written holds zeros. Each operation reads the slot, works on the record and
//! writes the slot back whole, or fails and leaves every byte as it was.

use crate::account::{
    contacts_view, opt_text_view, Clock, EmergencyContact, Pubkey, TouristAccount,
    TouristAccountView,
};
use crate::codec::{account_tag, parse_record, ser_record};
use crate::codec_proofs::{lemma_encoded_len_bounded, lemma_parse_sound, lemma_round_trip};
use crate::error::ErrorCode;
use crate::limits::SPACE;
use crate::registry::{
    deactivate_tourist, deactivated, deactivation_error, register_tourist, registered,
    registration_error, trip_error, trip_updated, update_trip_details, DeactivateTourist,
    RegisterTourist, UpdateTripDetails,
};
use crate::registry_proofs::{lemma_deactivation_keeps_valid, lemma_trip_update_keeps_valid};
use vstd::prelude::*;

verus! {

/// `n` zero bytes.
pub open spec fn zeros(n: nat) -> Seq<u8> {
    Seq::new(n, |i: int| 0u8)
}

/// Whether a slot was never written: it holds zeros only, or nothing at all.
pub open spec fn vacant(slot: Seq<u8>) -> bool {
    forall|i: int| 0 <= i < slot.len() ==> slot[i] == 0
}

/// The bytes of a slot that holds the record `v`: the record's wire form, then zeros
/// up to the slot's capacity.
pub open spec fn slot_image(v: TouristAccountView) -> Seq<u8> {
    ser_record(v) + zeros((SPACE - ser_record(v).len()) as nat)
}

/// What a slot holds: the record, `NotFound` where it was never written, and
/// `CorruptRecord` where its bytes are neither.
pub open spec fn slot_state(slot: Seq<u8>) -> Result<TouristAccountView, ErrorCode> {
    if vacant(slot) {
        Err(ErrorCode::NotFound)
    } else if slot.len() != SPACE {
        Err(ErrorCode::CorruptRecord)
    } else {
        match parse_record(slot) {
            Some((v, _)) => Ok(v),
            None => Err(ErrorCode::CorruptRecord),
        }
    }
}

/// A slot that was written with a record that fits holds that record, and is as long
/// as the capacity says.
pub proof fn lemma_slot_holds_what_was_written(v: TouristAccountView)
    requires
        v.within_limits(),
    ensures
        slot_image(v).len() == SPACE,
        slot_state(slot_image(v)) == Ok::<TouristAccountView, ErrorCode>(v),
{
    lemma_encoded_len_bounded(v);
    let padding = zeros((SPACE - ser_record(v).len()) as nat);
    lemma_round_trip(v, padding);
    assert(ser_record(v).len() >= 8 && ser_record(v)[0] == 14u8) by {
        lemma_tag_in_front(v);
    }
    assert(slot_image(v)[0] == 14u8);
}

/// Every record's wire form begins with the tag.
proof fn lemma_tag_in_front(v: TouristAccountView)
    ensures
        ser_record(v).len() >= 8,
        ser_record(v)[0] == 14u8,
{
    assert(account_tag().len() == 8);
    assert(account_tag()[0] == 14u8);
}

/// A slot that holds a record holds one that fits.
pub proof fn lemma_stored_records_fit(slot: Seq<u8>)
    ensures
        slot_state(slot) matches Ok(v) ==> v.within_limits(),
{
    lemma_parse_sound(slot);
}

fn is_vacant(slot: &[u8]) -> (r: bool)
    ensures
        r == vacant(slot@),
{
    let mut i: usize = 0;
    while i < slot.len()
        invariant
            i <= slot.len(),
            forall|j: int| 0 <= j < i ==> slot@[j] == 0,
        decreases slot.len() - i,
    {
        if slot[i] != 0 {
            return false;
        }
        i += 1;
    }
    true
}

/// The record in a slot.
fn load(slot: &[u8]) -> (r: Result<TouristAccount, ErrorCode>)
    ensures
        match slot_state(slot@) {
            Ok(v) => r matches Ok(record) && record@ == v && v.within_limits(),
            Err(e) => r matches Err(x) && x == e,
        },
{
    if is_vacant(slot) {
        return Err(ErrorCode::NotFound);
    }
    if slot.len() != SPACE {
        return Err(ErrorCode::CorruptRecord);
    }
    proof {
        lemma_parse_sound(slot@);
    }
    TouristAccount::decode(slot)
}

/// The bytes of a slot that holds `record`.
fn image(record: &TouristAccount) -> (r: Result<Vec<u8>, ErrorCode>)
    ensures
        match r {
            Ok(slot) => record@.within_limits() && slot@ == slot_image(record@),
            Err(e) => !record@.within_limits() && e == ErrorCode::EncodingOverflow,
        },
{
    let mut slot = match record.encode() {
        Ok(bytes) => bytes,
        Err(e) => {
            return Err(e);
        },
    };
    proof {
        lemma_encoded_len_bounded(record@);
    }
    let ghost written = slot@;
    while slot.len() < SPACE
        invariant
            written.len() <= slot.len() <= SPACE,
            slot@ == written + zeros((slot.len() - written.len()) as nat),
        decreases SPACE - slot.len(),
    {
        slot.push(0u8);
        assert(slot@ =~= written + zeros((slot.len() - written.len()) as nat));
    }
    Ok(slot)
}

/// Creates a record for `owner` and hands back the bytes of its slot. The host puts
/// them at the record's key, and refuses where that key is taken.
pub fn create(
    owner: &Pubkey,
    clock: &Clock,
    digital_id: String,
    name: String,
    gender: String,
    age: u8,
    id_number_hash: String,
    phone: String,
    nationality: String,
    email: Option<String>,
    registration_timestamp: i64,
) -> (r: Result<Vec<u8>, ErrorCode>)
    ensures
        match registration_error(
            digital_id@,
            name@,
            gender@,
            age,
            id_number_hash@,
            phone@,
            nationality@,
            opt_text_view(email),
        ) {
            Some(e) => r matches Err(x) && x == e,
            None => r matches Ok(slot) && slot.len() == SPACE && slot@ == slot_image(
                registered(
                    owner@,
                    digital_id@,
                    name@,
                    gender@,
                    age,
                    id_number_hash@,
                    phone@,
                    nationality@,
                    opt_text_view(email),
                    registration_timestamp,
                    *clock,
                ),
            ),
        },
{
    let mut ctx = RegisterTourist { tourist_account: TouristAccount::blank(), user: *owner };
    match register_tourist(
        &mut ctx,
        clock,
        digital_id,
        name,
        gender,
        age,
        id_number_hash,
        phone,
        nationality,
        email,
        registration_timestamp,
    ) {
        Ok(()) => {},
        Err(e) => {
            return Err(e);
        },
    }
    proof {
        lemma_slot_holds_what_was_written(ctx.tourist_account@);
    }
    image(&ctx.tourist_account)
}

/// Overwrites the trip details of the record in a slot, for its authority only.
pub fn update_trip(
    slot: &mut Vec<u8>,
    caller: &Pubkey,
    clock: &Clock,
    start_date: i64,
    end_date: i64,
    purpose: String,
    accommodation: Option<String>,
    itinerary: String,
    emergency_contacts: Vec<EmergencyContact>,
) -> (r: Result<(), ErrorCode>)
    ensures
        match slot_state(old(slot)@) {
            Err(e) => r == Err::<(), ErrorCode>(e) && final(slot)@ == old(slot)@,
            Ok(v) => match trip_error(
                v.authority,
                caller@,
                clock.unix_timestamp,
                start_date,
                end_date,
                purpose@,
                opt_text_view(accommodation),
                itinerary@,
                contacts_view(emergency_contacts@),
            ) {
                Some(e) => r == Err::<(), ErrorCode>(e) && final(slot)@ == old(slot)@,
                None => r is Ok && final(slot)@ == slot_image(
                    trip_updated(
                        v,
                        clock.unix_timestamp,
                        start_date,
                        end_date,
                        purpose@,
                        opt_text_view(accommodation),
                        itinerary@,
                        contacts_view(emergency_contacts@),
                    ),
                ),
            },
        },
{
    let record = match load(slot.as_slice()) {
        Ok(record) => record,
        Err(e) => {
            return Err(e);
        },
    };
    let ghost before = record@;
    let ghost contacts = contacts_view(emergency_contacts@);
    let ghost place = opt_text_view(accommodation);
    let ghost why = purpose@;
    let ghost route = itinerary@;
    let mut ctx = UpdateTripDetails { tourist_account: record, user: *caller };
    match update_trip_details(
        &mut ctx,
        clock,
        start_date,
        end_date,
        purpose,
        accommodation,
        itinerary,
        emergency_contacts,
    ) {
        Ok(()) => {},
        Err(e) => {
            return Err(e);
        },
    }
    proof {
        lemma_trip_update_keeps_valid(
            before,
            caller@,
            clock.unix_timestamp,
            start_date,
            end_date,
            why,
            place,
            route,
            contacts,
        );
    }
    match image(&ctx.tourist_account) {
        Ok(bytes) => {
            *slot = bytes;
            Ok(())
        },
        Err(e) => Err(e),
    }
}

/// Deactivates the record in a slot, for its authority only.
pub fn deactivate(slot: &mut Vec<u8>, caller: &Pubkey, clock: &Clock) -> (r: Result<
    (),
    ErrorCode,
>)
    ensures
        match slot_state(old(slot)@) {
            Err(e) => r == Err::<(), ErrorCode>(e) && final(slot)@ == old(slot)@,
            Ok(v) => match deactivation_error(v.authority, caller@) {
                Some(e) => r == Err::<(), ErrorCode>(e) && final(slot)@ == old(slot)@,
                None => r is Ok && final(slot)@ == slot_image(deactivated(v, clock.unix_timestamp)),
            },
        },
{
    let record = match load(slot.as_slice()) {
        Ok(record) => record,
        Err(e) => {
            return Err(e);
        },
    };
    let ghost before = record@;
    let mut ctx = DeactivateTourist { tourist_account: record, user: *caller };
    match deactivate_tourist(&mut ctx, clock) {
        Ok(()) => {},
        Err(e) => {
            return Err(e);
        },
    }
    proof {
        lemma_deactivation_keeps_valid(before, clock.unix_timestamp);
    }
    match image(&ctx.tourist_account) {
        Ok(bytes) => {
            *slot = bytes;
            Ok(())
        },
        Err(e) => Err(e),
    }
}

/// The record in a slot, for anyone who asks: `NotFound` where the slot was never
/// written.
pub fn read(slot: &[u8]) -> (r: Result<TouristAccount, ErrorCode>)
    ensures
        match slot_state(slot@) {
            Ok(v) => r matches Ok(record) && record@ == v,
            Err(e) => r matches Err(x) && x == e,
        },
{
    load(slot)
}

} // verus!
