//! Proofs about the wire form of a record: reading undoes writing, writing undoes
//! reading, and no record that fits its slot takes more than the slot's capacity.

use crate::account::{byte_len, EmergencyContactView, TouristAccountView};
use crate::codec::{
    account_tag, parse_contact, parse_contact_seq, parse_contacts, parse_record, rest_of,
    ser_contact, ser_contact_seq, ser_contacts, ser_record,
};
use crate::limits::{
    MAX_ACCOMMODATION_LEN, MAX_DIGITAL_ID_LEN, MAX_EMAIL_LEN, MAX_EMERGENCY_CONTACTS,
    MAX_GENDER_LEN, MAX_ID_NUMBER_HASH_LEN, MAX_ITINERARY_LEN, MAX_NAME_LEN, MAX_NATIONALITY_LEN,
    MAX_PHONE_LEN, MAX_PURPOSE_LEN, MAX_RELATIONSHIP_LEN, SPACE,
};
use crate::wire::{
    lemma_parse_ser_bool, lemma_parse_ser_bytes, lemma_parse_ser_i64, lemma_parse_ser_opt_i64,
    lemma_parse_ser_opt_text, lemma_parse_ser_text, lemma_parse_ser_u32, lemma_parse_ser_u64,
    lemma_parse_ser_u8, lemma_ser_len_int, lemma_ser_len_opt_i64, lemma_ser_len_opt_text,
    lemma_ser_len_text, lemma_ser_parse_bool, lemma_ser_parse_bytes,
    lemma_ser_parse_i64, lemma_ser_parse_opt_i64, lemma_ser_parse_opt_text,
    lemma_ser_parse_text, lemma_ser_parse_u32, lemma_ser_parse_u64, lemma_ser_parse_u8,
    parse_bool, parse_bytes, parse_i64, parse_opt_i64, parse_opt_text, parse_text, parse_u32,
    parse_u64, parse_u8, ser_bool, ser_i64, ser_opt_i64, ser_opt_text, ser_text, ser_u32,
    ser_u64, ser_u8,
};
use vstd::prelude::*;

verus! {

// ---------------------------------------------------------------------------
// Contacts
// ---------------------------------------------------------------------------

pub proof fn lemma_parse_ser_contact(contact: EmergencyContactView, rest: Seq<u8>)
    requires
        contact.within_limits(),
    ensures
        parse_contact(ser_contact(contact) + rest) == Some((contact, rest)),
{
    reveal(parse_contact);
    let back2 = ser_text(contact.phone) + rest;
    let back1 = ser_text(contact.relationship) + back2;
    let back0 = ser_text(contact.name) + back1;
    lemma_parse_ser_text(contact.name, MAX_NAME_LEN as nat, back1);
    lemma_parse_ser_text(contact.relationship, MAX_RELATIONSHIP_LEN as nat, back2);
    lemma_parse_ser_text(contact.phone, MAX_PHONE_LEN as nat, rest);
    assert(ser_contact(contact) + rest =~= back0);
}

pub proof fn lemma_ser_parse_contact(s: Seq<u8>)
    ensures
        parse_contact(s) matches Some((contact, rest)) ==> contact.within_limits() && s
            == ser_contact(contact) + rest,
{
    reveal(parse_contact);
    if let Some((contact, rest)) = parse_contact(s) {
        let rest0 = rest_of(parse_text(s, MAX_NAME_LEN as nat));
        let rest1 = rest_of(parse_text(rest0, MAX_RELATIONSHIP_LEN as nat));
        lemma_ser_parse_text(s, MAX_NAME_LEN as nat);
        lemma_ser_parse_text(rest0, MAX_RELATIONSHIP_LEN as nat);
        lemma_ser_parse_text(rest1, MAX_PHONE_LEN as nat);
        assert(s =~= ser_contact(contact) + rest);
    }
}

pub proof fn lemma_parse_ser_contact_seq(contacts: Seq<EmergencyContactView>, rest: Seq<u8>)
    requires
        forall|i: int| 0 <= i < contacts.len() ==> (#[trigger] contacts[i]).within_limits(),
    ensures
        parse_contact_seq(ser_contact_seq(contacts) + rest, contacts.len()) == Some(
            (contacts, rest),
        ),
    decreases contacts.len(),
{
    if contacts.len() > 0 {
        let front = contacts.drop_last();
        let last = contacts.last();
        let tail = ser_contact(last) + rest;
        assert(ser_contact_seq(contacts) + rest =~= ser_contact_seq(front) + tail);
        lemma_parse_ser_contact_seq(front, tail);
        lemma_parse_ser_contact(last, rest);
        assert(front.push(last) =~= contacts);
    }
}

pub proof fn lemma_ser_parse_contact_seq(s: Seq<u8>, n: nat)
    ensures
        parse_contact_seq(s, n) matches Some((contacts, rest)) ==> {
            &&& contacts.len() == n
            &&& forall|i: int| 0 <= i < contacts.len() ==> (#[trigger] contacts[i]).within_limits()
            &&& s == ser_contact_seq(contacts) + rest
        },
    decreases n,
{
    if let Some((contacts, rest)) = parse_contact_seq(s, n) {
        if n == 0 {
            assert(s =~= ser_contact_seq(contacts) + rest);
        } else {
            let (front, middle) = parse_contact_seq(s, (n - 1) as nat).unwrap();
            let (last, _) = parse_contact(middle).unwrap();
            lemma_ser_parse_contact_seq(s, (n - 1) as nat);
            lemma_ser_parse_contact(middle);
            assert(contacts.drop_last() =~= front);
            assert(contacts.last() == last);
            assert(s =~= ser_contact_seq(contacts) + rest);
        }
    }
}

pub proof fn lemma_parse_ser_contacts(contacts: Seq<EmergencyContactView>, rest: Seq<u8>)
    requires
        contacts.len() <= MAX_EMERGENCY_CONTACTS,
        forall|i: int| 0 <= i < contacts.len() ==> (#[trigger] contacts[i]).within_limits(),
    ensures
        parse_contacts(ser_contacts(contacts) + rest) == Some((contacts, rest)),
{
    reveal(parse_contacts);
    let tail = ser_contact_seq(contacts) + rest;
    assert(ser_contacts(contacts) + rest =~= ser_u32(contacts.len() as u32) + tail);
    lemma_parse_ser_u32(contacts.len() as u32, tail);
    lemma_parse_ser_contact_seq(contacts, rest);
}

pub proof fn lemma_ser_parse_contacts(s: Seq<u8>)
    ensures
        parse_contacts(s) matches Some((contacts, rest)) ==> {
            &&& contacts.len() <= MAX_EMERGENCY_CONTACTS
            &&& forall|i: int| 0 <= i < contacts.len() ==> (#[trigger] contacts[i]).within_limits()
            &&& s == ser_contacts(contacts) + rest
        },
{
    reveal(parse_contacts);
    if let Some((contacts, rest)) = parse_contacts(s) {
        let (n, after) = parse_u32(s).unwrap();
        lemma_ser_parse_u32(s);
        lemma_ser_parse_contact_seq(after, n as nat);
        assert(s =~= ser_contacts(contacts) + rest);
    }
}

// ---------------------------------------------------------------------------
// The whole record
// ---------------------------------------------------------------------------

/// Concatenation may be grouped either way.
proof fn lemma_concat_assoc(a: Seq<u8>, b: Seq<u8>, c: Seq<u8>)
    ensures
        (a + b) + c == a + (b + c),
{
    assert((a + b) + c =~= a + (b + c));
}

/// The bytes of a record with `tail` behind them, grouped from the back: what
/// `parse_record` meets as it reads field after field.
pub open spec fn ser_record_before(v: TouristAccountView, tail: Seq<u8>) -> Seq<u8> {
    account_tag()
        + (v.authority
        + (ser_text(v.digital_id)
        + (ser_text(v.name)
        + (ser_text(v.gender)
        + (ser_u8(v.age)
        + (ser_text(v.id_number_hash)
        + (ser_text(v.phone)
        + (ser_text(v.nationality)
        + (ser_opt_text(v.email)
        + (ser_i64(v.registration_timestamp)
        + (ser_i64(v.blockchain_timestamp)
        + (ser_u64(v.slot)
        + (ser_bool(v.is_active)
        + (ser_u8(v.version)
        + (ser_opt_i64(v.trip_start_date)
        + (ser_opt_i64(v.trip_end_date)
        + (ser_opt_text(v.purpose)
        + (ser_opt_text(v.accommodation)
        + (ser_opt_text(v.itinerary)
        + (ser_contacts(v.emergency_contacts)
        + (ser_i64(v.trip_updated_timestamp)
        + (ser_opt_i64(v.deactivation_timestamp) + tail))))))))))))))))))))))
}

/// Grouping does not change the bytes.
pub proof fn lemma_ser_record_before(v: TouristAccountView, tail: Seq<u8>)
    ensures
        ser_record(v) + tail == ser_record_before(v, tail),
{
    let back23 = tail;
    let back22 = ser_opt_i64(v.deactivation_timestamp) + back23;
    let back21 = ser_i64(v.trip_updated_timestamp) + back22;
    let back20 = ser_contacts(v.emergency_contacts) + back21;
    let back19 = ser_opt_text(v.itinerary) + back20;
    let back18 = ser_opt_text(v.accommodation) + back19;
    let back17 = ser_opt_text(v.purpose) + back18;
    let back16 = ser_opt_i64(v.trip_end_date) + back17;
    let back15 = ser_opt_i64(v.trip_start_date) + back16;
    let back14 = ser_u8(v.version) + back15;
    let back13 = ser_bool(v.is_active) + back14;
    let back12 = ser_u64(v.slot) + back13;
    let back11 = ser_i64(v.blockchain_timestamp) + back12;
    let back10 = ser_i64(v.registration_timestamp) + back11;
    let back9 = ser_opt_text(v.email) + back10;
    let back8 = ser_text(v.nationality) + back9;
    let back7 = ser_text(v.phone) + back8;
    let back6 = ser_text(v.id_number_hash) + back7;
    let back5 = ser_u8(v.age) + back6;
    let back4 = ser_text(v.gender) + back5;
    let back3 = ser_text(v.name) + back4;
    let back2 = ser_text(v.digital_id) + back3;
    let back1 = v.authority + back2;
    let back0 = account_tag() + back1;
    let front0 = account_tag();
    let front1 = front0 + v.authority;
    let front2 = front1 + ser_text(v.digital_id);
    let front3 = front2 + ser_text(v.name);
    let front4 = front3 + ser_text(v.gender);
    let front5 = front4 + ser_u8(v.age);
    let front6 = front5 + ser_text(v.id_number_hash);
    let front7 = front6 + ser_text(v.phone);
    let front8 = front7 + ser_text(v.nationality);
    let front9 = front8 + ser_opt_text(v.email);
    let front10 = front9 + ser_i64(v.registration_timestamp);
    let front11 = front10 + ser_i64(v.blockchain_timestamp);
    let front12 = front11 + ser_u64(v.slot);
    let front13 = front12 + ser_bool(v.is_active);
    let front14 = front13 + ser_u8(v.version);
    let front15 = front14 + ser_opt_i64(v.trip_start_date);
    let front16 = front15 + ser_opt_i64(v.trip_end_date);
    let front17 = front16 + ser_opt_text(v.purpose);
    let front18 = front17 + ser_opt_text(v.accommodation);
    let front19 = front18 + ser_opt_text(v.itinerary);
    let front20 = front19 + ser_contacts(v.emergency_contacts);
    let front21 = front20 + ser_i64(v.trip_updated_timestamp);
    let front22 = front21 + ser_opt_i64(v.deactivation_timestamp);
    assert(front22 == ser_record(v));
    lemma_concat_assoc(front21, ser_opt_i64(v.deactivation_timestamp), back23);
    lemma_concat_assoc(front20, ser_i64(v.trip_updated_timestamp), back22);
    lemma_concat_assoc(front19, ser_contacts(v.emergency_contacts), back21);
    lemma_concat_assoc(front18, ser_opt_text(v.itinerary), back20);
    lemma_concat_assoc(front17, ser_opt_text(v.accommodation), back19);
    lemma_concat_assoc(front16, ser_opt_text(v.purpose), back18);
    lemma_concat_assoc(front15, ser_opt_i64(v.trip_end_date), back17);
    lemma_concat_assoc(front14, ser_opt_i64(v.trip_start_date), back16);
    lemma_concat_assoc(front13, ser_u8(v.version), back15);
    lemma_concat_assoc(front12, ser_bool(v.is_active), back14);
    lemma_concat_assoc(front11, ser_u64(v.slot), back13);
    lemma_concat_assoc(front10, ser_i64(v.blockchain_timestamp), back12);
    lemma_concat_assoc(front9, ser_i64(v.registration_timestamp), back11);
    lemma_concat_assoc(front8, ser_opt_text(v.email), back10);
    lemma_concat_assoc(front7, ser_text(v.nationality), back9);
    lemma_concat_assoc(front6, ser_text(v.phone), back8);
    lemma_concat_assoc(front5, ser_text(v.id_number_hash), back7);
    lemma_concat_assoc(front4, ser_u8(v.age), back6);
    lemma_concat_assoc(front3, ser_text(v.gender), back5);
    lemma_concat_assoc(front2, ser_text(v.name), back4);
    lemma_concat_assoc(front1, ser_text(v.digital_id), back3);
    lemma_concat_assoc(front0, v.authority, back2);
    assert(front0 + back1 == back0);
    assert(back0 == ser_record_before(v, tail));
}

/// Reading the bytes of a record that fits its slot gives the record back, whatever
/// stands behind them.
pub proof fn lemma_round_trip(v: TouristAccountView, padding: Seq<u8>)
    requires
        v.within_limits(),
    ensures
        parse_record(ser_record(v) + padding) == Some((v, padding)),
{
    let back23 = padding;
    let back22 = ser_opt_i64(v.deactivation_timestamp) + back23;
    let back21 = ser_i64(v.trip_updated_timestamp) + back22;
    let back20 = ser_contacts(v.emergency_contacts) + back21;
    let back19 = ser_opt_text(v.itinerary) + back20;
    let back18 = ser_opt_text(v.accommodation) + back19;
    let back17 = ser_opt_text(v.purpose) + back18;
    let back16 = ser_opt_i64(v.trip_end_date) + back17;
    let back15 = ser_opt_i64(v.trip_start_date) + back16;
    let back14 = ser_u8(v.version) + back15;
    let back13 = ser_bool(v.is_active) + back14;
    let back12 = ser_u64(v.slot) + back13;
    let back11 = ser_i64(v.blockchain_timestamp) + back12;
    let back10 = ser_i64(v.registration_timestamp) + back11;
    let back9 = ser_opt_text(v.email) + back10;
    let back8 = ser_text(v.nationality) + back9;
    let back7 = ser_text(v.phone) + back8;
    let back6 = ser_text(v.id_number_hash) + back7;
    let back5 = ser_u8(v.age) + back6;
    let back4 = ser_text(v.gender) + back5;
    let back3 = ser_text(v.name) + back4;
    let back2 = ser_text(v.digital_id) + back3;
    let back1 = v.authority + back2;
    let back0 = account_tag() + back1;
    lemma_parse_ser_bytes(account_tag(), back1);
    lemma_parse_ser_bytes(v.authority, back2);
    lemma_parse_ser_text(v.digital_id, MAX_DIGITAL_ID_LEN as nat, back3);
    lemma_parse_ser_text(v.name, MAX_NAME_LEN as nat, back4);
    lemma_parse_ser_text(v.gender, MAX_GENDER_LEN as nat, back5);
    lemma_parse_ser_u8(v.age, back6);
    lemma_parse_ser_text(v.id_number_hash, MAX_ID_NUMBER_HASH_LEN as nat, back7);
    lemma_parse_ser_text(v.phone, MAX_PHONE_LEN as nat, back8);
    lemma_parse_ser_text(v.nationality, MAX_NATIONALITY_LEN as nat, back9);
    lemma_parse_ser_opt_text(v.email, MAX_EMAIL_LEN as nat, back10);
    lemma_parse_ser_i64(v.registration_timestamp, back11);
    lemma_parse_ser_i64(v.blockchain_timestamp, back12);
    lemma_parse_ser_u64(v.slot, back13);
    lemma_parse_ser_bool(v.is_active, back14);
    lemma_parse_ser_u8(v.version, back15);
    lemma_parse_ser_opt_i64(v.trip_start_date, back16);
    lemma_parse_ser_opt_i64(v.trip_end_date, back17);
    lemma_parse_ser_opt_text(v.purpose, MAX_PURPOSE_LEN as nat, back18);
    lemma_parse_ser_opt_text(v.accommodation, MAX_ACCOMMODATION_LEN as nat, back19);
    lemma_parse_ser_opt_text(v.itinerary, MAX_ITINERARY_LEN as nat, back20);
    lemma_parse_ser_contacts(v.emergency_contacts, back21);
    lemma_parse_ser_i64(v.trip_updated_timestamp, back22);
    lemma_parse_ser_opt_i64(v.deactivation_timestamp, back23);
    lemma_ser_record_before(v, padding);
    assert(back0 == ser_record_before(v, padding));
}

/// Bytes that stand for a record are the bytes of that record, with the unread
/// rest behind them, and the record fits its slot.
pub proof fn lemma_parse_sound(s: Seq<u8>)
    ensures
        parse_record(s) matches Some((v, rest)) ==> v.within_limits() && s == ser_record(v) + rest,
{
    if let Some((v, rest)) = parse_record(s) {
        let rest0 = rest_of(parse_bytes(s, 8));
        lemma_ser_parse_bytes(s, 8);
        let rest1 = rest_of(parse_bytes(rest0, 32));
        lemma_ser_parse_bytes(rest0, 32);
        let rest2 = rest_of(parse_text(rest1, MAX_DIGITAL_ID_LEN as nat));
        lemma_ser_parse_text(rest1, MAX_DIGITAL_ID_LEN as nat);
        let rest3 = rest_of(parse_text(rest2, MAX_NAME_LEN as nat));
        lemma_ser_parse_text(rest2, MAX_NAME_LEN as nat);
        let rest4 = rest_of(parse_text(rest3, MAX_GENDER_LEN as nat));
        lemma_ser_parse_text(rest3, MAX_GENDER_LEN as nat);
        let rest5 = rest_of(parse_u8(rest4));
        lemma_ser_parse_u8(rest4);
        let rest6 = rest_of(parse_text(rest5, MAX_ID_NUMBER_HASH_LEN as nat));
        lemma_ser_parse_text(rest5, MAX_ID_NUMBER_HASH_LEN as nat);
        let rest7 = rest_of(parse_text(rest6, MAX_PHONE_LEN as nat));
        lemma_ser_parse_text(rest6, MAX_PHONE_LEN as nat);
        let rest8 = rest_of(parse_text(rest7, MAX_NATIONALITY_LEN as nat));
        lemma_ser_parse_text(rest7, MAX_NATIONALITY_LEN as nat);
        let rest9 = rest_of(parse_opt_text(rest8, MAX_EMAIL_LEN as nat));
        lemma_ser_parse_opt_text(rest8, MAX_EMAIL_LEN as nat);
        let rest10 = rest_of(parse_i64(rest9));
        lemma_ser_parse_i64(rest9);
        let rest11 = rest_of(parse_i64(rest10));
        lemma_ser_parse_i64(rest10);
        let rest12 = rest_of(parse_u64(rest11));
        lemma_ser_parse_u64(rest11);
        let rest13 = rest_of(parse_bool(rest12));
        lemma_ser_parse_bool(rest12);
        let rest14 = rest_of(parse_u8(rest13));
        lemma_ser_parse_u8(rest13);
        let rest15 = rest_of(parse_opt_i64(rest14));
        lemma_ser_parse_opt_i64(rest14);
        let rest16 = rest_of(parse_opt_i64(rest15));
        lemma_ser_parse_opt_i64(rest15);
        let rest17 = rest_of(parse_opt_text(rest16, MAX_PURPOSE_LEN as nat));
        lemma_ser_parse_opt_text(rest16, MAX_PURPOSE_LEN as nat);
        let rest18 = rest_of(parse_opt_text(rest17, MAX_ACCOMMODATION_LEN as nat));
        lemma_ser_parse_opt_text(rest17, MAX_ACCOMMODATION_LEN as nat);
        let rest19 = rest_of(parse_opt_text(rest18, MAX_ITINERARY_LEN as nat));
        lemma_ser_parse_opt_text(rest18, MAX_ITINERARY_LEN as nat);
        let rest20 = rest_of(parse_contacts(rest19));
        lemma_ser_parse_contacts(rest19);
        let rest21 = rest_of(parse_i64(rest20));
        lemma_ser_parse_i64(rest20);
        let rest22 = rest_of(parse_opt_i64(rest21));
        lemma_ser_parse_opt_i64(rest21);
        assert(rest22 == rest);
        let back23 = rest;
        let back22 = ser_opt_i64(v.deactivation_timestamp) + back23;
        let back21 = ser_i64(v.trip_updated_timestamp) + back22;
        let back20 = ser_contacts(v.emergency_contacts) + back21;
        let back19 = ser_opt_text(v.itinerary) + back20;
        let back18 = ser_opt_text(v.accommodation) + back19;
        let back17 = ser_opt_text(v.purpose) + back18;
        let back16 = ser_opt_i64(v.trip_end_date) + back17;
        let back15 = ser_opt_i64(v.trip_start_date) + back16;
        let back14 = ser_u8(v.version) + back15;
        let back13 = ser_bool(v.is_active) + back14;
        let back12 = ser_u64(v.slot) + back13;
        let back11 = ser_i64(v.blockchain_timestamp) + back12;
        let back10 = ser_i64(v.registration_timestamp) + back11;
        let back9 = ser_opt_text(v.email) + back10;
        let back8 = ser_text(v.nationality) + back9;
        let back7 = ser_text(v.phone) + back8;
        let back6 = ser_text(v.id_number_hash) + back7;
        let back5 = ser_u8(v.age) + back6;
        let back4 = ser_text(v.gender) + back5;
        let back3 = ser_text(v.name) + back4;
        let back2 = ser_text(v.digital_id) + back3;
        let back1 = v.authority + back2;
        let back0 = account_tag() + back1;
        assert(rest21 == back22);
        assert(rest20 == back21);
        assert(rest19 == back20);
        assert(rest18 == back19);
        assert(rest17 == back18);
        assert(rest16 == back17);
        assert(rest15 == back16);
        assert(rest14 == back15);
        assert(rest13 == back14);
        assert(rest12 == back13);
        assert(rest11 == back12);
        assert(rest10 == back11);
        assert(rest9 == back10);
        assert(rest8 == back9);
        assert(rest7 == back8);
        assert(rest6 == back7);
        assert(rest5 == back6);
        assert(rest4 == back5);
        assert(rest3 == back4);
        assert(rest2 == back3);
        assert(rest1 == back2);
        assert(rest0 == back1);
        assert(s == back0);
        lemma_ser_record_before(v, rest);
        assert(back0 == ser_record_before(v, rest));
    }
}

// ---------------------------------------------------------------------------
// Capacity
// ---------------------------------------------------------------------------

pub proof fn lemma_contact_len(contact: EmergencyContactView)
    ensures
        ser_contact(contact).len() == 12 + byte_len(contact.name) + byte_len(contact.relationship)
            + byte_len(contact.phone),
{
    lemma_ser_len_text(contact.name);
    lemma_ser_len_text(contact.relationship);
    lemma_ser_len_text(contact.phone);
}

pub proof fn lemma_contact_seq_len(contacts: Seq<EmergencyContactView>)
    requires
        forall|i: int| 0 <= i < contacts.len() ==> (#[trigger] contacts[i]).within_limits(),
    ensures
        ser_contact_seq(contacts).len() <= 182 * contacts.len(),
    decreases contacts.len(),
{
    if contacts.len() > 0 {
        lemma_contact_seq_len(contacts.drop_last());
        lemma_contact_len(contacts.last());
        assert(contacts.last().within_limits());
    }
}

/// A record that fits its slot takes no more bytes than the slot's capacity, whichever
/// of its optional fields are present.
pub proof fn lemma_encoded_len_bounded(v: TouristAccountView)
    requires
        v.within_limits(),
    ensures
        ser_record(v).len() <= SPACE,
{
    lemma_ser_len_text(v.digital_id);
    lemma_ser_len_text(v.name);
    lemma_ser_len_text(v.gender);
    lemma_ser_len_text(v.id_number_hash);
    lemma_ser_len_text(v.phone);
    lemma_ser_len_text(v.nationality);
    lemma_ser_len_opt_text(v.email);
    lemma_ser_len_int(v.emergency_contacts.len() as u32, v.slot, v.registration_timestamp);
    lemma_ser_len_int(0, 0, v.blockchain_timestamp);
    lemma_ser_len_int(0, 0, v.trip_updated_timestamp);
    lemma_ser_len_opt_i64(v.trip_start_date);
    lemma_ser_len_opt_i64(v.trip_end_date);
    lemma_ser_len_opt_i64(v.deactivation_timestamp);
    lemma_ser_len_opt_text(v.purpose);
    lemma_ser_len_opt_text(v.accommodation);
    lemma_ser_len_opt_text(v.itinerary);
    lemma_contact_seq_len(v.emergency_contacts);
}

} // verus!
