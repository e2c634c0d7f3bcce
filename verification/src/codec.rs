//! The wire form of a whole record: an 8-byte tag, then every field in the order of
//! its declaration. A storage slot holds this form, followed by unused bytes.

use crate::account::{
    byte_len, contacts_view, opt_text_view, EmergencyContact, EmergencyContactView, Pubkey,
    TouristAccount, TouristAccountView,
};
use crate::codec_proofs::lemma_encoded_len_bounded;
use crate::error::ErrorCode;
use crate::limits::{
    MAX_ACCOMMODATION_LEN, MAX_DIGITAL_ID_LEN, MAX_EMAIL_LEN, MAX_EMERGENCY_CONTACTS,
    MAX_GENDER_LEN, MAX_ID_NUMBER_HASH_LEN, MAX_ITINERARY_LEN, MAX_NAME_LEN, MAX_NATIONALITY_LEN,
    MAX_PHONE_LEN, MAX_PURPOSE_LEN, MAX_RELATIONSHIP_LEN, SPACE,
};
use crate::wire::{
    parse_bool, parse_bytes, parse_i64, parse_opt_i64, parse_opt_text, parse_text, parse_u32,
    parse_u64, parse_u8, put_bool, put_bytes, put_i64, put_opt_i64, put_opt_text, put_text,
    put_u32, put_u64, put_u8, ser_bool, ser_i64, ser_opt_i64, ser_opt_text, ser_text, ser_u32,
    ser_u64, ser_u8,
};
use vstd::prelude::*;

verus! {

// ---------------------------------------------------------------------------
// The bytes of a record
// ---------------------------------------------------------------------------

/// The tag that opens every stored record. A slot that was never written starts
/// with zeros instead.
pub open spec fn account_tag() -> Seq<u8> {
    seq![14u8, 191u8, 64u8, 182u8, 21u8, 97u8, 96u8, 169u8]
}

pub open spec fn ser_contact(contact: EmergencyContactView) -> Seq<u8> {
    ser_text(contact.name) + ser_text(contact.relationship) + ser_text(contact.phone)
}

/// The contacts one after the other, without their count.
pub open spec fn ser_contact_seq(contacts: Seq<EmergencyContactView>) -> Seq<u8>
    decreases contacts.len(),
{
    if contacts.len() == 0 {
        Seq::empty()
    } else {
        ser_contact_seq(contacts.drop_last()) + ser_contact(contacts.last())
    }
}

/// The list of contacts: their count in 4 bytes, then each of them.
pub open spec fn ser_contacts(contacts: Seq<EmergencyContactView>) -> Seq<u8> {
    ser_u32(contacts.len() as u32) + ser_contact_seq(contacts)
}

/// The wire form of a record.
pub open spec fn ser_record(v: TouristAccountView) -> Seq<u8> {
    account_tag()
        + v.authority
        + ser_text(v.digital_id)
        + ser_text(v.name)
        + ser_text(v.gender)
        + ser_u8(v.age)
        + ser_text(v.id_number_hash)
        + ser_text(v.phone)
        + ser_text(v.nationality)
        + ser_opt_text(v.email)
        + ser_i64(v.registration_timestamp)
        + ser_i64(v.blockchain_timestamp)
        + ser_u64(v.slot)
        + ser_bool(v.is_active)
        + ser_u8(v.version)
        + ser_opt_i64(v.trip_start_date)
        + ser_opt_i64(v.trip_end_date)
        + ser_opt_text(v.purpose)
        + ser_opt_text(v.accommodation)
        + ser_opt_text(v.itinerary)
        + ser_contacts(v.emergency_contacts)
        + ser_i64(v.trip_updated_timestamp)
        + ser_opt_i64(v.deactivation_timestamp)
}

// ---------------------------------------------------------------------------
// Writing a record
// ---------------------------------------------------------------------------

impl EmergencyContact {
    /// Whether every text of the contact is within its byte budget.
    pub fn within_limits(&self) -> (ok: bool)
        ensures
            ok == self@.within_limits(),
    {
        self.name.as_str().as_bytes().len() <= MAX_NAME_LEN
            && self.relationship.as_str().as_bytes().len() <= MAX_RELATIONSHIP_LEN
            && self.phone.as_str().as_bytes().len() <= MAX_PHONE_LEN
    }
}

fn text_within(text: &String, max: usize) -> (ok: bool)
    ensures
        ok == (byte_len(text@) <= max),
{
    text.as_str().as_bytes().len() <= max
}

fn opt_text_within(text: &Option<String>, max: usize) -> (ok: bool)
    ensures
        ok == crate::account::opt_byte_len_within(opt_text_view(*text), max as nat),
{
    match text {
        Some(t) => text_within(t, max),
        None => true,
    }
}

fn contacts_within(contacts: &Vec<EmergencyContact>) -> (ok: bool)
    ensures
        ok == (forall|i: int|
            0 <= i < contacts.len() ==> (#[trigger] contacts_view(contacts@)[i]).within_limits()),
{
    let mut i: usize = 0;
    while i < contacts.len()
        invariant
            i <= contacts.len(),
            forall|j: int| 0 <= j < i ==> (#[trigger] contacts_view(contacts@)[j]).within_limits(),
        decreases contacts.len() - i,
    {
        if !contacts[i].within_limits() {
            assert(!contacts_view(contacts@)[i as int].within_limits());
            return false;
        }
        i += 1;
    }
    true
}

fn put_contact(out: &mut Vec<u8>, contact: &EmergencyContact)
    requires
        contact@.within_limits(),
    ensures
        final(out)@ == old(out)@ + ser_contact(contact@),
{
    put_text(out, &contact.name);
    put_text(out, &contact.relationship);
    put_text(out, &contact.phone);
    assert(out@ =~= old(out)@ + ser_contact(contact@));
}

fn put_contacts(out: &mut Vec<u8>, contacts: &Vec<EmergencyContact>)
    requires
        contacts.len() <= MAX_EMERGENCY_CONTACTS,
        forall|i: int|
            0 <= i < contacts.len() ==> (#[trigger] contacts_view(contacts@)[i]).within_limits(),
    ensures
        final(out)@ == old(out)@ + ser_contacts(contacts_view(contacts@)),
{
    let ghost views = contacts_view(contacts@);
    put_u32(out, contacts.len() as u32);
    let ghost base = out@;
    let mut i: usize = 0;
    while i < contacts.len()
        invariant
            i <= contacts.len(),
            views == contacts_view(contacts@),
            forall|j: int| 0 <= j < contacts.len() ==> (#[trigger] views[j]).within_limits(),
            out@ == base + ser_contact_seq(views.take(i as int)),
        decreases contacts.len() - i,
    {
        assert(views[i as int].within_limits());
        put_contact(out, &contacts[i]);
        proof {
            let upto = views.take(i + 1);
            assert(upto.drop_last() =~= views.take(i as int));
            assert(upto.last() == contacts[i as int]@);
            assert(out@ =~= base + ser_contact_seq(upto));
        }
        i += 1;
    }
    proof {
        assert(views.take(contacts.len() as int) =~= views);
        assert(out@ =~= old(out)@ + ser_contacts(views));
    }
}

fn put_tag(out: &mut Vec<u8>)
    ensures
        final(out)@ == old(out)@ + account_tag(),
{
    out.push(14u8);
    out.push(191u8);
    out.push(64u8);
    out.push(182u8);
    out.push(21u8);
    out.push(97u8);
    out.push(96u8);
    out.push(169u8);
    assert(out@ =~= old(out)@ + account_tag());
}

impl TouristAccount {
    /// The number of bytes that a storage slot reserves for a record, whatever the
    /// record holds.
    pub fn capacity() -> (bytes: usize)
        ensures
            bytes == SPACE,
            bytes == 2954,
    {
        SPACE
    }

    /// Whether the record fits its storage slot: every text within its byte budget, at
    /// most 5 contacts.
    pub fn within_limits(&self) -> (ok: bool)
        ensures
            ok == self@.within_limits(),
    {
        text_within(&self.digital_id, MAX_DIGITAL_ID_LEN)
            && text_within(&self.name, MAX_NAME_LEN)
            && text_within(&self.gender, MAX_GENDER_LEN)
            && text_within(&self.id_number_hash, MAX_ID_NUMBER_HASH_LEN)
            && text_within(&self.phone, MAX_PHONE_LEN)
            && text_within(&self.nationality, MAX_NATIONALITY_LEN)
            && opt_text_within(&self.email, MAX_EMAIL_LEN)
            && opt_text_within(&self.purpose, MAX_PURPOSE_LEN)
            && opt_text_within(&self.accommodation, MAX_ACCOMMODATION_LEN)
            && opt_text_within(&self.itinerary, MAX_ITINERARY_LEN)
            && self.emergency_contacts.len() <= MAX_EMERGENCY_CONTACTS
            && contacts_within(&self.emergency_contacts)
    }

    /// The wire form of the record, or `EncodingOverflow` where a field is beyond its
    /// byte budget. Nothing is ever cut short.
    pub fn encode(&self) -> (r: Result<Vec<u8>, ErrorCode>)
        ensures
            match r {
                Ok(bytes) => self@.within_limits() && bytes@ == ser_record(self@) && bytes.len()
                    <= SPACE,
                Err(e) => !self@.within_limits() && e == ErrorCode::EncodingOverflow,
            },
    {
        if !self.within_limits() {
            return Err(ErrorCode::EncodingOverflow);
        }
        let mut out: Vec<u8> = Vec::new();
        put_tag(&mut out);
        put_bytes(&mut out, self.authority.bytes.as_slice());
        put_text(&mut out, &self.digital_id);
        put_text(&mut out, &self.name);
        put_text(&mut out, &self.gender);
        put_u8(&mut out, self.age);
        put_text(&mut out, &self.id_number_hash);
        put_text(&mut out, &self.phone);
        put_text(&mut out, &self.nationality);
        put_opt_text(&mut out, &self.email);
        put_i64(&mut out, self.registration_timestamp);
        put_i64(&mut out, self.blockchain_timestamp);
        put_u64(&mut out, self.slot);
        put_bool(&mut out, self.is_active);
        put_u8(&mut out, self.version);
        put_opt_i64(&mut out, &self.trip_start_date);
        put_opt_i64(&mut out, &self.trip_end_date);
        put_opt_text(&mut out, &self.purpose);
        put_opt_text(&mut out, &self.accommodation);
        put_opt_text(&mut out, &self.itinerary);
        put_contacts(&mut out, &self.emergency_contacts);
        put_i64(&mut out, self.trip_updated_timestamp);
        put_opt_i64(&mut out, &self.deactivation_timestamp);
        proof {
            assert(out@ =~= ser_record(self@));
            lemma_encoded_len_bounded(self@);
        }
        Ok(out)
    }
}


// ---------------------------------------------------------------------------
// The record that bytes stand for
// ---------------------------------------------------------------------------

/// What is left behind a value that was read; nothing where none was read.
pub open spec fn rest_of<T>(r: Option<(T, Seq<u8>)>) -> Seq<u8> {
    match r {
        Some((_, rest)) => rest,
        None => Seq::empty(),
    }
}

/// The value that was read. Meaningful only where one was read.
pub open spec fn value_of<T>(r: Option<(T, Seq<u8>)>) -> T {
    match r {
        Some((value, _)) => value,
        None => arbitrary(),
    }
}

/// A contact at the front of `s`: three texts, each within its byte budget.
#[verifier::opaque]
pub open spec fn parse_contact(s: Seq<u8>) -> Option<(EmergencyContactView, Seq<u8>)> {
    let name = parse_text(s, MAX_NAME_LEN as nat);
    let relationship = parse_text(rest_of(name), MAX_RELATIONSHIP_LEN as nat);
    let phone = parse_text(rest_of(relationship), MAX_PHONE_LEN as nat);
    if name is Some && relationship is Some && phone is Some {
        Some(
            (
                EmergencyContactView {
                    name: value_of(name),
                    relationship: value_of(relationship),
                    phone: value_of(phone),
                },
                rest_of(phone),
            ),
        )
    } else {
        None
    }
}

/// `n` contacts at the front of `s`, one after the other.
pub open spec fn parse_contact_seq(s: Seq<u8>, n: nat) -> Option<
    (Seq<EmergencyContactView>, Seq<u8>),
>
    decreases n,
{
    if n == 0 {
        Some((Seq::empty(), s))
    } else {
        match parse_contact_seq(s, (n - 1) as nat) {
            Some((contacts, rest)) => match parse_contact(rest) {
                Some((contact, rest2)) => Some((contacts.push(contact), rest2)),
                None => None,
            },
            None => None,
        }
    }
}

/// A list of contacts at the front of `s`: refused where it declares more than 5.
#[verifier::opaque]
pub open spec fn parse_contacts(s: Seq<u8>) -> Option<(Seq<EmergencyContactView>, Seq<u8>)> {
    match parse_u32(s) {
        Some((n, rest)) => {
            if n <= MAX_EMERGENCY_CONTACTS {
                parse_contact_seq(rest, n as nat)
            } else {
                None
            }
        },
        None => None,
    }
}

/// The record at the front of `s`, and the bytes behind it. There is none where the
/// tag is not the record tag, where `s` ends before the record does, where a presence
/// flag or the activity flag is neither 0 nor 1, where a text or the contact list
/// declares more than its maximum, or where a text is not UTF-8.
pub open spec fn parse_record(s: Seq<u8>) -> Option<(TouristAccountView, Seq<u8>)> {
    let tag = parse_bytes(s, 8);
    let authority = parse_bytes(rest_of(tag), 32);
    let digital_id = parse_text(rest_of(authority), MAX_DIGITAL_ID_LEN as nat);
    let name = parse_text(rest_of(digital_id), MAX_NAME_LEN as nat);
    let gender = parse_text(rest_of(name), MAX_GENDER_LEN as nat);
    let age = parse_u8(rest_of(gender));
    let id_number_hash = parse_text(rest_of(age), MAX_ID_NUMBER_HASH_LEN as nat);
    let phone = parse_text(rest_of(id_number_hash), MAX_PHONE_LEN as nat);
    let nationality = parse_text(rest_of(phone), MAX_NATIONALITY_LEN as nat);
    let email = parse_opt_text(rest_of(nationality), MAX_EMAIL_LEN as nat);
    let registration_timestamp = parse_i64(rest_of(email));
    let blockchain_timestamp = parse_i64(rest_of(registration_timestamp));
    let slot = parse_u64(rest_of(blockchain_timestamp));
    let is_active = parse_bool(rest_of(slot));
    let version = parse_u8(rest_of(is_active));
    let trip_start_date = parse_opt_i64(rest_of(version));
    let trip_end_date = parse_opt_i64(rest_of(trip_start_date));
    let purpose = parse_opt_text(rest_of(trip_end_date), MAX_PURPOSE_LEN as nat);
    let accommodation = parse_opt_text(rest_of(purpose), MAX_ACCOMMODATION_LEN as nat);
    let itinerary = parse_opt_text(rest_of(accommodation), MAX_ITINERARY_LEN as nat);
    let emergency_contacts = parse_contacts(rest_of(itinerary));
    let trip_updated_timestamp = parse_i64(rest_of(emergency_contacts));
    let deactivation_timestamp = parse_opt_i64(rest_of(trip_updated_timestamp));
    if tag is Some && value_of(tag) == account_tag() && authority is Some && digital_id is Some
        && name is Some && gender is Some && age is Some && id_number_hash is Some && phone is Some
        && nationality is Some && email is Some && registration_timestamp is Some
        && blockchain_timestamp is Some && slot is Some && is_active is Some && version is Some
        && trip_start_date is Some && trip_end_date is Some && purpose is Some
        && accommodation is Some && itinerary is Some && emergency_contacts is Some
        && trip_updated_timestamp is Some && deactivation_timestamp is Some {
        Some(
            (
                TouristAccountView {
                    authority: value_of(authority),
                    digital_id: value_of(digital_id),
                    name: value_of(name),
                    gender: value_of(gender),
                    age: value_of(age),
                    id_number_hash: value_of(id_number_hash),
                    phone: value_of(phone),
                    nationality: value_of(nationality),
                    email: value_of(email),
                    registration_timestamp: value_of(registration_timestamp),
                    blockchain_timestamp: value_of(blockchain_timestamp),
                    slot: value_of(slot),
                    is_active: value_of(is_active),
                    version: value_of(version),
                    trip_start_date: value_of(trip_start_date),
                    trip_end_date: value_of(trip_end_date),
                    purpose: value_of(purpose),
                    accommodation: value_of(accommodation),
                    itinerary: value_of(itinerary),
                    emergency_contacts: value_of(emergency_contacts),
                    trip_updated_timestamp: value_of(trip_updated_timestamp),
                    deactivation_timestamp: value_of(deactivation_timestamp),
                },
                rest_of(deactivation_timestamp),
            ),
        )
    } else {
        None
    }
}

// ---------------------------------------------------------------------------
// Reading a record
// ---------------------------------------------------------------------------

/// Once a contact cannot be read, no longer list can be read either.
proof fn lemma_contact_seq_stays_none(s: Seq<u8>, k: nat, n: nat)
    requires
        k <= n,
        parse_contact_seq(s, k) is None,
    ensures
        parse_contact_seq(s, n) is None,
    decreases n,
{
    if k < n {
        lemma_contact_seq_stays_none(s, k, (n - 1) as nat);
    }
}

fn read_tag(data: &[u8]) -> (r: Option<usize>)
    ensures
        match parse_bytes(data@, 8) {
            Some((tag, rest)) => if tag == account_tag() {
                r == Some(8usize) && 8 <= data.len() && data@.skip(8) == rest
            } else {
                r is None
            },
            None => r is None,
        },
{
    proof {
        reveal(parse_bytes);
    }
    if data.len() < 8 {
        return None;
    }
    let ok = data[0] == 14u8 && data[1] == 191u8 && data[2] == 64u8 && data[3] == 182u8
        && data[4] == 21u8 && data[5] == 97u8 && data[6] == 96u8 && data[7] == 169u8;
    proof {
        let tag = data@.take(8);
        assert(ok ==> tag =~= account_tag());
        assert(!ok ==> tag != account_tag()) by {
            if !ok && tag == account_tag() {
                assert(tag[0] == 14u8 && tag[1] == 191u8 && tag[2] == 64u8 && tag[3] == 182u8);
                assert(tag[4] == 21u8 && tag[5] == 97u8 && tag[6] == 96u8 && tag[7] == 169u8);
            }
        }
    }
    if ok {
        Some(8)
    } else {
        None
    }
}

fn read_key(data: &[u8], pos: usize) -> (r: Option<(Pubkey, usize)>)
    requires
        pos <= data.len(),
    ensures
        match parse_bytes(data@.skip(pos as int), 32) {
            Some((value, rest)) => {
                &&& r matches Some((key, next))
                &&& key@ == value
                &&& pos <= next <= data.len()
                &&& data@.skip(next as int) == rest
            },
            None => r is None,
        },
{
    proof {
        reveal(parse_bytes);
    }
    if data.len() - pos < 32 {
        return None;
    }
    let mut bytes = [0u8; 32];
    let mut i: usize = 0;
    while i < 32
        invariant
            i <= 32,
            pos + 32 <= data.len(),
            forall|j: int| 0 <= j < i ==> bytes@[j] == data@[pos + j],
        decreases 32 - i,
    {
        bytes[i] = data[pos + i];
        i += 1;
    }
    proof {
        assert(bytes@ =~= data@.skip(pos as int).take(32));
        assert(data@.skip(pos as int).skip(32) =~= data@.skip(pos + 32));
    }
    Some((Pubkey { bytes }, pos + 32))
}

fn read_contact(data: &[u8], pos: usize) -> (r: Option<(EmergencyContact, usize)>)
    requires
        pos <= data.len(),
    ensures
        match parse_contact(data@.skip(pos as int)) {
            Some((value, rest)) => {
                &&& r matches Some((contact, next))
                &&& contact@ == value
                &&& pos <= next <= data.len()
                &&& data@.skip(next as int) == rest
            },
            None => r is None,
        },
{
    proof {
        reveal(parse_contact);
    }
    let (name, pos) = match crate::wire::read_text(data, pos, MAX_NAME_LEN) {
        Some(x) => x,
        None => {
            return None;
        },
    };
    let (relationship, pos) = match crate::wire::read_text(data, pos, MAX_RELATIONSHIP_LEN) {
        Some(x) => x,
        None => {
            return None;
        },
    };
    let (phone, pos) = match crate::wire::read_text(data, pos, MAX_PHONE_LEN) {
        Some(x) => x,
        None => {
            return None;
        },
    };
    Some((EmergencyContact { name, relationship, phone }, pos))
}

fn read_contacts(data: &[u8], pos: usize) -> (r: Option<(Vec<EmergencyContact>, usize)>)
    requires
        pos <= data.len(),
    ensures
        match parse_contacts(data@.skip(pos as int)) {
            Some((value, rest)) => {
                &&& r matches Some((contacts, next))
                &&& contacts_view(contacts@) == value
                &&& pos <= next <= data.len()
                &&& data@.skip(next as int) == rest
            },
            None => r is None,
        },
{
    proof {
        reveal(parse_contacts);
    }
    let (count, start) = match crate::wire::read_u32(data, pos) {
        Some(x) => x,
        None => {
            return None;
        },
    };
    if count > 5 {
        return None;
    }
    let n = count as usize;
    let ghost s0 = data@.skip(start as int);
    let mut contacts: Vec<EmergencyContact> = Vec::new();
    let mut cur = start;
    let mut i: usize = 0;
    assert(contacts_view(contacts@) =~= Seq::empty());
    while i < n
        invariant
            i <= n,
            start <= cur <= data.len(),
            n == count,
            count <= 5,
            pos <= start,
            parse_u32(data@.skip(pos as int)) == Some((count, s0)),
            parse_contact_seq(s0, i as nat) == Some((contacts_view(contacts@), data@.skip(cur as int))),
        decreases n - i,
    {
        let ghost before = contacts_view(contacts@);
        match read_contact(data, cur) {
            Some((contact, next)) => {
                contacts.push(contact);
                cur = next;
                assert(contacts_view(contacts@) =~= before.push(contact@));
            },
            None => {
                proof {
                    reveal(parse_contacts);
                    assert(parse_contact_seq(s0, (i + 1) as nat) is None);
                    lemma_contact_seq_stays_none(s0, (i + 1) as nat, n as nat);
                }
                return None;
            },
        }
        i += 1;
    }
    Some((contacts, cur))
}

impl TouristAccount {
    /// The record that the front of `data` stands for; bytes behind it are left
    /// unread. `CorruptRecord` where the bytes stand for none.
    pub fn decode(data: &[u8]) -> (r: Result<TouristAccount, ErrorCode>)
        ensures
            match parse_record(data@) {
                Some((v, _)) => r matches Ok(record) && record@ == v,
                None => r matches Err(e) && e == ErrorCode::CorruptRecord,
            },
    {
        let pos = match read_tag(data) {
            Some(x) => x,
            None => {
                return Err(ErrorCode::CorruptRecord);
            },
        };
        let (authority, pos) = match read_key(data, pos) {
            Some(x) => x,
            None => {
                return Err(ErrorCode::CorruptRecord);
            },
        };
        let (digital_id, pos) = match crate::wire::read_text(data, pos, MAX_DIGITAL_ID_LEN) {
            Some(x) => x,
            None => {
                return Err(ErrorCode::CorruptRecord);
            },
        };
        let (name, pos) = match crate::wire::read_text(data, pos, MAX_NAME_LEN) {
            Some(x) => x,
            None => {
                return Err(ErrorCode::CorruptRecord);
            },
        };
        let (gender, pos) = match crate::wire::read_text(data, pos, MAX_GENDER_LEN) {
            Some(x) => x,
            None => {
                return Err(ErrorCode::CorruptRecord);
            },
        };
        let (age, pos) = match crate::wire::read_u8(data, pos) {
            Some(x) => x,
            None => {
                return Err(ErrorCode::CorruptRecord);
            },
        };
        let (id_number_hash, pos) = match crate::wire::read_text(data, pos, MAX_ID_NUMBER_HASH_LEN) {
            Some(x) => x,
            None => {
                return Err(ErrorCode::CorruptRecord);
            },
        };
        let (phone, pos) = match crate::wire::read_text(data, pos, MAX_PHONE_LEN) {
            Some(x) => x,
            None => {
                return Err(ErrorCode::CorruptRecord);
            },
        };
        let (nationality, pos) = match crate::wire::read_text(data, pos, MAX_NATIONALITY_LEN) {
            Some(x) => x,
            None => {
                return Err(ErrorCode::CorruptRecord);
            },
        };
        let (email, pos) = match crate::wire::read_opt_text(data, pos, MAX_EMAIL_LEN) {
            Some(x) => x,
            None => {
                return Err(ErrorCode::CorruptRecord);
            },
        };
        let (registration_timestamp, pos) = match crate::wire::read_i64(data, pos) {
            Some(x) => x,
            None => {
                return Err(ErrorCode::CorruptRecord);
            },
        };
        let (blockchain_timestamp, pos) = match crate::wire::read_i64(data, pos) {
            Some(x) => x,
            None => {
                return Err(ErrorCode::CorruptRecord);
            },
        };
        let (slot, pos) = match crate::wire::read_u64(data, pos) {
            Some(x) => x,
            None => {
                return Err(ErrorCode::CorruptRecord);
            },
        };
        let (is_active, pos) = match crate::wire::read_bool(data, pos) {
            Some(x) => x,
            None => {
                return Err(ErrorCode::CorruptRecord);
            },
        };
        let (version, pos) = match crate::wire::read_u8(data, pos) {
            Some(x) => x,
            None => {
                return Err(ErrorCode::CorruptRecord);
            },
        };
        let (trip_start_date, pos) = match crate::wire::read_opt_i64(data, pos) {
            Some(x) => x,
            None => {
                return Err(ErrorCode::CorruptRecord);
            },
        };
        let (trip_end_date, pos) = match crate::wire::read_opt_i64(data, pos) {
            Some(x) => x,
            None => {
                return Err(ErrorCode::CorruptRecord);
            },
        };
        let (purpose, pos) = match crate::wire::read_opt_text(data, pos, MAX_PURPOSE_LEN) {
            Some(x) => x,
            None => {
                return Err(ErrorCode::CorruptRecord);
            },
        };
        let (accommodation, pos) = match crate::wire::read_opt_text(data, pos, MAX_ACCOMMODATION_LEN) {
            Some(x) => x,
            None => {
                return Err(ErrorCode::CorruptRecord);
            },
        };
        let (itinerary, pos) = match crate::wire::read_opt_text(data, pos, MAX_ITINERARY_LEN) {
            Some(x) => x,
            None => {
                return Err(ErrorCode::CorruptRecord);
            },
        };
        let (emergency_contacts, pos) = match read_contacts(data, pos) {
            Some(x) => x,
            None => {
                return Err(ErrorCode::CorruptRecord);
            },
        };
        let (trip_updated_timestamp, pos) = match crate::wire::read_i64(data, pos) {
            Some(x) => x,
            None => {
                return Err(ErrorCode::CorruptRecord);
            },
        };
        let (deactivation_timestamp, pos) = match crate::wire::read_opt_i64(data, pos) {
            Some(x) => x,
            None => {
                return Err(ErrorCode::CorruptRecord);
            },
        };
        Ok(
            TouristAccount {
                authority,
                digital_id,
                name,
                gender,
                age,
                id_number_hash,
                phone,
                nationality,
                email,
                registration_timestamp,
                blockchain_timestamp,
                slot,
                is_active,
                version,
                trip_start_date,
                trip_end_date,
                purpose,
                accommodation,
                itinerary,
                emergency_contacts,
                trip_updated_timestamp,
                deactivation_timestamp,
            },
        )
    }
}

} // verus!
