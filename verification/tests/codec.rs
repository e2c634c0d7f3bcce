use tourist_registry::{EmergencyContact, ErrorCode, Pubkey, TouristAccount, SPACE};

fn chars(n: usize) -> String {
    "y".repeat(n)
}

fn person(name: &str, relationship: &str, phone: &str) -> EmergencyContact {
    EmergencyContact {
        name: name.to_string(),
        relationship: relationship.to_string(),
        phone: phone.to_string(),
    }
}

fn small_record() -> TouristAccount {
    TouristAccount {
        authority: Pubkey::new([1u8; 32]),
        digital_id: "A1".to_string(),
        name: "Al".to_string(),
        gender: "F".to_string(),
        age: 30,
        id_number_hash: "h".to_string(),
        phone: "5".to_string(),
        nationality: "N".to_string(),
        email: None,
        registration_timestamp: 1,
        blockchain_timestamp: -1,
        slot: 258,
        is_active: true,
        version: 1,
        trip_start_date: None,
        trip_end_date: Some(2),
        purpose: None,
        accommodation: Some("H".to_string()),
        itinerary: None,
        emergency_contacts: vec![person("B", "b", "7")],
        trip_updated_timestamp: 3,
        deactivation_timestamp: None,
    }
}

fn small_record_bytes() -> Vec<u8> {
    let parts: Vec<&[u8]> = vec![
        &[14, 191, 64, 182, 21, 97, 96, 169],
        &[1; 32],
        &[2, 0, 0, 0, 65, 49],
        &[2, 0, 0, 0, 65, 108],
        &[1, 0, 0, 0, 70],
        &[30],
        &[1, 0, 0, 0, 104],
        &[1, 0, 0, 0, 53],
        &[1, 0, 0, 0, 78],
        &[0],
        &[1, 0, 0, 0, 0, 0, 0, 0],
        &[255, 255, 255, 255, 255, 255, 255, 255],
        &[2, 1, 0, 0, 0, 0, 0, 0],
        &[1],
        &[1],
        &[0],
        &[1, 2, 0, 0, 0, 0, 0, 0, 0],
        &[0],
        &[1, 1, 0, 0, 0, 72],
        &[0],
        &[1, 0, 0, 0],
        &[1, 0, 0, 0, 66, 1, 0, 0, 0, 98, 1, 0, 0, 0, 55],
        &[3, 0, 0, 0, 0, 0, 0, 0],
        &[0],
    ];
    parts.concat()
}

fn full_record() -> TouristAccount {
    TouristAccount {
        authority: Pubkey::new([200u8; 32]),
        digital_id: chars(50),
        name: chars(100),
        gender: chars(10),
        age: 120,
        id_number_hash: chars(64),
        phone: chars(20),
        nationality: chars(50),
        email: Some(chars(100)),
        registration_timestamp: i64::MIN,
        blockchain_timestamp: i64::MAX,
        slot: u64::MAX,
        is_active: false,
        version: 1,
        trip_start_date: Some(i64::MIN),
        trip_end_date: Some(i64::MAX),
        purpose: Some(chars(200)),
        accommodation: Some(chars(300)),
        itinerary: Some(chars(1000)),
        emergency_contacts: (0..5).map(|_| person(&chars(100), &chars(50), &chars(20))).collect(),
        trip_updated_timestamp: -2,
        deactivation_timestamp: Some(-3),
    }
}

#[test]
fn capacity_is_the_worst_case() {
    assert_eq!(TouristAccount::capacity(), 2954);
    assert_eq!(SPACE, 2954);
    assert_eq!(full_record().encode().unwrap().len(), TouristAccount::capacity());
    assert!(small_record().encode().unwrap().len() < TouristAccount::capacity());
    assert!(TouristAccount::blank().encode().unwrap().len() <= TouristAccount::capacity());
}

#[test]
fn capacity_does_not_depend_on_a_record() {
    let before = TouristAccount::capacity();
    let _ = full_record().encode();
    let _ = small_record().encode();
    assert_eq!(TouristAccount::capacity(), before);
}

#[test]
fn encode_exact_bytes() {
    assert_eq!(small_record().encode(), Ok(small_record_bytes()));
}

#[test]
fn decode_exact_bytes() {
    assert_eq!(TouristAccount::decode(&small_record_bytes()), Ok(small_record()));
}

#[test]
fn blank_record_bytes() {
    // tag, key, six empty texts around the age, absent email, three stamps, two bytes,
    // five absent values, an empty list, a stamp, an absent value
    let bytes = TouristAccount::blank().encode().unwrap();
    assert_eq!(bytes.len(), 8 + 32 + 3 * 4 + 1 + 3 * 4 + 1 + 24 + 2 + 5 + 4 + 8 + 1);
    assert_eq!(&bytes[..8], &[14, 191, 64, 182, 21, 97, 96, 169]);
    assert!(bytes[8..].iter().all(|b| *b == 0));
}

#[test]
fn round_trip_small() {
    let r = small_record();
    assert_eq!(TouristAccount::decode(&r.encode().unwrap()), Ok(r));
}

#[test]
fn round_trip_full() {
    let r = full_record();
    assert_eq!(TouristAccount::decode(&r.encode().unwrap()), Ok(r));
}

#[test]
fn round_trip_blank() {
    let r = TouristAccount::blank();
    assert_eq!(TouristAccount::decode(&r.encode().unwrap()), Ok(r));
}

#[test]
fn round_trip_wide_characters() {
    let mut r = small_record();
    r.name = "Zo\u{eb} \u{20ac}\u{1f600}".to_string();
    r.purpose = Some("\u{65e5}\u{672c}".to_string());
    let bytes = r.encode().unwrap();
    assert_eq!(TouristAccount::decode(&bytes), Ok(r));
}

#[test]
fn round_trip_negative_and_extreme_integers() {
    for t in [i64::MIN, -1, 0, 1, i64::MAX, -1_700_000_000, 1_700_000_000] {
        let mut r = small_record();
        r.registration_timestamp = t;
        r.trip_start_date = Some(t);
        r.deactivation_timestamp = Some(t);
        r.slot = t as u64;
        assert_eq!(TouristAccount::decode(&r.encode().unwrap()), Ok(r));
    }
}

#[test]
fn decoding_leaves_what_follows_unread() {
    let r = small_record();
    let mut bytes = r.encode().unwrap();
    bytes.resize(SPACE, 0);
    assert_eq!(TouristAccount::decode(&bytes), Ok(r.clone()));
    bytes.extend_from_slice(&[9, 9, 9]);
    assert_eq!(TouristAccount::decode(&bytes), Ok(r));
}

#[test]
fn encoding_is_deterministic() {
    assert_eq!(full_record().encode(), full_record().encode());
}

#[test]
fn encode_refuses_what_does_not_fit() {
    let over = |change: fn(&mut TouristAccount)| {
        let mut r = full_record();
        change(&mut r);
        r.encode()
    };
    assert_eq!(over(|r| r.digital_id.push('z')), Err(ErrorCode::EncodingOverflow));
    assert_eq!(over(|r| r.name.push('z')), Err(ErrorCode::EncodingOverflow));
    assert_eq!(over(|r| r.gender.push('z')), Err(ErrorCode::EncodingOverflow));
    assert_eq!(over(|r| r.id_number_hash.push('z')), Err(ErrorCode::EncodingOverflow));
    assert_eq!(over(|r| r.phone.push('z')), Err(ErrorCode::EncodingOverflow));
    assert_eq!(over(|r| r.nationality.push('z')), Err(ErrorCode::EncodingOverflow));
    assert_eq!(over(|r| r.email = Some("z".repeat(101))), Err(ErrorCode::EncodingOverflow));
    assert_eq!(over(|r| r.purpose = Some("z".repeat(201))), Err(ErrorCode::EncodingOverflow));
    assert_eq!(over(|r| r.accommodation = Some("z".repeat(301))), Err(ErrorCode::EncodingOverflow));
    assert_eq!(over(|r| r.itinerary = Some("z".repeat(1001))), Err(ErrorCode::EncodingOverflow));
    assert_eq!(
        over(|r| {
            let extra = r.emergency_contacts[0].clone();
            r.emergency_contacts.push(extra)
        }),
        Err(ErrorCode::EncodingOverflow)
    );
    assert_eq!(
        over(|r| r.emergency_contacts[4].name.push('z')),
        Err(ErrorCode::EncodingOverflow)
    );
    assert_eq!(
        over(|r| r.emergency_contacts[2].relationship.push('z')),
        Err(ErrorCode::EncodingOverflow)
    );
    assert_eq!(
        over(|r| r.emergency_contacts[0].phone.push('z')),
        Err(ErrorCode::EncodingOverflow)
    );
    assert!(over(|r| r.age = 0).is_ok());
}

#[test]
fn within_limits_agrees_with_encode() {
    assert!(full_record().within_limits());
    assert!(small_record().within_limits());
    let mut r = full_record();
    r.itinerary = Some("z".repeat(1001));
    assert!(!r.within_limits());
    let c = person(&chars(100), &chars(50), &chars(20));
    assert!(c.within_limits());
    assert!(!person(&chars(101), "", "").within_limits());
    assert!(!person("", &chars(51), "").within_limits());
    assert!(!person("", "", &chars(21)).within_limits());
}

#[test]
fn decode_refuses_every_truncation() {
    let bytes = small_record_bytes();
    for n in 0..bytes.len() {
        assert_eq!(TouristAccount::decode(&bytes[..n]), Err(ErrorCode::CorruptRecord), "{}", n);
    }
    let bytes = full_record().encode().unwrap();
    for n in [0, 7, 8, 39, 40, 100, 1000, 2900, 2953] {
        assert_eq!(TouristAccount::decode(&bytes[..n]), Err(ErrorCode::CorruptRecord), "{}", n);
    }
}

#[test]
fn decode_refuses_a_wrong_tag() {
    let mut bytes = small_record_bytes();
    bytes[0] = 0;
    assert_eq!(TouristAccount::decode(&bytes), Err(ErrorCode::CorruptRecord));
    let mut bytes = small_record_bytes();
    bytes[7] ^= 1;
    assert_eq!(TouristAccount::decode(&bytes), Err(ErrorCode::CorruptRecord));
    assert_eq!(TouristAccount::decode(&vec![0u8; SPACE]), Err(ErrorCode::CorruptRecord));
}

#[test]
fn decode_refuses_a_bad_presence_flag() {
    // offsets in the small record: email flag at 76
    let bytes = small_record_bytes();
    let email_flag = 8 + 32 + 6 + 6 + 5 + 1 + 5 + 5 + 5;
    assert_eq!(bytes[email_flag], 0);
    for flag in [2u8, 3, 128, 255] {
        let mut b = bytes.clone();
        b[email_flag] = flag;
        assert_eq!(TouristAccount::decode(&b), Err(ErrorCode::CorruptRecord));
    }
    // the flag of trip_end_date is 1 in the small record
    let trip_end_flag = email_flag + 1 + 24 + 2 + 1;
    assert_eq!(bytes[trip_end_flag], 1);
    let mut b = bytes.clone();
    b[trip_end_flag] = 2;
    assert_eq!(TouristAccount::decode(&b), Err(ErrorCode::CorruptRecord));
    // the last byte is the flag of deactivation_timestamp
    let mut b = bytes.clone();
    let last = b.len() - 1;
    b[last] = 7;
    assert_eq!(TouristAccount::decode(&b), Err(ErrorCode::CorruptRecord));
}

#[test]
fn decode_refuses_a_bad_activity_byte() {
    let bytes = small_record_bytes();
    let active = 8 + 32 + 6 + 6 + 5 + 1 + 5 + 5 + 5 + 1 + 24;
    assert_eq!(bytes[active], 1);
    let mut b = bytes.clone();
    b[active] = 2;
    assert_eq!(TouristAccount::decode(&b), Err(ErrorCode::CorruptRecord));
    let mut b = bytes;
    b[active] = 0;
    let mut expected = small_record();
    expected.is_active = false;
    assert_eq!(TouristAccount::decode(&b), Ok(expected));
}

#[test]
fn decode_refuses_a_declared_length_over_the_maximum() {
    // a digital id that declares 51 bytes, with enough bytes behind it
    let mut bytes: Vec<u8> = vec![14, 191, 64, 182, 21, 97, 96, 169];
    bytes.extend_from_slice(&[1; 32]);
    bytes.extend_from_slice(&[51, 0, 0, 0]);
    bytes.extend_from_slice(&[b'a'; 4000]);
    assert_eq!(TouristAccount::decode(&bytes), Err(ErrorCode::CorruptRecord));
    // the same record at its limits is read
    let mut r = full_record();
    r.digital_id = chars(50);
    assert!(TouristAccount::decode(&r.encode().unwrap()).is_ok());
    // a length with high bytes set
    let mut b = small_record_bytes();
    b[43] = 1;
    assert_eq!(TouristAccount::decode(&b), Err(ErrorCode::CorruptRecord));
}

#[test]
fn decode_refuses_too_many_contacts() {
    let mut r = full_record();
    r.deactivation_timestamp = None;
    let mut bytes = r.encode().unwrap();
    let tail = 8 + 1;
    let list_start = bytes.len() - tail - 5 * 182 - 4;
    assert_eq!(&bytes[list_start..list_start + 4], &[5, 0, 0, 0]);
    bytes[list_start] = 6;
    bytes.extend_from_slice(&[0u8; 400]);
    assert_eq!(TouristAccount::decode(&bytes), Err(ErrorCode::CorruptRecord));
}

#[test]
fn decode_refuses_text_that_is_not_utf8() {
    let mut bytes = small_record_bytes();
    // first byte of the name "Al"
    let name_at = 8 + 32 + 6 + 4;
    assert_eq!(bytes[name_at], 65);
    bytes[name_at] = 0xff;
    assert_eq!(TouristAccount::decode(&bytes), Err(ErrorCode::CorruptRecord));
    bytes[name_at] = 0xc3;
    bytes[name_at + 1] = 0x28;
    assert_eq!(TouristAccount::decode(&bytes), Err(ErrorCode::CorruptRecord));
    bytes[name_at] = 0xc3;
    bytes[name_at + 1] = 0xa9;
    let mut expected = small_record();
    expected.name = "\u{e9}".to_string();
    assert_eq!(TouristAccount::decode(&bytes), Ok(expected));
}

#[test]
fn decode_reads_an_empty_buffer_as_corrupt() {
    assert_eq!(TouristAccount::decode(&[]), Err(ErrorCode::CorruptRecord));
}
