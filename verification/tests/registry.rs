use tourist_registry::{
    deactivate_tourist, get_tourist_data, register_tourist, update_trip_details, Clock,
    DeactivateTourist, EmergencyContact, ErrorCode, GetTouristData, Pubkey, RegisterTourist,
    TouristAccount, UpdateTripDetails,
};

const NOW: i64 = 1_700_000_000;

fn key(seed: u8) -> Pubkey {
    Pubkey::new([seed; 32])
}

fn clock_at(now: i64) -> Clock {
    Clock { unix_timestamp: now, slot: 42 }
}

fn text(n: usize) -> String {
    "x".repeat(n)
}

fn contact(name: &str, relationship: &str, phone: &str) -> EmergencyContact {
    EmergencyContact {
        name: name.to_string(),
        relationship: relationship.to_string(),
        phone: phone.to_string(),
    }
}

fn contacts(n: usize) -> Vec<EmergencyContact> {
    (0..n).map(|i| contact(&format!("Contact {}", i), "friend", "+100000000")).collect()
}

/// Registers with the given name, age, digital id, email, gender and hash; the rest is fixed.
fn register_with(
    name: String,
    age: u8,
    digital_id: String,
    email: Option<String>,
    gender: String,
    id_number_hash: String,
    phone: String,
    nationality: String,
) -> (Result<(), ErrorCode>, RegisterTourist) {
    let mut ctx = RegisterTourist { tourist_account: TouristAccount::blank(), user: key(1) };
    let r = register_tourist(
        &mut ctx,
        &clock_at(NOW),
        digital_id,
        name,
        gender,
        age,
        id_number_hash,
        phone,
        nationality,
        email,
        NOW - 5,
    );
    (r, ctx)
}

fn register_plain(name: String, age: u8) -> (Result<(), ErrorCode>, RegisterTourist) {
    register_with(
        name,
        age,
        "TST-001".to_string(),
        None,
        "F".to_string(),
        text(64),
        "+15550100".to_string(),
        "Wonderland".to_string(),
    )
}

fn alice() -> TouristAccount {
    let (r, ctx) = register_plain("Alice".to_string(), 30);
    assert_eq!(r, Ok(()));
    ctx.tourist_account
}

fn update_with(
    record: TouristAccount,
    user: Pubkey,
    now: i64,
    start: i64,
    end: i64,
    purpose: String,
    accommodation: Option<String>,
    itinerary: String,
    list: Vec<EmergencyContact>,
) -> (Result<(), ErrorCode>, UpdateTripDetails) {
    let mut ctx = UpdateTripDetails { tourist_account: record, user };
    let r = update_trip_details(
        &mut ctx,
        &clock_at(now),
        start,
        end,
        purpose,
        accommodation,
        itinerary,
        list,
    );
    (r, ctx)
}

fn update_dates(now: i64, start: i64, end: i64) -> Result<(), ErrorCode> {
    update_with(
        alice(),
        key(1),
        now,
        start,
        end,
        "holiday".to_string(),
        None,
        "A to B".to_string(),
        contacts(1),
    )
    .0
}

#[test]
fn registration_fills_the_record() {
    let (r, ctx) = register_with(
        "Alice".to_string(),
        30,
        "TST-001".to_string(),
        Some("alice@example.org".to_string()),
        "F".to_string(),
        "abc123".to_string(),
        "+15550100".to_string(),
        "Wonderland".to_string(),
    );
    assert_eq!(r, Ok(()));
    let a = ctx.tourist_account;
    assert_eq!(a.authority, key(1));
    assert_eq!(a.digital_id, "TST-001");
    assert_eq!(a.name, "Alice");
    assert_eq!(a.gender, "F");
    assert_eq!(a.age, 30);
    assert_eq!(a.id_number_hash, "abc123");
    assert_eq!(a.phone, "+15550100");
    assert_eq!(a.nationality, "Wonderland");
    assert_eq!(a.email, Some("alice@example.org".to_string()));
    assert_eq!(a.registration_timestamp, NOW - 5);
    assert_eq!(a.blockchain_timestamp, NOW);
    assert_eq!(a.slot, 42);
    assert!(a.is_active);
    assert_eq!(a.version, 1);
    assert_eq!(a.trip_start_date, None);
    assert_eq!(a.trip_end_date, None);
    assert_eq!(a.purpose, None);
    assert_eq!(a.accommodation, None);
    assert_eq!(a.itinerary, None);
    assert!(a.emergency_contacts.is_empty());
    assert_eq!(a.trip_updated_timestamp, 0);
    assert_eq!(a.deactivation_timestamp, None);
}

#[test]
fn registration_overwrites_what_the_record_held() {
    let mut before = alice();
    before.trip_start_date = Some(5);
    before.is_active = false;
    before.deactivation_timestamp = Some(9);
    let mut ctx = RegisterTourist { tourist_account: before, user: key(3) };
    let r = register_tourist(
        &mut ctx,
        &clock_at(NOW),
        "NEW".to_string(),
        "Bob".to_string(),
        "M".to_string(),
        44,
        "h".to_string(),
        "1".to_string(),
        "N".to_string(),
        None,
        1,
    );
    assert_eq!(r, Ok(()));
    assert_eq!(ctx.tourist_account.authority, key(3));
    assert_eq!(ctx.tourist_account.trip_start_date, None);
    assert!(ctx.tourist_account.is_active);
    assert_eq!(ctx.tourist_account.deactivation_timestamp, None);
}

#[test]
fn age_boundaries() {
    assert_eq!(register_plain("Alice".to_string(), 0).0, Err(ErrorCode::InvalidAge));
    assert_eq!(register_plain("Alice".to_string(), 121).0, Err(ErrorCode::InvalidAge));
    assert_eq!(register_plain("Alice".to_string(), 255).0, Err(ErrorCode::InvalidAge));
    assert_eq!(register_plain("Alice".to_string(), 1).0, Ok(()));
    assert_eq!(register_plain("Alice".to_string(), 120).0, Ok(()));
}

#[test]
fn name_boundaries() {
    assert_eq!(register_plain(text(100), 30).0, Ok(()));
    assert_eq!(register_plain(text(101), 30).0, Err(ErrorCode::NameTooLong));
}

#[test]
fn lengths_are_counted_in_bytes() {
    // 34 characters of 3 bytes each: 102 bytes
    let wide = "\u{20ac}".repeat(34);
    assert_eq!(wide.chars().count(), 34);
    assert_eq!(register_plain(wide, 30).0, Err(ErrorCode::NameTooLong));
    let fits = "\u{20ac}".repeat(33);
    assert_eq!(register_plain(fits, 30).0, Ok(()));
}

#[test]
fn a_refused_registration_leaves_the_record() {
    let before = alice();
    let mut ctx = RegisterTourist { tourist_account: before.clone(), user: key(9) };
    let r = register_tourist(
        &mut ctx,
        &clock_at(NOW),
        "ID".to_string(),
        text(101),
        "M".to_string(),
        20,
        "h".to_string(),
        "1".to_string(),
        "N".to_string(),
        None,
        1,
    );
    assert_eq!(r, Err(ErrorCode::NameTooLong));
    assert_eq!(ctx.tourist_account, before);
    assert_eq!(ctx.user, key(9));
}

#[test]
fn each_registration_error() {
    let ok = |n: usize| text(n);
    let run = |name: usize, nat: usize, phone: usize, age: u8, id: usize, email: Option<usize>,
               gender: usize, hash: usize| {
        register_with(
            ok(name),
            age,
            ok(id),
            email.map(text),
            ok(gender),
            ok(hash),
            ok(phone),
            ok(nat),
        )
        .0
    };
    assert_eq!(run(100, 50, 20, 120, 50, Some(100), 10, 64), Ok(()));
    assert_eq!(run(101, 50, 20, 30, 50, None, 10, 64), Err(ErrorCode::NameTooLong));
    assert_eq!(run(100, 51, 20, 30, 50, None, 10, 64), Err(ErrorCode::NationalityTooLong));
    assert_eq!(run(100, 50, 21, 30, 50, None, 10, 64), Err(ErrorCode::PhoneTooLong));
    assert_eq!(run(100, 50, 20, 0, 50, None, 10, 64), Err(ErrorCode::InvalidAge));
    assert_eq!(run(100, 50, 20, 30, 51, None, 10, 64), Err(ErrorCode::DigitalIdTooLong));
    assert_eq!(run(100, 50, 20, 30, 50, Some(101), 10, 64), Err(ErrorCode::EmailTooLong));
    assert_eq!(run(100, 50, 20, 30, 50, None, 11, 64), Err(ErrorCode::GenderTooLong));
    assert_eq!(run(100, 50, 20, 30, 50, None, 10, 65), Err(ErrorCode::IdNumberHashTooLong));
}

#[test]
fn registration_errors_come_in_order() {
    let run = |name: usize, nat: usize, phone: usize, age: u8, id: usize, email: Option<usize>,
               gender: usize, hash: usize| {
        register_with(
            text(name),
            age,
            text(id),
            email.map(text),
            text(gender),
            text(hash),
            text(phone),
            text(nat),
        )
        .0
    };
    assert_eq!(run(101, 51, 21, 0, 51, Some(101), 11, 65), Err(ErrorCode::NameTooLong));
    assert_eq!(run(1, 51, 21, 0, 51, Some(101), 11, 65), Err(ErrorCode::NationalityTooLong));
    assert_eq!(run(1, 1, 21, 0, 51, Some(101), 11, 65), Err(ErrorCode::PhoneTooLong));
    assert_eq!(run(1, 1, 1, 0, 51, Some(101), 11, 65), Err(ErrorCode::InvalidAge));
    assert_eq!(run(1, 1, 1, 1, 51, Some(101), 11, 65), Err(ErrorCode::DigitalIdTooLong));
    assert_eq!(run(1, 1, 1, 1, 1, Some(101), 11, 65), Err(ErrorCode::EmailTooLong));
    assert_eq!(run(1, 1, 1, 1, 1, None, 11, 65), Err(ErrorCode::GenderTooLong));
    assert_eq!(run(1, 1, 1, 1, 1, None, 1, 65), Err(ErrorCode::IdNumberHashTooLong));
}

#[test]
fn contact_count_boundaries() {
    let run = |n: usize| {
        update_with(
            alice(),
            key(1),
            NOW,
            NOW + 10,
            NOW + 20,
            "p".to_string(),
            None,
            "i".to_string(),
            contacts(n),
        )
    };
    let (r, ctx) = run(5);
    assert_eq!(r, Ok(()));
    assert_eq!(ctx.tourist_account.emergency_contacts.len(), 5);
    assert_eq!(run(6).0, Err(ErrorCode::TooManyContacts));
    assert_eq!(run(0).0, Ok(()));
}

#[test]
fn trip_date_ordering() {
    assert_eq!(update_dates(NOW, NOW + 10, NOW + 10), Err(ErrorCode::InvalidTripDates));
    assert_eq!(update_dates(NOW, NOW + 10, NOW + 9), Err(ErrorCode::InvalidTripDates));
    assert_eq!(update_dates(NOW, NOW, NOW + 1), Ok(()));
    assert_eq!(update_dates(NOW, NOW - 1, NOW + 1), Err(ErrorCode::TripInPast));
    assert_eq!(update_dates(NOW, NOW + 1, NOW + 2), Ok(()));
}

#[test]
fn trip_dates_at_the_ends_of_the_range() {
    assert_eq!(update_dates(i64::MIN, i64::MIN, i64::MAX), Ok(()));
    assert_eq!(update_dates(i64::MAX, i64::MAX, i64::MAX), Err(ErrorCode::InvalidTripDates));
    assert_eq!(update_dates(i64::MAX, i64::MIN, i64::MAX), Err(ErrorCode::TripInPast));
}

#[test]
fn each_trip_error() {
    let run = |purpose: usize, itinerary: usize, acc: Option<usize>, list: Vec<EmergencyContact>| {
        update_with(
            alice(),
            key(1),
            NOW,
            NOW + 10,
            NOW + 20,
            text(purpose),
            acc.map(text),
            text(itinerary),
            list,
        )
        .0
    };
    assert_eq!(run(200, 1000, Some(300), contacts(5)), Ok(()));
    assert_eq!(run(201, 1000, None, contacts(1)), Err(ErrorCode::PurposeTooLong));
    assert_eq!(run(200, 1001, None, contacts(1)), Err(ErrorCode::ItineraryTooLong));
    assert_eq!(run(200, 1000, Some(301), contacts(1)), Err(ErrorCode::AccommodationTooLong));
    assert_eq!(
        run(1, 1, None, vec![contact(&text(101), "r", "p")]),
        Err(ErrorCode::ContactNameTooLong)
    );
    assert_eq!(
        run(1, 1, None, vec![contact("n", &text(51), "p")]),
        Err(ErrorCode::RelationshipTooLong)
    );
    assert_eq!(
        run(1, 1, None, vec![contact("n", "r", &text(21))]),
        Err(ErrorCode::ContactPhoneTooLong)
    );
    assert_eq!(
        run(1, 1, None, vec![contact(&text(100), &text(50), &text(20))]),
        Ok(())
    );
}

#[test]
fn trip_errors_come_in_order() {
    let bad_contact = vec![contact(&text(101), &text(51), &text(21))];
    // everything wrong at once, by a stranger
    let (r, _) = update_with(
        alice(),
        key(2),
        NOW,
        NOW - 10,
        NOW - 20,
        text(201),
        Some(text(301)),
        text(1001),
        contacts(6),
    );
    assert_eq!(r, Err(ErrorCode::Unauthorized));
    let run = |start: i64, end: i64, purpose: usize, itinerary: usize, acc: usize,
               list: Vec<EmergencyContact>| {
        update_with(
            alice(),
            key(1),
            NOW,
            start,
            end,
            text(purpose),
            Some(text(acc)),
            text(itinerary),
            list,
        )
        .0
    };
    assert_eq!(run(NOW - 10, NOW - 20, 201, 1001, 301, contacts(6)), Err(ErrorCode::InvalidTripDates));
    assert_eq!(run(NOW - 10, NOW, 201, 1001, 301, contacts(6)), Err(ErrorCode::TripInPast));
    assert_eq!(run(NOW, NOW + 1, 201, 1001, 301, contacts(6)), Err(ErrorCode::PurposeTooLong));
    assert_eq!(run(NOW, NOW + 1, 1, 1001, 301, contacts(6)), Err(ErrorCode::ItineraryTooLong));
    assert_eq!(run(NOW, NOW + 1, 1, 1, 301, contacts(6)), Err(ErrorCode::TooManyContacts));
    assert_eq!(run(NOW, NOW + 1, 1, 1, 301, bad_contact.clone()), Err(ErrorCode::AccommodationTooLong));
    assert_eq!(run(NOW, NOW + 1, 1, 1, 1, bad_contact), Err(ErrorCode::ContactNameTooLong));
}

#[test]
fn the_first_bad_contact_decides() {
    let list = vec![
        contact("ok", "ok", "ok"),
        contact("n", "r", &text(21)),
        contact(&text(101), "r", "p"),
    ];
    let (r, _) = update_with(
        alice(),
        key(1),
        NOW,
        NOW + 1,
        NOW + 2,
        "p".to_string(),
        None,
        "i".to_string(),
        list,
    );
    assert_eq!(r, Err(ErrorCode::ContactPhoneTooLong));
}

#[test]
fn only_the_authority_updates() {
    let before = alice();
    let (r, ctx) = update_with(
        before.clone(),
        key(2),
        NOW,
        NOW + 3600,
        NOW + 7200,
        "holiday".to_string(),
        None,
        "A to B".to_string(),
        contacts(2),
    );
    assert_eq!(r, Err(ErrorCode::Unauthorized));
    assert_eq!(ctx.tourist_account, before);
}

#[test]
fn a_key_that_differs_in_one_byte_is_a_stranger() {
    let mut bytes = [1u8; 32];
    bytes[31] = 2;
    let mut ctx = DeactivateTourist { tourist_account: alice(), user: Pubkey::new(bytes) };
    assert_eq!(deactivate_tourist(&mut ctx, &clock_at(NOW)), Err(ErrorCode::Unauthorized));
    assert!(ctx.tourist_account.is_active);
}

#[test]
fn only_the_authority_deactivates() {
    let before = alice();
    let mut ctx = DeactivateTourist { tourist_account: before.clone(), user: key(2) };
    assert_eq!(deactivate_tourist(&mut ctx, &clock_at(NOW + 1)), Err(ErrorCode::Unauthorized));
    assert_eq!(ctx.tourist_account, before);
    assert!(ctx.tourist_account.is_active);
    assert_eq!(ctx.tourist_account.deactivation_timestamp, None);
}

#[test]
fn a_refused_update_leaves_the_record() {
    let (r, first) = update_with(
        alice(),
        key(1),
        NOW,
        NOW + 10,
        NOW + 20,
        "first".to_string(),
        Some("hotel".to_string()),
        "A".to_string(),
        contacts(2),
    );
    assert_eq!(r, Ok(()));
    let before = first.tourist_account;
    let (r, ctx) = update_with(
        before.clone(),
        key(1),
        NOW + 5,
        NOW + 10,
        NOW + 20,
        "second".to_string(),
        None,
        text(1001),
        contacts(1),
    );
    assert_eq!(r, Err(ErrorCode::ItineraryTooLong));
    assert_eq!(ctx.tourist_account, before);
}

#[test]
fn an_update_overwrites_all_trip_details() {
    let (_, first) = update_with(
        alice(),
        key(1),
        NOW,
        NOW + 10,
        NOW + 20,
        "first".to_string(),
        Some("hotel".to_string()),
        "A".to_string(),
        contacts(3),
    );
    let (r, ctx) = update_with(
        first.tourist_account,
        key(1),
        NOW + 5,
        NOW + 30,
        NOW + 40,
        "second".to_string(),
        None,
        "B".to_string(),
        contacts(1),
    );
    assert_eq!(r, Ok(()));
    let a = ctx.tourist_account;
    assert_eq!(a.trip_start_date, Some(NOW + 30));
    assert_eq!(a.trip_end_date, Some(NOW + 40));
    assert_eq!(a.purpose, Some("second".to_string()));
    assert_eq!(a.accommodation, None);
    assert_eq!(a.itinerary, Some("B".to_string()));
    assert_eq!(a.emergency_contacts, contacts(1));
    assert_eq!(a.trip_updated_timestamp, NOW + 5);
}

#[test]
fn the_same_update_twice_is_the_update_once() {
    let run = |record: TouristAccount| {
        update_with(
            record,
            key(1),
            NOW,
            NOW + 10,
            NOW + 20,
            "p".to_string(),
            Some("h".to_string()),
            "i".to_string(),
            contacts(2),
        )
    };
    let (r1, once) = run(alice());
    let (r2, twice) = run(once.tourist_account.clone());
    assert_eq!(r1, Ok(()));
    assert_eq!(r2, Ok(()));
    assert_eq!(once.tourist_account, twice.tourist_account);
}

#[test]
fn an_inactive_record_can_still_be_updated() {
    let mut ctx = DeactivateTourist { tourist_account: alice(), user: key(1) };
    assert_eq!(deactivate_tourist(&mut ctx, &clock_at(NOW)), Ok(()));
    let (r, after) = update_with(
        ctx.tourist_account,
        key(1),
        NOW + 1,
        NOW + 10,
        NOW + 20,
        "p".to_string(),
        None,
        "i".to_string(),
        contacts(1),
    );
    assert_eq!(r, Ok(()));
    assert!(!after.tourist_account.is_active);
    assert_eq!(after.tourist_account.deactivation_timestamp, Some(NOW));
    assert_eq!(after.tourist_account.trip_start_date, Some(NOW + 10));
}

#[test]
fn deactivating_twice() {
    let mut ctx = DeactivateTourist { tourist_account: alice(), user: key(1) };
    assert_eq!(deactivate_tourist(&mut ctx, &clock_at(NOW + 100)), Ok(()));
    assert!(!ctx.tourist_account.is_active);
    assert_eq!(ctx.tourist_account.deactivation_timestamp, Some(NOW + 100));
    let once = ctx.tourist_account.clone();
    assert_eq!(deactivate_tourist(&mut ctx, &clock_at(NOW + 200)), Ok(()));
    assert!(!ctx.tourist_account.is_active);
    assert_eq!(ctx.tourist_account, once);
}

#[test]
fn end_to_end() {
    let now = NOW;
    let mut reg = RegisterTourist { tourist_account: TouristAccount::blank(), user: key(1) };
    let r = register_tourist(
        &mut reg,
        &clock_at(now),
        "TST-001".to_string(),
        "Alice".to_string(),
        "F".to_string(),
        30,
        "hash".to_string(),
        "+15550100".to_string(),
        "Wonderland".to_string(),
        None,
        now,
    );
    assert_eq!(r, Ok(()));
    let registered = reg.tourist_account;

    let list = vec![contact("Bob", "brother", "+15550101"), contact("Carol", "mother", "+15550102")];
    let mut upd = UpdateTripDetails { tourist_account: registered.clone(), user: key(1) };
    let r = update_trip_details(
        &mut upd,
        &clock_at(now),
        now + 3600,
        now + 7200,
        "holiday".to_string(),
        Some("Grand Hotel".to_string()),
        "A to B to C".to_string(),
        list.clone(),
    );
    assert_eq!(r, Ok(()));
    let updated = upd.tourist_account;
    assert!(updated.is_active);
    assert_eq!(updated.trip_start_date, Some(now + 3600));
    assert_eq!(updated.trip_end_date, Some(now + 7200));
    assert_eq!(updated.purpose, Some("holiday".to_string()));
    assert_eq!(updated.accommodation, Some("Grand Hotel".to_string()));
    assert_eq!(updated.itinerary, Some("A to B to C".to_string()));
    assert_eq!(updated.emergency_contacts, list);
    assert_eq!(updated.trip_updated_timestamp, now);
    assert_eq!(updated.digital_id, "TST-001");
    assert_eq!(updated.name, "Alice");
    assert_eq!(updated.age, 30);
    assert_eq!(updated.authority, key(1));

    let mut de = DeactivateTourist { tourist_account: updated.clone(), user: key(1) };
    assert_eq!(deactivate_tourist(&mut de, &clock_at(now + 10)), Ok(()));
    let last = de.tourist_account;
    assert!(!last.is_active);
    assert_eq!(last.deactivation_timestamp, Some(now + 10));
    let mut expected = updated;
    expected.is_active = false;
    expected.deactivation_timestamp = Some(now + 10);
    assert_eq!(last, expected);
}

#[test]
fn reading_hands_out_the_whole_record() {
    let record = alice();
    let ctx = GetTouristData { tourist_account: record.clone() };
    let got = get_tourist_data(&ctx);
    assert_eq!(got, Ok(&record));
}
