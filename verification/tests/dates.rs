use server_lib::plants::SeedTray;
use server_lib::{Date, EventId, ItemId};

#[test]
fn date_test() {
    let date = Date::new_ymd(2022, 09, 30);
    assert_eq!(date.year(), 2022);
    assert_eq!(date.day(), 30);
    assert_eq!(date.month(), 9);
    let date = Date::new_ymd(2030, 12, 11);
    assert_eq!(date.year(), 2030);
    assert_eq!(date.month(), 12);
    assert_eq!(date.day(), 11);
}

#[test]
fn leap_year() {
    let date = Date::new_ymd(2020, 02, 29);
    let next = date.next();
    assert_eq!(next.day(), 1);
    assert_eq!(next.month(), 3);
    let prev = next.prev();
    assert_eq!(prev.day(), 29);
    assert_eq!(prev.month(), 2);
}

#[test]
fn date_key() {
    let date = Date::new_ymd(2030, 12, 11);
    let key = EventId::date_key(date);
    assert!(key.is_date_key());
    assert_eq!(date, key.date_from_key());
}

#[test]
fn year_boundary_steps() {
    let date = Date::new_ymd(2020, 12, 31);
    let next = date.next();
    assert_eq!((next.year(), next.month(), next.day()), (2021, 1, 1));
    assert_eq!(next.prev(), date);
    let first = Date::new_ymd(2021, 1, 1);
    let prev = first.prev();
    assert_eq!((prev.year(), prev.month(), prev.day()), (2020, 12, 31));
    assert_eq!(prev.next(), first);
}

#[test]
fn century_year_follows_implemented_rule() {
    // The implemented leap rule treats years divisible by 100 as
    // non-leap without the divisible-by-400 exception, so 2000 counts
    // as non-leap here.
    let date = Date::new_ymd(2000, 2, 28);
    let next = date.next();
    assert_eq!((next.month(), next.day()), (3, 1));
}

#[test]
fn month_boundary_steps() {
    let date = Date::new_ymd(2022, 4, 30);
    let next = date.next();
    assert_eq!((next.year(), next.month(), next.day()), (2022, 5, 1));
    assert_eq!(next.prev(), date);
}

#[test]
fn bare_and_qualified_keys() {
    let date = Date::new_ymd(2022, 9, 30);
    let bare = EventId::date_key(date);
    assert!(bare.is_date_key());
    let qualified = bare.with_id(1);
    assert!(!qualified.is_date_key());
    assert_eq!(qualified.date_from_key(), date);
    assert_ne!(bare, qualified);
}

#[test]
fn sequence_field_keeps_date_and_guard() {
    let date = Date::new_ymd(2024, 6, 15);
    let mut key = EventId::date_key(date);
    key.set_val(7);
    assert_eq!(key.date_from_key(), date);
    let other = Date::new_ymd(2025, 1, 2);
    key.set_date(other);
    assert_eq!(key.date_from_key(), other);
    assert!(!key.is_date_key());
    assert_eq!(key, EventId::date_key(other).with_id(7));
}

#[test]
fn date_bytes_are_big_endian() {
    let date = Date::new_ymd(2030, 12, 11);
    let bytes = date.to_bytes();
    assert_eq!(bytes.len(), 4);
    let key_bytes = EventId::date_key(date).to_bytes();
    assert_eq!(key_bytes.len(), 8);
    assert_eq!(&key_bytes[0..4], bytes.as_slice());
    assert_eq!(&key_bytes[4..8], &[0, 0, 0, 0]);
}

#[test]
fn date_text_forms() {
    let date = Date::new_ymd(2022, 9, 30);
    assert_eq!(date.to_web_string(), "2022-9-30");
    assert_eq!(date.to_string(), "2022/9/30");
    assert_eq!(Date::from_str("2022-09-30").unwrap(), date);
    assert_eq!(Date::from_str("2022/09/30").unwrap(), date);
    assert_eq!(Date::from_str(&date.to_web_string()).unwrap(), date);
    assert!(Date::from_str("2022-09").is_err());
    assert!(Date::from_str("2022-13-01").is_err());
    assert!(Date::from_str("no date at all").is_err());
    assert!(Date::from_str("").is_err());
}

#[test]
fn event_key_text_round_trip() {
    let date = Date::new_ymd(2030, 12, 11);
    let key = EventId::date_key(date).with_id(5);
    let text = key.to_string();
    assert_eq!(EventId::from_str(&text).unwrap(), key);
    assert!(EventId::from_str("unkeylike").is_err());
    assert!(EventId::from_str("").is_err());
}

#[test]
fn seed_tray_locates_first_match() {
    let mut tray = SeedTray::new::<3, 2>(String::from("tray one"));
    for i in 0..6u128 {
        tray.slots.push(ItemId::from_u128(100 + i));
    }
    assert_eq!(
        tray.location_of(ItemId::from_u128(104)),
        Some(String::from("Cell 1:1 of tray one"))
    );
    assert_eq!(
        tray.location_of(ItemId::from_u128(100)),
        Some(String::from("Cell 0:0 of tray one"))
    );
    assert_eq!(tray.location_of(ItemId::from_u128(999)), None);
}
