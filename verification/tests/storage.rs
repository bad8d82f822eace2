use server_lib::greenhouse::GREENHOUSE_NAMESPACE;
use server_lib::plants::Plant;
use server_lib::registry::{Record, RecordKind, TypeRegistry};
use server_lib::{Database, Date, DbError, EventId, ItemData, ItemId};

fn test_db() -> Database {
    Database::temporary(TypeRegistry::new()).unwrap()
}

fn plant_db() -> Database {
    let mut reg = TypeRegistry::new();
    reg.register(RecordKind::Plant);
    reg.register(RecordKind::PlantTypes);
    Database::temporary(reg).unwrap()
}

fn test_date() -> Date {
    Date::new_ymd(2022, 10, 01)
}

#[test]
fn print_uuid() {
    let uuid = ItemId::from_str("70e96686-393e-4dba-9909-6f271bf6850d").unwrap();
    assert_eq!(uuid, ItemId::from_u128(GREENHOUSE_NAMESPACE));
    println!("{}", uuid.to_string())
}

#[test]
fn database_key_test() {
    let mut db = test_db();
    let date = Date::new_ymd(2022, 09, 30);
    let next = date.next();
    let key1 = db.get_next_key(date).unwrap();
    assert_eq!(key1, EventId::date_key(date).with_id(1));
    let key2 = db.get_next_key(date).unwrap();
    assert_eq!(key2, EventId::date_key(date).with_id(2));
    let next1 = db.get_next_key(next).unwrap();
    assert_eq!(next1, EventId::date_key(next).with_id(1));
    let next2 = db.get_next_key(next).unwrap();
    assert_eq!(next2, EventId::date_key(next).with_id(2));
}

#[test]
fn database_typecheck() {
    let mut db = plant_db();
    let date = test_date();
    let event0 = Plant::test(0);
    let event1 = Plant::test(1);
    let event0_key = db.add_event_obj(&Record::Plant(event0), date).unwrap();
    let event1_key = db.add_event_obj(&Record::Plant(event1), date).unwrap();
    assert!(event0_key == EventId::date_key(date).with_id(1));
    assert!(event1_key == EventId::date_key(date).with_id(2));
    let event0_ref = db.get_event_obj(event0_key).unwrap();
    let event1_ref = db.get_event_obj(event1_key).unwrap();
    let event0 = Plant::test(0);
    let event1 = Plant::test(1);
    assert!(matches!(event0_ref, Record::Plant(_)));
    assert!(matches!(event1_ref, Record::Plant(_)));
    match event0_ref {
        Record::Plant(p) => assert_eq!(event0, p),
        _ => unreachable!(),
    }
    match event1_ref {
        Record::Plant(p) => assert_eq!(event1, p),
        _ => unreachable!(),
    }
}

#[test]
fn insert_then_get_returns_the_record() {
    let mut db = plant_db();
    let value = Record::Plant(Plant::test(0));
    let id = db.insert(&value).unwrap();
    assert!(!id.is_nil());
    let read = db.get_obj(id).unwrap();
    assert_eq!(read, value);
    let typed = db.get_item(id, RecordKind::Plant).unwrap();
    assert_eq!(typed, value);
}

#[test]
fn get_with_wrong_kind_is_a_type_mismatch() {
    let mut reg = TypeRegistry::new();
    reg.register(RecordKind::Plant);
    reg.register(RecordKind::PlantTypes);
    reg.register(RecordKind::Gender);
    let mut db = Database::temporary(reg).unwrap();
    let id = db.insert(&Record::Plant(Plant::test(0))).unwrap();
    let err = db.get_item(id, RecordKind::Gender).unwrap_err();
    assert!(matches!(err, DbError::TypeMismatch(_, _)));
}

#[test]
fn remove_then_get_misses_and_remove_is_idempotent() {
    let mut db = plant_db();
    let id = db.insert(&Record::Plant(Plant::test(0))).unwrap();
    db.remove(id).unwrap();
    let err = db.get_obj(id).unwrap_err();
    assert!(matches!(err, DbError::NoSuchEntry));
    // Removing an absent identifier succeeds without error.
    db.remove(id).unwrap();
    db.remove(ItemId::from_u128(424242)).unwrap();
}

#[test]
fn independent_counters_per_date() {
    let mut db = plant_db();
    let first_date = Date::new_ymd(2022, 09, 30);
    let second_date = first_date.next();
    let k1 = db.add_event_obj(&Record::Plant(Plant::test(0)), first_date).unwrap();
    let k2 = db.add_event_obj(&Record::Plant(Plant::test(1)), first_date).unwrap();
    let k3 = db.add_event_obj(&Record::Plant(Plant::test(0)), second_date).unwrap();
    assert_eq!(k1, EventId::date_key(first_date).with_id(1));
    assert_eq!(k2, EventId::date_key(first_date).with_id(2));
    assert_eq!(k3, EventId::date_key(second_date).with_id(1));
    assert_ne!(k1, k2);
    let e1 = db.get_event(k1).unwrap();
    let e2 = db.get_event(k2).unwrap();
    let e3 = db.get_event(k3).unwrap();
    assert_eq!(e1.date, first_date);
    assert_eq!(e2.date, first_date);
    assert_eq!(e3.date, second_date);
    assert_eq!(e1.name, "server_lib::plants::Plant");
    assert_ne!(e1.data, e2.data);
    assert_eq!(e1.data, e3.data);
}

#[test]
fn unregistered_type_is_reported() {
    let mut db = test_db();
    let err = db.insert(&Record::Plant(Plant::test(0))).unwrap_err();
    assert!(matches!(err, DbError::TypeNotRegistered(_)));
    let err = db.add_event_obj(&Record::Plant(Plant::test(0)), test_date()).unwrap_err();
    assert!(matches!(err, DbError::TypeNotRegistered(_)));
}

#[test]
fn missing_capabilities_are_reported() {
    let mut reg = TypeRegistry::new();
    reg.register_caps(RecordKind::Plant, false, true);
    let mut db = Database::temporary(reg).unwrap();
    let err = db.insert(&Record::Plant(Plant::test(0))).unwrap_err();
    assert!(matches!(err, DbError::NoSerializeCapability(_)));

    let mut reg = TypeRegistry::new();
    reg.register_caps(RecordKind::Plant, true, false);
    let mut db = Database::temporary(reg).unwrap();
    let id = db.insert(&Record::Plant(Plant::test(0))).unwrap();
    let err = db.get_obj(id).unwrap_err();
    assert!(matches!(err, DbError::NoDeserializeCapability(_)));
}

#[test]
fn malformed_payload_is_reported() {
    let mut db = plant_db();
    let id = ItemId::from_u128(99);
    let junk = ItemData {
        name: String::from("server_lib::plants::Plant"),
        data: String::from("not hexadecimal"),
    };
    db.insert_item_data(id, &junk).unwrap();
    let err = db.get_obj(id).unwrap_err();
    assert!(matches!(err, DbError::MalformedPayload));
}

#[test]
fn insert_item_bypasses_the_registry() {
    // A caller-chosen identifier and no registration needed to write;
    // reading back through the registry still demands a capability.
    let mut db = test_db();
    let id = ItemId::from_u128(5);
    db.insert_item(id, &Record::Plant(Plant::test(1))).unwrap();
    let raw = db.get_item_data(id).unwrap();
    assert_eq!(raw.name, "server_lib::plants::Plant");
    let err = db.get_obj(id).unwrap_err();
    assert!(matches!(err, DbError::TypeNotRegistered(_)));
}

#[test]
fn item_data_round_trip() {
    let mut db = test_db();
    let item = ItemData { name: String::from("a name"), data: String::from("a payload") };
    let id = db.add_item(&item).unwrap();
    let read = db.get_item_data(id).unwrap();
    assert_eq!(read.name, "a name");
    assert_eq!(read.data, "a payload");
}

#[test]
fn event_log_scenario() {
    // Two events on one date take sequence numbers 1 and 2; an event
    // on the next date starts its own counter at 1; every key reads
    // back the right date and payload.
    let mut reg = TypeRegistry::new();
    reg.register(RecordKind::EventsPlant);
    reg.register(RecordKind::SilkWorm);
    let mut db = Database::temporary(reg).unwrap();
    let first_date = Date::new_ymd(2022, 09, 30);
    let second_date = Date::new_ymd(2022, 10, 01);
    let a = Record::EventsPlant(server_lib::events::Plant::test(0));
    let b = Record::EventsPlant(server_lib::events::Plant::test(1));
    let c = Record::SilkWorm(server_lib::events::silkworms::SilkWormEvents::Hatched(second_date));
    let ka = db.add_event_obj(&a, first_date).unwrap();
    let kb = db.add_event_obj(&b, first_date).unwrap();
    let kc = db.add_event_obj(&c, second_date).unwrap();
    assert_eq!(ka, EventId::date_key(first_date).with_id(1));
    assert_eq!(kb, EventId::date_key(first_date).with_id(2));
    assert_eq!(kc, EventId::date_key(second_date).with_id(1));
    assert_eq!(db.get_event_obj(ka).unwrap(), a);
    assert_eq!(db.get_event_obj(kb).unwrap(), b);
    assert_eq!(db.get_event_obj(kc).unwrap(), c);
    assert_eq!(db.get_event(ka).unwrap().date, first_date);
    assert_eq!(db.get_event(kc).unwrap().date, second_date);
}

#[test]
fn standard_registry_round_trip() {
    let mut db = Database::temporary(server_lib::type_registry()).unwrap();
    let list = Record::ItemIdList(vec![ItemId::from_u128(1), ItemId::from_u128(2)]);
    let id = db.insert(&list).unwrap();
    assert_eq!(db.get_obj(id).unwrap(), list);
    let gender = Record::Gender(server_lib::worms::Gender::SuspectedFemale);
    let id = db.insert(&gender).unwrap();
    assert_eq!(db.get_obj(id).unwrap(), gender);
    let crate_rec = Record::Crate(server_lib::greenhouse::Crate {
        id: ItemId::from_u128(7),
        crop: server_lib::greenhouse::Crop::TrussTomato,
        size: server_lib::greenhouse::CrateSize::Large,
        grade: server_lib::greenhouse::Grade::Second,
    });
    let id = db.insert(&crate_rec).unwrap();
    assert_eq!(db.get_obj(id).unwrap(), crate_rec);
}
