use rusty_pickle::{DumpPolicy, Pickle, SerializationMethod};

#[test]
fn test_set_get() {
    let mut db = Pickle::new(
        String::from("test_name"),
        DumpPolicy::Auto,
        SerializationMethod::Json,
    );

    let num = 100;
    let string = String::from("hello");
    db.set("num", serde_json::to_string(&num).unwrap(), 0).unwrap();
    db.set("a string", serde_json::to_string(&string).unwrap(), 0)
        .unwrap();
    // read a num
    let got_num: i32 = serde_json::from_str(&db.get("num").unwrap()).unwrap();
    assert_eq!(got_num, num);
    // read a string
    let got_string: String = serde_json::from_str(&db.get("a string").unwrap()).unwrap();
    assert_eq!(got_string, "hello");
}

#[test]
fn test_dump_db() {
    let mut db = Pickle::new(
        String::from("test_name"),
        DumpPolicy::UponRequest,
        SerializationMethod::Json,
    );
    let num = 100;
    let string = String::from("hello");
    db.set("num", serde_json::to_string(&num).unwrap(), 0).unwrap();
    db.set("a string", serde_json::to_string(&string).unwrap(), 0)
        .unwrap();
    assert!(db.dump(0).is_ok())
}

#[test]
fn test_load_db() {
    let db = Pickle::new(
        String::from("test.db"),
        DumpPolicy::Auto,
        SerializationMethod::Json,
    );
    let pending = db.dump(0).unwrap().unwrap();
    assert!(Pickle::load(
        &pending.payload,
        String::from("test.db"),
        DumpPolicy::Auto,
        SerializationMethod::Json,
    )
    .is_ok())
}

#[test]
fn test_get_all_keys() {
    let mut db = Pickle::new(
        String::from("test.db"),
        DumpPolicy::Auto,
        SerializationMethod::Json,
    );

    let key_count: usize = 10;
    let dummy_value = 1;

    for i in 0..10 {
        db.set(
            &format!("{}{}", "key", i),
            serde_json::to_string(&dummy_value).unwrap(),
            0,
        )
        .unwrap();
    }

    assert_eq!(db.key_count(), key_count);
}

#[test]
fn test_list_keys() {
    let _db = Pickle::new(
        String::from("test.db"),
        DumpPolicy::Auto,
        SerializationMethod::Json,
    );
}
