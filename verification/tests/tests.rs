use smolldb::DataType;
use smolldb::Error;
use smolldb::SmollDB;

#[test]
fn set_and_get() {
    let mut db = SmollDB::default();
    db.set("Nome", DataType::from("Mario".to_string()));
    db.set("Eta", DataType::from(34_i16));
    db.set("Stinky", DataType::from(true));
    db.set("Height", DataType::FLOAT32((23.3_f32).to_bits()));
    db.set(
        "CF",
        DataType::from(vec![0u8, 1, 2, 3, 4, 5, 6, 7, 8, 9, 10]),
    );

    assert_eq!(
        DataType::STRING("Mario".to_string()),
        *(db.get("Nome").unwrap())
    );
    assert_eq!(DataType::INT16(34_i16), *(db.get("Eta").unwrap()));
    assert_eq!(DataType::BOOL(true), *(db.get("Stinky").unwrap()));
    assert_eq!(
        DataType::FLOAT32((23.3_f32).to_bits()),
        *(db.get("Height").unwrap())
    );
    assert_eq!(
        DataType::BYTES(vec![0, 1, 2, 3, 4, 5, 6, 7, 8, 9, 10]),
        *(db.get("CF").unwrap())
    );
}

fn roundtrip(db: &SmollDB) -> SmollDB {
    let blob = db.to_compressed().unwrap();
    SmollDB::from_compressed(&blob).unwrap()
}

#[test]
fn backup_and_load_empty() {
    let db = SmollDB::default();
    let db_copy = roundtrip(&db);
    assert_eq!(db, db_copy);
}

#[test]
fn backup_and_load_bool() {
    let mut db = SmollDB::default();
    db.set("element", DataType::from(true));
    let db_copy = roundtrip(&db);
    assert_eq!(db, db_copy);
}

#[test]
fn backup_and_load_int8() {
    let mut db = SmollDB::default();
    db.set("element", DataType::from(1_i8));
    let db_copy = roundtrip(&db);
    assert_eq!(db, db_copy);
}

#[test]
fn backup_and_load_int16() {
    let mut db = SmollDB::default();
    db.set("element", DataType::from(1_i16));
    let db_copy = roundtrip(&db);
    assert_eq!(db, db_copy);
}

#[test]
fn backup_and_load_int32() {
    let mut db = SmollDB::default();
    db.set("element", DataType::from(1_i32));
    let db_copy = roundtrip(&db);
    assert_eq!(db, db_copy);
}

#[test]
fn backup_and_load_int64() {
    let mut db = SmollDB::default();
    db.set("element", DataType::from(1_i64));
    let db_copy = roundtrip(&db);
    assert_eq!(db, db_copy);
}

#[test]
fn backup_and_load_float32() {
    let mut db = SmollDB::default();
    db.set("element", DataType::FLOAT32((1_f32).to_bits()));
    let db_copy = roundtrip(&db);
    assert_eq!(db, db_copy);
}

#[test]
fn backup_and_load_float64() {
    let mut db = SmollDB::default();
    db.set("element", DataType::FLOAT64((1_f64).to_bits()));
    let db_copy = roundtrip(&db);
    assert_eq!(db, db_copy);
}

#[test]
fn backup_and_load_string() {
    let mut db = SmollDB::default();
    db.set("element", DataType::from(String::from("S.M.O.L.L.")));
    let db_copy = roundtrip(&db);
    assert_eq!(db, db_copy);
}

#[test]
fn backup_and_load_bytes() {
    let mut db = SmollDB::default();
    db.set(
        "element",
        DataType::from(vec![0_u8, 1, 2, 3, 4, 5, 6, 7, 8, 9, 10, 12]),
    );
    let db_copy = roundtrip(&db);
    assert_eq!(db, db_copy);
}

#[test]
fn backup_and_load_complete() {
    let mut db = SmollDB::default();
    db.set("bool", DataType::from(false));
    db.set("int8", DataType::from(8_i8));
    db.set("int16", DataType::from(8_i16));
    db.set("int32", DataType::from(8_i32));
    db.set("int64", DataType::from(8_i64));
    db.set("float32", DataType::FLOAT32((4_f32).to_bits()));
    db.set("float64", DataType::FLOAT64((4_f64).to_bits()));
    db.set("string", DataType::from(String::from("8_i8")));
    db.set(
        "bytes",
        DataType::from(vec![
            1u8, 2, 3, 4, 5, 6, 7, 8, 243, 123, 46, 11, 123, 65, 2, 3, 5, 7, 2,
        ]),
    );
    let db_copy = roundtrip(&db);
    assert_eq!(db, db_copy);
}

#[test]
fn example_db_default() {
    let mut database = SmollDB::default();
    let data = String::from("data");
    let key = String::from("example");
    database.set(&key, DataType::from(data.clone()));
    let result = database.get(&key).unwrap();
    assert_eq!(*result, DataType::STRING(data));
}

#[test]
fn example_db_load() {
    let mut database = SmollDB::default();
    let data = String::from("data");
    let key = String::from("example");
    database.set(&key, DataType::from(data.clone()));
    let database = roundtrip(&database);
    let result = database.get(&key).unwrap();
    assert_eq!(*result, DataType::STRING(data));
}

#[test]
fn example_db_remove_and_check() {
    let mut database = SmollDB::default();
    let data = String::from("data");
    let key = String::from("example");
    database.set(&key, DataType::from(data.clone()));
    assert!(database.contains_key(&key));
    database.remove(&key);
    assert!(!database.contains_key(&key));
}

#[test]
fn example_db_iteration() {
    let mut database = SmollDB::default();
    let keys = vec!["k1", "k2", "k3", "k4"];
    let values = vec![1, 2, 3, 4];
    for (pos, key) in keys.clone().into_iter().enumerate() {
        database.set(key, DataType::from(values[pos]));
    }
    for (k, v) in database.into_entries() {
        assert_eq!(
            v,
            DataType::from(values[keys.iter().position(|&x| x == k.as_str()).unwrap()])
        );
    }
}

#[test]
fn datetype_try_from_conversion() {
    let bool_datatype = DataType::from(true);
    let int8_datatype = DataType::from(8_i8);
    let int16_datatype = DataType::from(8_i16);
    let int32_datatype = DataType::from(8_i32);
    let int64_datatype = DataType::from(8_i64);
    let float32_datatype = DataType::FLOAT32((4_f32).to_bits());
    let float64_datatype = DataType::FLOAT64((4_f64).to_bits());
    let string_datatype = DataType::from(String::from("this is my string"));
    let bytes_datatype = DataType::from(vec![1_u8, 2, 3, 4, 5, 6, 7, 8, 9, 10]);
    assert_eq!(bool::try_from(&bool_datatype).unwrap(), true);
    assert_eq!(i8::try_from(&int8_datatype).unwrap(), 8_i8);
    assert_eq!(i16::try_from(&int16_datatype).unwrap(), 8_i16);
    assert_eq!(i32::try_from(&int32_datatype).unwrap(), 8_i32);
    assert_eq!(i64::try_from(&int64_datatype).unwrap(), 8_i64);
    match &float32_datatype {
        DataType::FLOAT32(bits) => assert_eq!(f32::from_bits(*bits), 4_f32),
        _ => panic!(),
    }
    match &float64_datatype {
        DataType::FLOAT64(bits) => assert_eq!(f64::from_bits(*bits), 4_f64),
        _ => panic!(),
    }
    assert_eq!(
        String::try_from(&string_datatype).unwrap(),
        String::from("this is my string")
    );
    assert_eq!(
        Vec::<u8>::try_from(&bytes_datatype).unwrap(),
        vec![1_u8, 2, 3, 4, 5, 6, 7, 8, 9, 10]
    );
}

#[test]
fn test_db_extract() {
    let mut database = SmollDB::default();
    let bool_data = true;
    let int8_data = 8_i8;
    let int16_data = 8_i16;
    let int32_data = 8_i32;
    let int64_data = 8_i64;
    let float32_data = 4_f32;
    let float64_data = 4_f64;
    let string_data = String::from("this is my string");
    let bytes_data = vec![1_u8, 2, 3, 4, 5, 6, 7, 8, 9, 10];

    database.set("bool", DataType::from(bool_data));
    database.set("int8", DataType::from(int8_data));
    database.set("int16", DataType::from(int16_data));
    database.set("int32", DataType::from(int32_data));
    database.set("int64", DataType::from(int64_data));
    database.set("float32", DataType::FLOAT32(float32_data.to_bits()));
    database.set("float64", DataType::FLOAT64(float64_data.to_bits()));
    database.set("string", DataType::from(string_data.clone()));
    database.set("bytes", DataType::from(bytes_data.clone()));

    let bool_data_extracted: &bool = database.extract("bool").unwrap().unwrap();
    let int8_data_extracted: &i8 = database.extract("int8").unwrap().unwrap();
    let int16_data_extracted: &i16 = database.extract("int16").unwrap().unwrap();
    let int32_data_extracted: &i32 = database.extract("int32").unwrap().unwrap();
    let int64_data_extracted: &i64 = database.extract("int64").unwrap().unwrap();
    let string_data_extracted: &String = database.extract("string").unwrap().unwrap();
    let bytes_data_extracted: &Vec<u8> = database.extract("bytes").unwrap().unwrap();

    assert_eq!(bool_data, *bool_data_extracted);
    assert_eq!(int8_data, *int8_data_extracted);
    assert_eq!(int16_data, *int16_data_extracted);
    assert_eq!(int32_data, *int32_data_extracted);
    assert_eq!(int64_data, *int64_data_extracted);
    match database.get("float32").unwrap() {
        DataType::FLOAT32(bits) => assert_eq!(float32_data, f32::from_bits(*bits)),
        _ => panic!(),
    }
    match database.get("float64").unwrap() {
        DataType::FLOAT64(bits) => assert_eq!(float64_data, f64::from_bits(*bits)),
        _ => panic!(),
    }
    assert_eq!(string_data, *string_data_extracted);
    assert_eq!(bytes_data, *bytes_data_extracted);
}

#[test]
fn test_db_extract_clone() {
    let mut database = SmollDB::default();
    let bool_data = true;
    let int8_data = 8_i8;
    let int16_data = 8_i16;
    let int32_data = 8_i32;
    let int64_data = 8_i64;
    let float32_data = 4_f32;
    let float64_data = 4_f64;
    let string_data = String::from("this is my string");
    let bytes_data = vec![1_u8, 2, 3, 4, 5, 6, 7, 8, 9, 10];

    database.set("bool", DataType::from(bool_data));
    database.set("int8", DataType::from(int8_data));
    database.set("int16", DataType::from(int16_data));
    database.set("int32", DataType::from(int32_data));
    database.set("int64", DataType::from(int64_data));
    database.set("float32", DataType::FLOAT32(float32_data.to_bits()));
    database.set("float64", DataType::FLOAT64(float64_data.to_bits()));
    database.set("string", DataType::from(string_data.clone()));
    database.set("bytes", DataType::from(bytes_data.clone()));

    let bool_data_extracted: bool = database.extract("bool").unwrap().unwrap();
    let int8_data_extracted: i8 = database.extract("int8").unwrap().unwrap();
    let int16_data_extracted: i16 = database.extract("int16").unwrap().unwrap();
    let int32_data_extracted: i32 = database.extract("int32").unwrap().unwrap();
    let int64_data_extracted: i64 = database.extract("int64").unwrap().unwrap();
    let string_data_extracted: String = database.extract("string").unwrap().unwrap();
    let bytes_data_extracted: Vec<u8> = database.extract("bytes").unwrap().unwrap();

    assert_eq!(bool_data, bool_data_extracted);
    assert_eq!(int8_data, int8_data_extracted);
    assert_eq!(int16_data, int16_data_extracted);
    assert_eq!(int32_data, int32_data_extracted);
    assert_eq!(int64_data, int64_data_extracted);
    match database.get("float32").unwrap() {
        DataType::FLOAT32(bits) => assert_eq!(float32_data, f32::from_bits(*bits)),
        _ => panic!(),
    }
    match database.get("float64").unwrap() {
        DataType::FLOAT64(bits) => assert_eq!(float64_data, f64::from_bits(*bits)),
        _ => panic!(),
    }
    assert_eq!(string_data, string_data_extracted);
    assert_eq!(bytes_data, bytes_data_extracted);
}

#[test]
fn extract_wrong_kind_is_conversion_error() {
    let mut database = SmollDB::default();
    database.set("flag", DataType::from(true));
    let attempt: Result<i8, Error> = database.extract("flag").unwrap();
    assert_eq!(attempt, Err(Error::ConversionError(smolldb::DataKind::BOOL)));
    let absent: Option<Result<i8, Error>> = database.extract("missing");
    assert!(absent.is_none());
}
