use smolldb::DataKind;
use smolldb::DataType;
use smolldb::Error;
use smolldb::SmollDB;
use smolldb::SmollError;

/// The byte image of one entry, built by hand from the documented layout.
fn entry_bytes(key: &str, tag: u8, payload: &[u8]) -> Vec<u8> {
    let mut out = Vec::new();
    out.extend_from_slice(&(key.len() as u64).to_be_bytes());
    out.extend_from_slice(key.as_bytes());
    out.push(tag);
    out.extend_from_slice(payload);
    out
}

#[test]
fn empty_store_encodes_to_zero_bytes() {
    let db = SmollDB::default();
    assert!(db.encode().is_empty());
    let decoded = SmollDB::decode(&[]).unwrap();
    assert_eq!(db, decoded);
}

#[test]
fn entry_layout_is_exact() {
    let mut db = SmollDB::default();
    db.set("A", DataType::from(true));
    assert_eq!(db.encode(), vec![0, 0, 0, 0, 0, 0, 0, 1, 0x41, 0, 1]);

    let mut db = SmollDB::default();
    db.set("K", DataType::from(0x0102_i16));
    assert_eq!(db.encode(), vec![0, 0, 0, 0, 0, 0, 0, 1, 0x4B, 2, 1, 2]);

    let mut db = SmollDB::default();
    db.set("s", DataType::from(String::from("hi")));
    assert_eq!(
        db.encode(),
        vec![0, 0, 0, 0, 0, 0, 0, 1, 0x73, 7, 0, 0, 0, 0, 0, 0, 0, 2, 0x68, 0x69]
    );

    let mut db = SmollDB::default();
    db.set("n", DataType::from(-2_i8));
    assert_eq!(db.encode(), vec![0, 0, 0, 0, 0, 0, 0, 1, 0x6E, 1, 0xFE]);
}

#[test]
fn truncating_any_payload_is_a_decode_error() {
    let samples = vec![
        DataType::from(true),
        DataType::from(7_i8),
        DataType::from(7_i16),
        DataType::from(7_i32),
        DataType::from(7_i64),
        DataType::FLOAT32((1.5_f32).to_bits()),
        DataType::FLOAT64((1.5_f64).to_bits()),
        DataType::from(String::from("text")),
        DataType::from(vec![1_u8, 2, 3]),
    ];
    for value in samples {
        let mut db = SmollDB::default();
        db.set("key", value);
        let mut bytes = db.encode();
        bytes.pop();
        assert_eq!(SmollDB::decode(&bytes).unwrap_err(), Error::DecodeError);
    }
}

#[test]
fn unrecognized_tag_is_a_decode_error() {
    for tag in [9_u8, 10, 100, 255] {
        let bytes = entry_bytes("key", tag, &[0, 0, 0, 0]);
        assert_eq!(SmollDB::decode(&bytes).unwrap_err(), Error::DecodeError);
    }
    // A recognized tag with the same layout decodes fine.
    let bytes = entry_bytes("key", 3, &[0, 0, 0, 4]);
    let db = SmollDB::decode(&bytes).unwrap();
    assert_eq!(*db.get("key").unwrap(), DataType::INT32(4));
}

#[test]
fn invalid_utf8_key_is_a_decode_error() {
    // Key length 1, key byte 0xFF: not valid UTF-8.
    let bytes = vec![0, 0, 0, 0, 0, 0, 0, 1, 0xFF, 0, 1];
    assert_eq!(SmollDB::decode(&bytes).unwrap_err(), Error::DecodeError);
    // Same layout with an ASCII key decodes fine.
    let bytes = vec![0, 0, 0, 0, 0, 0, 0, 1, 0x41, 0, 1];
    assert!(SmollDB::decode(&bytes).is_ok());
}

#[test]
fn duplicate_key_overwrites_silently() {
    let mut bytes = entry_bytes("k", 1, &[1]);
    bytes.extend_from_slice(&entry_bytes("k", 1, &[2]));
    let db = SmollDB::decode(&bytes).unwrap();
    assert_eq!(*db.get("k").unwrap(), DataType::INT8(2));
}

#[test]
fn malformed_zlib_stream_is_a_compression_error() {
    assert_eq!(
        SmollDB::from_compressed(&[]).unwrap_err(),
        Error::CompressionError
    );
    // A raw (uncompressed) encoded image is not a zlib stream: if the
    // decompression boundary handed its input through unchanged, this
    // would wrongly decode.
    let mut db = SmollDB::default();
    db.set("A", DataType::from(true));
    let raw = db.encode();
    assert_eq!(
        SmollDB::from_compressed(&raw).unwrap_err(),
        Error::CompressionError
    );
}

#[test]
fn compressed_image_is_not_the_raw_image() {
    let mut db = SmollDB::default();
    db.set("A", DataType::from(vec![1_u8; 64]));
    let raw = db.encode();
    let blob = db.to_compressed().unwrap();
    assert_ne!(raw, blob);
}

#[test]
fn set_replaces_and_returns_previous() {
    let mut db = SmollDB::default();
    assert!(db.set("k", DataType::from(1_i32)).is_none());
    let prev = db.set("k", DataType::from(2_i32)).unwrap();
    assert_eq!(prev, DataType::INT32(1));
    assert_eq!(*db.get("k").unwrap(), DataType::INT32(2));
}

#[test]
fn remove_returns_what_get_saw() {
    let mut db = SmollDB::default();
    db.set("k", DataType::from(5_i64));
    let seen = db.get("k").unwrap().clone();
    let removed = db.remove("k").unwrap();
    assert_eq!(seen, removed);
    assert!(!db.contains_key("k"));
    assert!(db.remove("k").is_none());
}

#[test]
fn equality_ignores_insertion_order() {
    let mut a = SmollDB::default();
    a.set("x", DataType::from(1_i8));
    a.set("y", DataType::from(2_i8));
    let mut b = SmollDB::default();
    b.set("y", DataType::from(2_i8));
    b.set("x", DataType::from(1_i8));
    assert_eq!(a, b);
    b.set("y", DataType::from(3_i8));
    assert_ne!(a, b);
}

#[test]
fn equality_is_variant_exact() {
    assert_ne!(DataType::from(false), DataType::from(0_i8));
    assert_ne!(DataType::from(1_i8), DataType::from(1_i16));
    let mut a = SmollDB::default();
    a.set("k", DataType::from(0_i8));
    let mut b = SmollDB::default();
    b.set("k", DataType::from(false));
    assert_ne!(a, b);
}

#[test]
fn multibyte_utf8_key_roundtrips() {
    let key = "cl\u{00e9}\u{2615}\u{1f511}";
    let mut db = SmollDB::default();
    db.set(key, DataType::from(vec![0xDE_u8, 0xAD]));
    let decoded = SmollDB::decode(&db.encode()).unwrap();
    assert_eq!(db, decoded);
    assert_eq!(*decoded.get(key).unwrap(), DataType::BYTES(vec![0xDE, 0xAD]));
    let restored = SmollDB::from_compressed(&db.to_compressed().unwrap()).unwrap();
    assert_eq!(db, restored);
    assert_eq!(*restored.get(key).unwrap(), DataType::BYTES(vec![0xDE, 0xAD]));
}

#[test]
fn nine_hundred_entries_roundtrip() {
    let mut db = SmollDB::default();
    for i in 0..100_i64 {
        db.set(&format!("bool{}", i), DataType::from(i % 2 == 0));
        db.set(&format!("int8{}", i), DataType::from(i as i8));
        db.set(&format!("int16{}", i), DataType::from(i as i16));
        db.set(&format!("int32{}", i), DataType::from(i as i32));
        db.set(&format!("int64{}", i), DataType::from(i));
        db.set(
            &format!("float32{}", i),
            DataType::FLOAT32((i as f32 / 3.0).to_bits()),
        );
        db.set(
            &format!("float64{}", i),
            DataType::FLOAT64((i as f64 / 3.0).to_bits()),
        );
        db.set(
            &format!("string{}", i),
            DataType::from(format!("value number {}", i)),
        );
        db.set(
            &format!("bytes{}", i),
            DataType::from(vec![i as u8, (i + 1) as u8, (i + 2) as u8]),
        );
    }
    let blob = db.to_compressed().unwrap();
    let restored = SmollDB::from_compressed(&blob).unwrap();
    assert_eq!(db, restored);
}

#[test]
fn conversion_error_names_the_stored_kind() {
    let mut db = SmollDB::default();
    db.set("text", DataType::from(String::from("x")));
    let r: Result<Vec<u8>, Error> = db.extract("text").unwrap();
    assert_eq!(r, Err(Error::ConversionError(DataKind::STRING)));
    let r: Result<bool, Error> = db.extract("text").unwrap();
    assert_eq!(r, Err(Error::ConversionError(DataKind::STRING)));
    let r: Result<String, Error> = db.extract("text").unwrap();
    assert_eq!(r, Ok(String::from("x")));
}

#[test]
fn smoll_error_descriptions() {
    assert_eq!(SmollError::InsertError.string(), "Insert Error");
    assert_eq!(SmollError::CompressionError.string(), "Compression Error");
    assert_eq!(
        SmollError::DecompressionError.string(),
        "Decompression Error"
    );
    assert_eq!(SmollError::DecodeError.string(), "Decode Error");
    assert_eq!(SmollError::SaveFileError.string(), "Save File Error");
    assert_eq!(SmollError::ReadFileError.string(), "Read File Error");
}
