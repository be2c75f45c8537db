use squirrel::record::{attribute_map_to_item, item_to_attribute_map, Item, RawRecord};

#[test]
fn encodes_fields_as_base64() {
    let item = Item {
        encrypted_data_key: b"Man".to_vec(),
        encrypted_data: b"foo".to_vec(),
        iv: b"ab".to_vec(),
    };
    let rec = item_to_attribute_map(&item);
    assert_eq!(rec.encrypted_data_key.as_deref(), Some("TWFu"));
    assert_eq!(rec.encrypted_data.as_deref(), Some("Zm9v"));
    assert_eq!(rec.iv.as_deref(), Some("YWI="));
}

#[test]
fn decodes_what_it_encoded() {
    let item = Item {
        encrypted_data_key: (0u8..32).collect(),
        encrypted_data: (0u8..48).collect(),
        iv: (200u8..216).collect(),
    };
    let rec = item_to_attribute_map(&item);
    let back = attribute_map_to_item(&rec).unwrap();
    assert_eq!(back.encrypted_data_key, item.encrypted_data_key);
    assert_eq!(back.encrypted_data, item.encrypted_data);
    assert_eq!(back.iv, item.iv);
}

#[test]
fn missing_field_is_malformed() {
    let rec = RawRecord {
        encrypted_data_key: Some("TWFu".to_string()),
        encrypted_data: None,
        iv: Some("YWI=".to_string()),
    };
    let err = attribute_map_to_item(&rec).unwrap_err();
    assert_eq!(err.message, "Item did not contain the expected fields");
}

#[test]
fn all_fields_missing_is_malformed() {
    let rec = RawRecord { encrypted_data_key: None, encrypted_data: None, iv: None };
    let err = attribute_map_to_item(&rec).unwrap_err();
    assert_eq!(err.message, "Item did not contain the expected fields");
}

#[test]
fn invalid_base64_is_rejected() {
    let rec = RawRecord {
        encrypted_data_key: Some("not base64!!".to_string()),
        encrypted_data: Some("Zm9v".to_string()),
        iv: Some("YWI=".to_string()),
    };
    let err = attribute_map_to_item(&rec).unwrap_err();
    assert_eq!(err.message, "Item held an attribute that is not valid base64");
}

#[test]
fn noncanonical_padding_is_rejected() {
    let rec = RawRecord {
        encrypted_data_key: Some("TWFu".to_string()),
        encrypted_data: Some("Zm9v".to_string()),
        // "ab" encodes as "YWI="; the unpadded form is not canonical here
        iv: Some("YWI".to_string()),
    };
    assert!(attribute_map_to_item(&rec).is_err());
}
