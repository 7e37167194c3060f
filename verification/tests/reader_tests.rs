use pcsc_tester::reader::ReaderInfo;

#[test]
fn test_reader_info_creation() {
    let reader_info = ReaderInfo {
        name: "Test Reader".to_string(),
        is_connected: true,
        atr: Some(vec![0x3B, 0x75, 0x13, 0x00]),
    };

    assert_eq!(reader_info.name, "Test Reader");
    assert!(reader_info.is_connected);
    assert_eq!(reader_info.atr, Some(vec![0x3B, 0x75, 0x13, 0x00]));
}

#[test]
fn test_reader_info_with_atr() {
    let atr = vec![
        0x3B, 0xAC, 0x00, 0x40, 0x2A, 0x00, 0x12, 0x25, 0x00, 0x64, 0x80, 0x00, 0x03, 0x10, 0x00,
        0x90, 0x00,
    ];
    let reader_info = ReaderInfo {
        name: "Smart Card Reader".to_string(),
        is_connected: true,
        atr: Some(atr.clone()),
    };

    assert!(reader_info.is_connected);
    assert_eq!(reader_info.atr.unwrap(), atr);
}

#[test]
fn test_reader_info_clone() {
    let original = ReaderInfo {
        name: "Original Reader".to_string(),
        is_connected: true,
        atr: Some(vec![0x3B, 0x00]),
    };

    let cloned = original.clone();
    assert_eq!(original.name, cloned.name);
    assert_eq!(original.is_connected, cloned.is_connected);
    assert_eq!(original.atr, cloned.atr);
}

#[test]
fn test_reader_info_debug() {
    let reader_info = ReaderInfo {
        name: "Debug Reader".to_string(),
        is_connected: false,
        atr: None,
    };

    let debug_str = format!("{:?}", reader_info);
    assert!(debug_str.contains("Debug Reader"));
    assert!(debug_str.contains("false"));
    assert!(debug_str.contains("None"));
}

#[test]
fn test_reader_info_empty_name() {
    let reader_info = ReaderInfo {
        name: "".to_string(),
        is_connected: false,
        atr: None,
    };

    assert_eq!(reader_info.name, "");
    assert!(!reader_info.is_connected);
    assert!(reader_info.atr.is_none());
}

#[test]
fn test_reader_info_long_atr() {
    // An answer to reset is at most 33 bytes long.
    let long_atr: Vec<u8> = (0..33).collect();
    let reader_info = ReaderInfo {
        name: "Long ATR Reader".to_string(),
        is_connected: true,
        atr: Some(long_atr.clone()),
    };

    assert_eq!(reader_info.atr.unwrap().len(), 33);
}

#[test]
fn test_reader_info_empty_atr() {
    let reader_info = ReaderInfo {
        name: "Empty ATR Reader".to_string(),
        is_connected: true,
        atr: Some(vec![]),
    };

    assert!(reader_info.is_connected);
    assert_eq!(reader_info.atr.unwrap().len(), 0);
}

#[test]
fn test_reader_info_serialization() {
    let reader_info = ReaderInfo {
        name: "Test Reader".to_string(),
        is_connected: false,
        atr: None,
    };

    // Test JSON serialization
    let json = reader_info.to_json().unwrap();
    assert!(json.contains("Test Reader"));
    assert!(json.contains("false"));

    // Test deserialization
    let deserialized = ReaderInfo::from_json(&json).unwrap();
    assert_eq!(deserialized.name, reader_info.name);
    assert_eq!(deserialized.is_connected, reader_info.is_connected);
    assert_eq!(deserialized.atr, reader_info.atr);
}

#[test]
fn reader_info_json_exact_text() {
    let with_card = ReaderInfo {
        name: "R \"1\"".to_string(),
        is_connected: true,
        atr: Some(vec![0x3B, 0x00, 0xFF]),
    };
    let json = with_card.to_json().unwrap();
    assert_eq!(
        json,
        "{\"atr\":[59,0,255],\"is_connected\":true,\"name\":\"R \\\"1\\\"\"}"
    );
    let read = ReaderInfo::from_json(&json).unwrap();
    assert_eq!(read.name, with_card.name);
    assert!(read.is_connected);
    assert_eq!(read.atr, with_card.atr);
    let bare = ReaderInfo::from_json("{\"name\":\"x\",\"is_connected\":false}").unwrap();
    assert_eq!(bare.atr, None);
    assert!(ReaderInfo::from_json("{\"name\":\"x\"}").is_none());
    assert!(ReaderInfo::from_json("{\"name\":1,\"is_connected\":false}").is_none());
    assert!(
        ReaderInfo::from_json("{\"name\":\"x\",\"is_connected\":false,\"atr\":[300]}").is_none()
    );
    assert!(ReaderInfo::from_json("[]").is_none());
}
