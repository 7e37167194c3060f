use pcsc_tester::commands::{CommandResult, CommandType};
use pcsc_tester::display::{render_reader, render_record, render_response};
use pcsc_tester::options::{ResponseFormat, ShareModeArg};
use pcsc_tester::reader::{ReaderInfo, ShareMode};
use pcsc_tester::timestamp::Timestamp;

#[test]
fn response_in_each_format() {
    let data = [0x48, 0x69, 0x90, 0x00];
    assert_eq!(
        render_response(&data, ResponseFormat::Hex),
        vec!["Response: 48699000"]
    );
    assert_eq!(
        render_response(&data, ResponseFormat::HexSpaced),
        vec!["Response: 48 69 90 00"]
    );
    assert_eq!(
        render_response(&data, ResponseFormat::Ascii),
        vec!["Response (ASCII): Hi.."]
    );
    assert_eq!(
        render_response(&data, ResponseFormat::HexDump),
        vec![
            "Response:",
            "00000000: 48 69 90 00                                       |Hi..|"
        ]
    );
    assert_eq!(
        render_response(&data, ResponseFormat::All),
        vec!["Response (Hex): 48 69 90 00", "Response (ASCII): Hi.."]
    );
    for format in [
        ResponseFormat::Hex,
        ResponseFormat::HexSpaced,
        ResponseFormat::HexDump,
        ResponseFormat::Ascii,
        ResponseFormat::All,
    ] {
        assert_eq!(render_response(&[], format), vec!["Response: (empty)"]);
    }
}

#[test]
fn long_response_gets_a_dump() {
    let sixteen = [0x30u8; 16];
    assert_eq!(render_response(&sixteen, ResponseFormat::All).len(), 2);
    let seventeen = [0x30u8; 17];
    let lines = render_response(&seventeen, ResponseFormat::All);
    assert_eq!(lines.len(), 4);
    assert_eq!(lines[1], "Response (ASCII): 00000000000000000");
    assert_eq!(lines[2], "Response (Dump):");
    assert_eq!(
        lines[3],
        "00000000: 30 30 30 30 30 30 30 30  30 30 30 30 30 30 30 30  |0000000000000000|\n\
         00000010: 30                                                |0|"
    );
}

#[test]
fn reader_listing_lines() {
    let with_atr = ReaderInfo {
        name: "Reader X".to_string(),
        is_connected: true,
        atr: Some(vec![0x3B, 0x75]),
    };
    let without_atr = ReaderInfo {
        name: "Reader Y".to_string(),
        is_connected: true,
        atr: None,
    };
    let empty = ReaderInfo {
        name: "Reader Z".to_string(),
        is_connected: false,
        atr: None,
    };
    assert_eq!(
        render_reader(0, &with_atr, false),
        vec!["  [0] Reader X [CARD - ATR: 3B 75]"]
    );
    assert_eq!(
        render_reader(1, &without_atr, false),
        vec!["  [1] Reader Y [CARD]"]
    );
    assert_eq!(render_reader(12, &empty, false), vec!["  [12] Reader Z"]);
    assert_eq!(
        render_reader(0, &with_atr, true),
        vec![
            "  [0] Reader X",
            "      Status: Card present",
            "      ATR: 3B 75"
        ]
    );
    assert_eq!(
        render_reader(2, &empty, true),
        vec!["  [2] Reader Z", "      Status: No card"]
    );
    assert_eq!(
        render_reader(3, &without_atr, true),
        vec!["  [3] Reader Y", "      Status: Card present"]
    );
}

#[test]
fn history_lines() {
    let mut record = CommandResult {
        timestamp: Timestamp::now(),
        command_type: CommandType::Transmit,
        input: vec![],
        output: vec![],
        success: true,
        error: None,
        duration_ms: 25,
    };
    assert_eq!(
        render_record(0, "12:34:56", &record),
        "  [1] 12:34:56 TRANSMIT - OK (25ms)"
    );
    record.command_type = CommandType::Control { code: 0x42000C00 };
    record.success = false;
    record.duration_ms = 0;
    assert_eq!(
        render_record(9, "00:00:00", &record),
        "  [10] 00:00:00 CONTROL(0x42000C00) - ERROR (0ms)"
    );
    record.command_type = CommandType::Control { code: 0 };
    record.duration_ms = u64::MAX;
    assert_eq!(
        render_record(99, "", &record),
        "  [100]  CONTROL(0x0) - ERROR (18446744073709551615ms)"
    );
}

#[test]
fn share_modes_and_formats_by_name() {
    assert_eq!(ShareModeArg::parse("shared"), Ok(ShareModeArg::Shared));
    assert_eq!(ShareModeArg::parse("EXCLUSIVE"), Ok(ShareModeArg::Exclusive));
    assert_eq!(ShareModeArg::parse("Direct"), Ok(ShareModeArg::Direct));
    assert_eq!(
        ShareModeArg::parse("invalid-mode"),
        Err("Invalid share mode: invalid-mode".to_string())
    );
    assert_eq!(
        ShareModeArg::parse(" shared"),
        Err("Invalid share mode:  shared".to_string())
    );
    assert_eq!("direct".parse::<ShareModeArg>(), Ok(ShareModeArg::Direct));
    assert_eq!(ShareMode::from(ShareModeArg::Shared), ShareMode::Shared);
    assert_eq!(ShareModeArg::Exclusive.share_mode(), ShareMode::Exclusive);
    assert_eq!(ShareMode::from(ShareModeArg::Direct), ShareMode::Direct);

    assert_eq!(ResponseFormat::parse("hex"), Ok(ResponseFormat::Hex));
    assert_eq!(ResponseFormat::parse("Spaced"), Ok(ResponseFormat::HexSpaced));
    assert_eq!(ResponseFormat::parse("DUMP"), Ok(ResponseFormat::HexDump));
    assert_eq!(ResponseFormat::parse("ascii"), Ok(ResponseFormat::Ascii));
    assert_eq!("all".parse::<ResponseFormat>(), Ok(ResponseFormat::All));
    assert_eq!(
        ResponseFormat::parse("invalid-format"),
        Err("Invalid format: invalid-format".to_string())
    );
    assert_eq!(
        ResponseFormat::parse(""),
        Err("Invalid format: ".to_string())
    );
}

#[test]
fn share_modes_and_formats_from_str() {
    let modes = [
        ("shared", Ok(ShareModeArg::Shared)),
        ("Exclusive", Ok(ShareModeArg::Exclusive)),
        ("DIRECT", Ok(ShareModeArg::Direct)),
        ("both", Err("Invalid share mode: both".to_string())),
        ("", Err("Invalid share mode: ".to_string())),
    ];
    for (text, expected) in modes {
        assert_eq!(text.parse::<ShareModeArg>(), expected);
        assert_eq!(ShareModeArg::parse(text), expected);
    }
    let formats = [
        ("hex", Ok(ResponseFormat::Hex)),
        ("SPACED", Ok(ResponseFormat::HexSpaced)),
        ("Dump", Ok(ResponseFormat::HexDump)),
        ("ascii", Ok(ResponseFormat::Ascii)),
        ("All", Ok(ResponseFormat::All)),
        ("hexdump", Err("Invalid format: hexdump".to_string())),
    ];
    for (text, expected) in formats {
        assert_eq!(text.parse::<ResponseFormat>(), expected);
        assert_eq!(ResponseFormat::parse(text), expected);
    }
}
