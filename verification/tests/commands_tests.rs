use pcsc_tester::commands::{
    CommandExecutor, CommandResult, CommandType, ControlResult, TransmitResult,
};
use pcsc_tester::timestamp::Timestamp;

#[test]
fn test_command_executor_new() {
    let executor = CommandExecutor::new();
    assert_eq!(executor.history().len(), 0);
}

#[test]
fn test_command_executor_clear_history() {
    let mut executor = CommandExecutor::new();

    executor.add_to_history(CommandResult {
        timestamp: Timestamp::now(),
        command_type: CommandType::Transmit,
        input: vec![0x00, 0x01],
        output: vec![0x90, 0x00],
        success: true,
        error: None,
        duration_ms: 10,
    });

    assert_eq!(executor.history().len(), 1);
    executor.clear_history();
    assert_eq!(executor.history().len(), 0);
}

#[test]
fn test_export_import_history() {
    let mut executor = CommandExecutor::new();

    executor.add_to_history(CommandResult {
        timestamp: Timestamp::now(),
        command_type: CommandType::Transmit,
        input: vec![0x00, 0xA4, 0x04, 0x00],
        output: vec![0x90, 0x00],
        success: true,
        error: None,
        duration_ms: 25,
    });

    executor.add_to_history(CommandResult {
        timestamp: Timestamp::now(),
        command_type: CommandType::Control { code: 0x42000C00 },
        input: vec![0x01, 0x02],
        output: vec![0x03, 0x04],
        success: true,
        error: None,
        duration_ms: 15,
    });

    // Test export
    let json = executor.export_history().unwrap();
    assert!(json.contains("transmit") || json.contains("Transmit"));
    assert!(json.contains("Control")); // Just check the control type is there

    // Test import
    let mut new_executor = CommandExecutor::new();
    new_executor.import_history(&json).unwrap();
    assert_eq!(new_executor.history().len(), 2);
}

#[test]
fn test_export_import_empty_history() {
    let executor = CommandExecutor::new();
    let json = executor.export_history().unwrap();
    assert_eq!(json.trim(), "[]");

    let mut new_executor = CommandExecutor::new();
    new_executor.import_history(&json).unwrap();
    assert_eq!(new_executor.history().len(), 0);
}

#[test]
fn test_import_invalid_json() {
    let mut executor = CommandExecutor::new();
    assert!(executor.import_history("invalid json").is_err());
    assert!(executor.import_history("{}").is_err());
    assert!(executor
        .import_history("[{\"invalid\": \"structure\"}]")
        .is_err());
}

#[test]
fn test_get_statistics_empty() {
    let executor = CommandExecutor::new();
    let stats = executor.get_statistics();

    assert_eq!(stats.total_commands, 0);
    assert_eq!(stats.successful_commands, 0);
    assert_eq!(stats.failed_commands, 0);
    assert_eq!(stats.average_duration_ms, 0);
}

#[test]
fn test_get_statistics_with_commands() {
    let mut executor = CommandExecutor::new();

    // Add successful command
    executor.add_to_history(CommandResult {
        timestamp: Timestamp::now(),
        command_type: CommandType::Transmit,
        input: vec![0x00, 0xA4],
        output: vec![0x90, 0x00],
        success: true,
        error: None,
        duration_ms: 20,
    });

    // Add failed command
    executor.add_to_history(CommandResult {
        timestamp: Timestamp::now(),
        command_type: CommandType::Control { code: 0x1234 },
        input: vec![0x01],
        output: vec![],
        success: false,
        error: Some("Test error".to_string()),
        duration_ms: 30,
    });

    // Add another successful command
    executor.add_to_history(CommandResult {
        timestamp: Timestamp::now(),
        command_type: CommandType::Transmit,
        input: vec![0x00, 0xB0],
        output: vec![0x61, 0x10],
        success: true,
        error: None,
        duration_ms: 10,
    });

    let stats = executor.get_statistics();
    assert_eq!(stats.total_commands, 3);
    assert_eq!(stats.successful_commands, 2);
    assert_eq!(stats.failed_commands, 1);
    assert_eq!(stats.average_duration_ms, 20); // (20 + 30 + 10) / 3 = 20
}

#[test]
fn test_transmit_result() {
    let result = TransmitResult {
        apdu: vec![0x00, 0xA4, 0x04, 0x00],
        response: vec![0x61, 0x10],
        sw1: 0x61,
        sw2: 0x10,
        duration_ms: 15,
    };

    assert_eq!(result.apdu, vec![0x00, 0xA4, 0x04, 0x00]);
    assert_eq!(result.response, vec![0x61, 0x10]);
    assert_eq!(result.sw1, 0x61);
    assert_eq!(result.sw2, 0x10);
    assert_eq!(result.duration_ms, 15);
}

#[test]
fn test_control_result() {
    let result = ControlResult {
        code: 0x42000C00,
        input: vec![0x01, 0x02],
        output: vec![0x03, 0x04, 0x05],
        duration_ms: 25,
    };

    assert_eq!(result.code, 0x42000C00);
    assert_eq!(result.input, vec![0x01, 0x02]);
    assert_eq!(result.output, vec![0x03, 0x04, 0x05]);
    assert_eq!(result.duration_ms, 25);
}

#[test]
fn test_command_result_serialization() {
    let command = CommandResult {
        timestamp: Timestamp::now(),
        command_type: CommandType::Transmit,
        input: vec![0x00, 0xA4, 0x04, 0x00],
        output: vec![0x90, 0x00],
        success: true,
        error: None,
        duration_ms: 42,
    };

    // Test JSON serialization
    let json = command.to_json().unwrap();
    assert!(json.contains("00A40400") || json.contains("[0,164,4,0]"));
    assert!(json.contains("9000") || json.contains("[144,0]"));
    assert!(json.contains("42"));

    // Test deserialization
    let deserialized = CommandResult::from_json(&json).unwrap();
    assert_eq!(deserialized.input, command.input);
    assert_eq!(deserialized.output, command.output);
    assert_eq!(deserialized.success, command.success);
    assert_eq!(deserialized.duration_ms, command.duration_ms);
}

#[test]
fn test_command_type_serialization() {
    let transmit = CommandType::Transmit;
    let control = CommandType::Control { code: 0x42000C00 };

    let transmit_json = transmit.to_json().unwrap();
    let control_json = control.to_json().unwrap();

    assert!(transmit_json.contains("Transmit"));
    assert!(control_json.contains("Control"));
    assert!(!control_json.is_empty());

    // Test deserialization
    let _ = CommandType::from_json(&transmit_json).unwrap();
    let deserialized_control = CommandType::from_json(&control_json).unwrap();

    match deserialized_control {
        CommandType::Control { code } => assert_eq!(code, 0x42000C00),
        _ => panic!("Expected Control command type"),
    }
}

#[test]
fn one_line_json_exact_text() {
    assert_eq!(CommandType::Transmit.to_json().unwrap(), "\"Transmit\"");
    assert_eq!(
        CommandType::Control { code: 16 }.to_json().unwrap(),
        "{\"Control\":{\"code\":16}}"
    );
    assert_eq!(
        CommandType::from_json("\"Transmit\""),
        Some(CommandType::Transmit)
    );
    assert_eq!(
        CommandType::from_json(" { \"Control\" : { \"code\" : 0 } } "),
        Some(CommandType::Control { code: 0 })
    );
    assert_eq!(CommandType::from_json("\"Control\""), None);
    assert_eq!(CommandType::from_json("{\"Control\":{\"code\":-1}}"), None);
    assert_eq!(CommandType::from_json("Transmit"), None);
    let record = CommandResult {
        timestamp: Timestamp::parse("2024-01-02T03:04:05Z").unwrap(),
        command_type: CommandType::Transmit,
        input: vec![1],
        output: vec![],
        success: true,
        error: None,
        duration_ms: 9,
    };
    let json = record.to_json().unwrap();
    assert_eq!(
        json,
        "{\"command_type\":\"Transmit\",\"duration_ms\":9,\"error\":null,\"input\":[1],\
         \"output\":[],\"success\":true,\"timestamp\":\"2024-01-02T03:04:05Z\"}"
    );
    let read = CommandResult::from_json(&json).unwrap();
    assert_eq!(read.timestamp.as_str(), "2024-01-02T03:04:05Z");
    assert_eq!(read.error, None);
    assert!(CommandResult::from_json("{}").is_none());
    assert!(CommandResult::from_json("").is_none());
}
