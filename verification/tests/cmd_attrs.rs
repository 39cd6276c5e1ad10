use taskstats::{
    Stage, TaskStatsCmdAttrs, TaskStatsError, TASKSTATS_CMD_ATTR_DEREGISTER_CPUMASK,
    TASKSTATS_CMD_ATTR_PID, TASKSTATS_CMD_ATTR_REGISTER_CPUMASK, TASKSTATS_CMD_ATTR_TGID,
};

fn value_of(attr: &TaskStatsCmdAttrs) -> Vec<u8> {
    let mut value = vec![0xaa; attr.value_len()];
    attr.emit_value(&mut value);
    value
}

fn invalid(kind: u16, cause: TaskStatsError) -> TaskStatsError {
    TaskStatsError::Context { stage: Stage::Value(kind), cause: Box::new(cause) }
}

#[test]
fn attribute_kinds_are_the_protocol_constants() {
    assert_eq!(TASKSTATS_CMD_ATTR_PID, 1);
    assert_eq!(TASKSTATS_CMD_ATTR_TGID, 2);
    assert_eq!(TASKSTATS_CMD_ATTR_REGISTER_CPUMASK, 3);
    assert_eq!(TASKSTATS_CMD_ATTR_DEREGISTER_CPUMASK, 4);
    assert_eq!(TaskStatsCmdAttrs::Pid(7).kind(), 1);
    assert_eq!(TaskStatsCmdAttrs::TGid(7).kind(), 2);
    assert_eq!(TaskStatsCmdAttrs::RegisterCPUMask("0".to_string()).kind(), 3);
    assert_eq!(TaskStatsCmdAttrs::DeRegisterCPUMask("0".to_string()).kind(), 4);
}

#[test]
fn value_lengths() {
    assert_eq!(TaskStatsCmdAttrs::Pid(0).value_len(), 4);
    assert_eq!(TaskStatsCmdAttrs::TGid(u32::MAX).value_len(), 4);
    assert_eq!(TaskStatsCmdAttrs::RegisterCPUMask(String::new()).value_len(), 1);
    assert_eq!(TaskStatsCmdAttrs::RegisterCPUMask("0-3".to_string()).value_len(), 4);
    assert_eq!(TaskStatsCmdAttrs::DeRegisterCPUMask("0-3,6".to_string()).value_len(), 6);
    // two bytes for the one character, and the NUL
    assert_eq!(TaskStatsCmdAttrs::DeRegisterCPUMask("é".to_string()).value_len(), 3);
}

#[test]
fn pid_is_written_in_native_order() {
    assert_eq!(value_of(&TaskStatsCmdAttrs::Pid(0x0102_0304)), 0x0102_0304u32.to_ne_bytes());
    assert_eq!(value_of(&TaskStatsCmdAttrs::TGid(1234)), 1234u32.to_ne_bytes());
}

#[test]
fn emit_value_leaves_the_rest_of_the_buffer() {
    let mut buffer = [0xaa_u8; 8];
    TaskStatsCmdAttrs::Pid(1).emit_value(&mut buffer);
    assert_eq!(&buffer[..4], &1u32.to_ne_bytes());
    assert_eq!(&buffer[4..], &[0xaa; 4]);

    let mut buffer = [0xaa_u8; 6];
    TaskStatsCmdAttrs::RegisterCPUMask("0-3".to_string()).emit_value(&mut buffer);
    assert_eq!(&buffer, b"0-3\0\xaa\xaa");
}

#[test]
fn register_cpu_mask_round_trip() {
    let attr = TaskStatsCmdAttrs::RegisterCPUMask("0-3".to_string());
    assert_eq!(attr.value_len(), 4);
    let value = value_of(&attr);
    assert_eq!(value, b"0-3\0");
    assert_eq!(TaskStatsCmdAttrs::parse(attr.kind(), &value), Ok(attr));
}

#[test]
fn every_variant_round_trips() {
    let attrs = [
        TaskStatsCmdAttrs::Pid(0),
        TaskStatsCmdAttrs::Pid(1234),
        TaskStatsCmdAttrs::Pid(u32::MAX),
        TaskStatsCmdAttrs::TGid(0x8000_0000),
        TaskStatsCmdAttrs::RegisterCPUMask(String::new()),
        TaskStatsCmdAttrs::RegisterCPUMask("0-3,6".to_string()),
        TaskStatsCmdAttrs::DeRegisterCPUMask("1".to_string()),
        TaskStatsCmdAttrs::DeRegisterCPUMask("größe\0".to_string()),
    ];
    for attr in attrs {
        let value = value_of(&attr);
        assert_eq!(value.len(), attr.value_len());
        assert_eq!(TaskStatsCmdAttrs::parse(attr.kind(), &value), Ok(attr));
    }
}

#[test]
fn parse_identifiers() {
    assert_eq!(
        TaskStatsCmdAttrs::parse(1, &0xdead_beefu32.to_ne_bytes()),
        Ok(TaskStatsCmdAttrs::Pid(0xdead_beef))
    );
    assert_eq!(TaskStatsCmdAttrs::parse(2, &42u32.to_ne_bytes()), Ok(TaskStatsCmdAttrs::TGid(42)));
}

#[test]
fn parse_strings() {
    assert_eq!(
        TaskStatsCmdAttrs::parse(3, b"0-3\0"),
        Ok(TaskStatsCmdAttrs::RegisterCPUMask("0-3".to_string()))
    );
    assert_eq!(
        TaskStatsCmdAttrs::parse(4, b"0-3,6\0"),
        Ok(TaskStatsCmdAttrs::DeRegisterCPUMask("0-3,6".to_string()))
    );
    // only the NUL at the end is taken off
    assert_eq!(
        TaskStatsCmdAttrs::parse(3, b"0\0\0"),
        Ok(TaskStatsCmdAttrs::RegisterCPUMask("0\0".to_string()))
    );
    assert_eq!(
        TaskStatsCmdAttrs::parse(3, b"\0"),
        Ok(TaskStatsCmdAttrs::RegisterCPUMask(String::new()))
    );
    assert_eq!(
        TaskStatsCmdAttrs::parse(4, "gr\u{f6}\u{df}e\0".as_bytes()),
        Ok(TaskStatsCmdAttrs::DeRegisterCPUMask("gr\u{f6}\u{df}e".to_string()))
    );
}

#[test]
fn string_without_its_terminator_is_refused() {
    assert_eq!(
        TaskStatsCmdAttrs::parse(3, b"0-3"),
        Err(invalid(3, TaskStatsError::MissingTerminator))
    );
    assert_eq!(
        TaskStatsCmdAttrs::parse(4, b"0-3"),
        Err(invalid(4, TaskStatsError::MissingTerminator))
    );
    // an empty value has no terminator either
    assert_eq!(
        TaskStatsCmdAttrs::parse(3, b""),
        Err(invalid(3, TaskStatsError::MissingTerminator))
    );
    // a NUL that is not the last byte does not end the string
    assert_eq!(
        TaskStatsCmdAttrs::parse(4, b"0\x003"),
        Err(invalid(4, TaskStatsError::MissingTerminator))
    );
    // the terminator is looked for before the bytes are read as UTF-8
    assert_eq!(
        TaskStatsCmdAttrs::parse(3, &[0xff, 0xfe]),
        Err(invalid(3, TaskStatsError::MissingTerminator))
    );
    let err = TaskStatsCmdAttrs::parse(3, b"0-3").unwrap_err();
    assert_eq!(err.message(), "invalid value of attribute 3: string without its terminating NUL");
}

#[test]
fn unknown_kind_is_refused_and_named() {
    let err = TaskStatsCmdAttrs::parse(255, &[0, 0, 0, 0]).unwrap_err();
    assert_eq!(err, TaskStatsError::UnknownKind(255));
    assert!(err.message().contains("255"));
    assert_eq!(err.message(), "Unknown NLA type: 255");
    assert_eq!(TaskStatsCmdAttrs::parse(0, &[]), Err(TaskStatsError::UnknownKind(0)));
    assert_eq!(TaskStatsCmdAttrs::parse(5, &[]), Err(TaskStatsError::UnknownKind(5)));
}

#[test]
fn identifier_of_wrong_length_is_refused() {
    assert_eq!(
        TaskStatsCmdAttrs::parse(1, &[1, 2, 3]),
        Err(invalid(1, TaskStatsError::InvalidLength { expected: 4, found: 3 }))
    );
    assert_eq!(
        TaskStatsCmdAttrs::parse(2, &[1, 2, 3, 4, 5]),
        Err(invalid(2, TaskStatsError::InvalidLength { expected: 4, found: 5 }))
    );
    assert_eq!(
        TaskStatsCmdAttrs::parse(1, &[]),
        Err(invalid(1, TaskStatsError::InvalidLength { expected: 4, found: 0 }))
    );
    let err = TaskStatsCmdAttrs::parse(1, &[1, 2, 3]).unwrap_err();
    assert_eq!(err.message(), "invalid value of attribute 1: invalid length: 3 bytes, expected 4");
}

#[test]
fn string_that_is_not_utf8_is_refused() {
    assert_eq!(
        TaskStatsCmdAttrs::parse(3, &[0xff, 0xfe, 0]),
        Err(invalid(3, TaskStatsError::InvalidUtf8))
    );
    // an encoding cut in the middle
    assert_eq!(
        TaskStatsCmdAttrs::parse(4, &[0xc3, 0]),
        Err(invalid(4, TaskStatsError::InvalidUtf8))
    );
    let err = TaskStatsCmdAttrs::parse(4, &[0xc3, 0]).unwrap_err();
    assert_eq!(err.message(), "invalid value of attribute 4: invalid string");
}

#[test]
fn attribute_on_the_wire() {
    let attr = TaskStatsCmdAttrs::Pid(1234);
    assert_eq!(attr.buffer_len(), 8);
    let mut buffer = [0xaa_u8; 10];
    attr.emit(&mut buffer);
    let mut expected = Vec::new();
    expected.extend_from_slice(&8u16.to_ne_bytes());
    expected.extend_from_slice(&1u16.to_ne_bytes());
    expected.extend_from_slice(&1234u32.to_ne_bytes());
    expected.extend_from_slice(&[0xaa, 0xaa]);
    assert_eq!(buffer.to_vec(), expected);
}

#[test]
fn string_attribute_is_padded_with_zeros() {
    let attr = TaskStatsCmdAttrs::RegisterCPUMask("0-3,6".to_string());
    // 4 of header, 6 of value, 2 of padding
    assert_eq!(attr.buffer_len(), 12);
    let mut buffer = [0xaa_u8; 13];
    attr.emit(&mut buffer);
    let mut expected = Vec::new();
    expected.extend_from_slice(&10u16.to_ne_bytes());
    expected.extend_from_slice(&3u16.to_ne_bytes());
    expected.extend_from_slice(b"0-3,6\0");
    expected.extend_from_slice(&[0, 0, 0xaa]);
    assert_eq!(buffer.to_vec(), expected);
}

#[test]
fn buffer_lengths_are_multiples_of_four() {
    for (text, len) in [("", 8), ("0", 8), ("0-3", 8), ("0-31", 12), ("0-3,6-7", 12)] {
        let attr = TaskStatsCmdAttrs::DeRegisterCPUMask(text.to_string());
        assert_eq!(attr.buffer_len(), len);
    }
}

#[test]
fn length_field_limits_the_string() {
    assert!(TaskStatsCmdAttrs::Pid(u32::MAX).encodable());
    assert!(TaskStatsCmdAttrs::RegisterCPUMask(String::new()).encodable());
    // header, string, NUL: 4 + 65530 + 1 is the largest length that two bytes hold
    assert!(TaskStatsCmdAttrs::RegisterCPUMask("0".repeat(65530)).encodable());
    assert!(!TaskStatsCmdAttrs::RegisterCPUMask("0".repeat(65531)).encodable());
    assert!(!TaskStatsCmdAttrs::DeRegisterCPUMask("0".repeat(70000)).encodable());
}

#[test]
fn longest_string_round_trips() {
    let attr = TaskStatsCmdAttrs::DeRegisterCPUMask("7".repeat(65530));
    assert_eq!(attr.value_len(), 65531);
    assert_eq!(attr.buffer_len(), 65536);
    let mut buffer = vec![0xaa; 65536];
    attr.emit(&mut buffer);
    assert_eq!(&buffer[..2], &65535u16.to_ne_bytes());
    assert_eq!(buffer[65534], 0);
    assert_eq!(buffer[65535], 0);
    assert_eq!(TaskStatsCmdAttrs::parse(4, &buffer[4..65535]), Ok(attr));
}
