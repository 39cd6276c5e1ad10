use taskstats::{
    parse_taskstat_nlas, GenlFamily, GenlHeader, Stage, TaskStatsCmd, TaskStatsCmdAttrs,
    TaskStatsCmds, TaskStatsError,
};

fn record(kind: u16, value: &[u8]) -> Vec<u8> {
    let mut bytes = Vec::new();
    bytes.extend_from_slice(&((value.len() + 4) as u16).to_ne_bytes());
    bytes.extend_from_slice(&kind.to_ne_bytes());
    bytes.extend_from_slice(value);
    while bytes.len() % 4 != 0 {
        bytes.push(0);
    }
    bytes
}

fn in_attributes(cause: TaskStatsError) -> TaskStatsError {
    TaskStatsError::Context { stage: Stage::Attributes, cause: Box::new(cause) }
}

fn in_value(kind: u16, cause: TaskStatsError) -> TaskStatsError {
    TaskStatsError::Context { stage: Stage::Value(kind), cause: Box::new(cause) }
}

#[test]
fn family_constants() {
    let payload = TaskStatsCmd { cmd: TaskStatsCmds::New, nlas: vec![], family_id: 23 };
    assert_eq!(TaskStatsCmd::family_name(), "taskstats");
    assert_eq!(payload.family_id(), 23);
    assert_eq!(payload.command(), 2);
    assert_eq!(payload.version(), 1);
    let payload = TaskStatsCmd { cmd: TaskStatsCmds::Get, nlas: vec![], family_id: 0 };
    assert_eq!(payload.command(), 1);
    assert_eq!(payload.family_id(), 0);
}

#[test]
fn get_pid_round_trip() {
    let payload = TaskStatsCmd {
        cmd: TaskStatsCmds::Get,
        nlas: vec![TaskStatsCmdAttrs::Pid(1234)],
        family_id: 0,
    };
    let mut buffer = vec![0; payload.buffer_len()];
    payload.emit(&mut buffer);
    let header = GenlHeader { cmd: payload.command(), version: payload.version() };
    let parsed = TaskStatsCmd::parse_with_param(&buffer, header).unwrap();
    assert_eq!(parsed.nlas, vec![TaskStatsCmdAttrs::Pid(1234)]);
    assert_eq!(parsed.cmd, TaskStatsCmds::Get);
    assert_eq!(parsed, payload);
}

#[test]
fn get_pid_on_the_wire() {
    let payload = TaskStatsCmd {
        cmd: TaskStatsCmds::Get,
        nlas: vec![TaskStatsCmdAttrs::Pid(1234)],
        family_id: 0,
    };
    assert_eq!(payload.buffer_len(), 8);
    let mut buffer = vec![0xaa; 8];
    payload.emit(&mut buffer);
    assert_eq!(buffer, record(1, &1234u32.to_ne_bytes()));
}

#[test]
fn parsed_family_id_is_zero_until_filled_in() {
    let payload = TaskStatsCmd {
        cmd: TaskStatsCmds::New,
        nlas: vec![TaskStatsCmdAttrs::TGid(7)],
        family_id: 99,
    };
    let mut buffer = vec![0; payload.buffer_len()];
    payload.emit(&mut buffer);
    let mut parsed =
        TaskStatsCmd::parse_with_param(&buffer, GenlHeader { cmd: 2, version: 1 }).unwrap();
    assert_eq!(parsed.family_id(), 0);
    assert_eq!(parsed.cmd, payload.cmd);
    assert_eq!(parsed.nlas, payload.nlas);
    parsed.family_id = 99;
    assert_eq!(parsed, payload);
}

#[test]
fn several_attributes_keep_their_order() {
    let nlas = vec![
        TaskStatsCmdAttrs::RegisterCPUMask("0-3".to_string()),
        TaskStatsCmdAttrs::Pid(1),
        TaskStatsCmdAttrs::DeRegisterCPUMask("0-3,6,8-11".to_string()),
        TaskStatsCmdAttrs::TGid(u32::MAX),
        TaskStatsCmdAttrs::Pid(1),
        TaskStatsCmdAttrs::RegisterCPUMask(String::new()),
    ];
    let payload = TaskStatsCmd { cmd: TaskStatsCmds::Get, nlas: nlas.clone(), family_id: 0 };
    // 8 + 8 + (4 + 11 + 1) + 8 + 8 + (4 + 1 + 3)
    assert_eq!(payload.buffer_len(), 56);
    let mut buffer = vec![0xaa; 60];
    payload.emit(&mut buffer);
    assert_eq!(&buffer[56..], &[0xaa; 4]);
    let mut expected = Vec::new();
    expected.extend(record(3, b"0-3\0"));
    expected.extend(record(1, &1u32.to_ne_bytes()));
    expected.extend(record(4, b"0-3,6,8-11\0"));
    expected.extend(record(2, &u32::MAX.to_ne_bytes()));
    expected.extend(record(1, &1u32.to_ne_bytes()));
    expected.extend(record(3, b"\0"));
    assert_eq!(&buffer[..56], &expected[..]);
    assert_eq!(parse_taskstat_nlas(&buffer[..56]), Ok(nlas));
}

#[test]
fn payload_without_attributes() {
    let payload = TaskStatsCmd { cmd: TaskStatsCmds::Get, nlas: vec![], family_id: 0 };
    assert_eq!(payload.buffer_len(), 0);
    let mut buffer = [0xaa_u8; 3];
    payload.emit(&mut buffer);
    assert_eq!(buffer, [0xaa; 3]);
    assert_eq!(
        TaskStatsCmd::parse_with_param(&[], GenlHeader { cmd: 1, version: 1 }),
        Ok(payload)
    );
}

#[test]
fn unknown_command_is_refused_before_the_attributes_are_read() {
    let broken = [1u8, 2, 3];
    assert_eq!(
        TaskStatsCmd::parse_with_param(&broken, GenlHeader { cmd: 3, version: 1 }),
        Err(TaskStatsError::UnknownCommand(3))
    );
    assert_eq!(
        TaskStatsCmd::parse_with_param(&[], GenlHeader { cmd: 0, version: 1 }),
        Err(TaskStatsError::UnknownCommand(0))
    );
}

#[test]
fn the_version_of_the_header_is_not_looked_at() {
    let buffer = record(1, &5u32.to_ne_bytes());
    for version in [0, 1, 2, 255] {
        let parsed = TaskStatsCmd::parse_with_param(&buffer, GenlHeader { cmd: 1, version });
        assert_eq!(parsed.unwrap().nlas, vec![TaskStatsCmdAttrs::Pid(5)]);
    }
}

#[test]
fn unknown_attribute_fails_the_payload() {
    let mut buffer = record(1, &5u32.to_ne_bytes());
    buffer.extend(record(255, &[]));
    let err =
        TaskStatsCmd::parse_with_param(&buffer, GenlHeader { cmd: 1, version: 1 }).unwrap_err();
    assert_eq!(err, in_attributes(TaskStatsError::UnknownKind(255)));
    assert!(err.message().contains("255"));
    assert_eq!(
        err.message(),
        "failed to parse control message attributes: Unknown NLA type: 255"
    );
}

#[test]
fn malformed_value_fails_the_payload() {
    let buffer = record(2, &[1, 2, 3]);
    let err = parse_taskstat_nlas(&buffer).unwrap_err();
    assert_eq!(
        err,
        in_attributes(in_value(2, TaskStatsError::InvalidLength { expected: 4, found: 3 }))
    );
    assert_eq!(
        err.message(),
        "failed to parse control message attributes: invalid value of attribute 2: invalid length: 3 bytes, expected 4"
    );
}

#[test]
fn cut_payload_is_refused() {
    let buffer = record(1, &5u32.to_ne_bytes());
    for cut in 1..8 {
        assert_eq!(
            parse_taskstat_nlas(&buffer[..cut]),
            Err(in_attributes(TaskStatsError::MalformedNla))
        );
    }
    let err = parse_taskstat_nlas(&buffer[..5]).unwrap_err();
    assert_eq!(err.message(), "failed to parse control message attributes: invalid NLA buffer");
}

#[test]
fn the_first_failure_in_wire_order_is_reported() {
    // an unknown kind before a cut record
    let mut buffer = record(9, &[]);
    buffer.extend_from_slice(&record(1, &5u32.to_ne_bytes())[..6]);
    assert_eq!(
        parse_taskstat_nlas(&buffer),
        Err(in_attributes(TaskStatsError::UnknownKind(9)))
    );
    // a cut record before anything else
    let mut buffer = record(1, &5u32.to_ne_bytes());
    buffer.extend_from_slice(&[1, 0]);
    assert_eq!(parse_taskstat_nlas(&buffer), Err(in_attributes(TaskStatsError::MalformedNla)));
}

#[test]
fn payload_is_encodable_where_every_attribute_is() {
    let mut payload = TaskStatsCmd {
        cmd: TaskStatsCmds::Get,
        nlas: vec![TaskStatsCmdAttrs::Pid(1), TaskStatsCmdAttrs::RegisterCPUMask("0".to_string())],
        family_id: 0,
    };
    assert!(payload.encodable());
    payload.nlas.push(TaskStatsCmdAttrs::DeRegisterCPUMask("0".repeat(65531)));
    assert!(!payload.encodable());
    payload.nlas.push(TaskStatsCmdAttrs::Pid(2));
    assert!(!payload.encodable());
    assert!(TaskStatsCmd { cmd: TaskStatsCmds::New, nlas: vec![], family_id: 0 }.encodable());
}

#[test]
fn string_without_its_terminator_fails_the_payload() {
    let buffer = record(3, b"0-3");
    assert_eq!(
        parse_taskstat_nlas(&buffer),
        Err(in_attributes(in_value(3, TaskStatsError::MissingTerminator)))
    );
    let err = TaskStatsCmd::parse_with_param(&buffer, GenlHeader { cmd: 1, version: 1 })
        .unwrap_err();
    assert_eq!(
        err.message(),
        "failed to parse control message attributes: invalid value of attribute 3: string without its terminating NUL"
    );
    let buffer = record(4, b"");
    assert_eq!(
        parse_taskstat_nlas(&buffer),
        Err(in_attributes(in_value(4, TaskStatsError::MissingTerminator)))
    );
}
