use taskstats::{
    parse_taskstat_event_nlas, Stage, Statistics, TaskStatsError, TaskStatsEventAttrs,
};

fn record(kind: u16, value: &[u8]) -> Vec<u8> {
    let mut bytes = Vec::new();
    bytes.extend_from_slice(&((value.len() + 4) as u16).to_ne_bytes());
    bytes.extend_from_slice(&kind.to_ne_bytes());
    bytes.extend_from_slice(value);
    while bytes.len() % 4 != 0 {
        bytes.push(0);
    }
    bytes
}

fn stats_bytes(io_accounting: bool) -> Vec<u8> {
    let len = if io_accounting { 344 } else { 336 };
    let mut buf: Vec<u8> = (0..len).map(|i| (i % 251) as u8).collect();
    buf[128..132].copy_from_slice(&42u32.to_ne_bytes());
    buf
}

fn in_attributes(cause: TaskStatsError) -> TaskStatsError {
    TaskStatsError::Context { stage: Stage::Attributes, cause: Box::new(cause) }
}

fn in_value(kind: u16, cause: TaskStatsError) -> TaskStatsError {
    TaskStatsError::Context { stage: Stage::Value(kind), cause: Box::new(cause) }
}

#[test]
fn parse_markers() {
    assert_eq!(TaskStatsEventAttrs::parse(4, &[], false), Ok(TaskStatsEventAttrs::AggrPid));
    assert_eq!(TaskStatsEventAttrs::parse(5, &[], false), Ok(TaskStatsEventAttrs::AggrTid));
    assert_eq!(TaskStatsEventAttrs::parse(6, &[], true), Ok(TaskStatsEventAttrs::Null));
    // what a marker holds is not looked at
    assert_eq!(TaskStatsEventAttrs::parse(4, &[1, 2, 3], false), Ok(TaskStatsEventAttrs::AggrPid));
}

#[test]
fn parse_signed_identifiers() {
    assert_eq!(
        TaskStatsEventAttrs::parse(1, &42i32.to_ne_bytes(), false),
        Ok(TaskStatsEventAttrs::Pid(42))
    );
    assert_eq!(
        TaskStatsEventAttrs::parse(2, &(-1i32).to_ne_bytes(), false),
        Ok(TaskStatsEventAttrs::TGid(-1))
    );
    assert_eq!(
        TaskStatsEventAttrs::parse(1, &i32::MIN.to_ne_bytes(), false),
        Ok(TaskStatsEventAttrs::Pid(i32::MIN))
    );
    assert_eq!(
        TaskStatsEventAttrs::parse(2, &i32::MAX.to_ne_bytes(), true),
        Ok(TaskStatsEventAttrs::TGid(i32::MAX))
    );
}

#[test]
fn parse_stats() {
    let bytes = stats_bytes(false);
    let record = Statistics::parse(&bytes, false).unwrap();
    assert_eq!(record.ac_pid, 42);
    assert_eq!(
        TaskStatsEventAttrs::parse(3, &bytes, false),
        Ok(TaskStatsEventAttrs::Stats(record))
    );
    let bytes = stats_bytes(true);
    let record = Statistics::parse(&bytes, true).unwrap();
    assert!(record.read_bytes.is_some());
    assert_eq!(TaskStatsEventAttrs::parse(3, &bytes, true), Ok(TaskStatsEventAttrs::Stats(record)));
}

#[test]
fn event_errors() {
    assert_eq!(
        TaskStatsEventAttrs::parse(255, &[], false),
        Err(TaskStatsError::UnknownKind(255))
    );
    assert_eq!(TaskStatsEventAttrs::parse(0, &[], false), Err(TaskStatsError::UnknownKind(0)));
    assert_eq!(TaskStatsEventAttrs::parse(7, &[], false), Err(TaskStatsError::UnknownKind(7)));
    assert_eq!(
        TaskStatsEventAttrs::parse(1, &[0; 8], false),
        Err(in_value(1, TaskStatsError::InvalidLength { expected: 4, found: 8 }))
    );
    assert_eq!(
        TaskStatsEventAttrs::parse(3, &[0; 335], false),
        Err(in_value(3, TaskStatsError::BufferTooShort { needed: 336, found: 335 }))
    );
    assert_eq!(
        TaskStatsEventAttrs::parse(3, &[0; 336], true),
        Err(in_value(3, TaskStatsError::BufferTooShort { needed: 344, found: 336 }))
    );
    let err = TaskStatsEventAttrs::parse(3, &[0; 16], false).unwrap_err();
    assert_eq!(
        err.message(),
        "invalid value of attribute 3: buffer has length 16, but the record is 336 bytes"
    );
}

#[test]
fn aggregated_report() {
    let stats = stats_bytes(false);
    let mut buffer = record(4, &[]);
    buffer.extend(record(1, &42i32.to_ne_bytes()));
    buffer.extend(record(3, &stats));
    let fixture = Statistics::parse(&stats, false).unwrap();
    assert_eq!(
        parse_taskstat_event_nlas(&buffer, false),
        Ok(vec![
            TaskStatsEventAttrs::AggrPid,
            TaskStatsEventAttrs::Pid(42),
            TaskStatsEventAttrs::Stats(fixture),
        ])
    );
}

#[test]
fn aggregated_report_with_io_accounting() {
    let stats = stats_bytes(true);
    let mut buffer = record(5, &[]);
    buffer.extend(record(2, &7i32.to_ne_bytes()));
    buffer.extend(record(3, &stats));
    buffer.extend(record(6, &[]));
    let fixture = Statistics::parse(&stats, true).unwrap();
    assert_eq!(
        parse_taskstat_event_nlas(&buffer, true),
        Ok(vec![
            TaskStatsEventAttrs::AggrTid,
            TaskStatsEventAttrs::TGid(7),
            TaskStatsEventAttrs::Stats(fixture),
            TaskStatsEventAttrs::Null,
        ])
    );
}

#[test]
fn report_failures_name_the_stage() {
    let mut buffer = record(4, &[]);
    buffer.extend(record(255, &[]));
    let err = parse_taskstat_event_nlas(&buffer, false).unwrap_err();
    assert_eq!(err, in_attributes(TaskStatsError::UnknownKind(255)));
    assert!(err.message().contains("255"));

    let mut buffer = record(4, &[]);
    buffer.extend(record(3, &[0; 8]));
    assert_eq!(
        parse_taskstat_event_nlas(&buffer, false),
        Err(in_attributes(in_value(3, TaskStatsError::BufferTooShort { needed: 336, found: 8 })))
    );

    let buffer = record(1, &42i32.to_ne_bytes());
    assert_eq!(
        parse_taskstat_event_nlas(&buffer[..7], false),
        Err(in_attributes(TaskStatsError::MalformedNla))
    );
}

#[test]
fn command_and_report_kinds_are_kept_apart() {
    // what is a string in a command is a record in a report
    let value = b"0-3\0";
    assert!(taskstats::TaskStatsCmdAttrs::parse(3, value).is_ok());
    assert_eq!(
        TaskStatsEventAttrs::parse(3, value, false),
        Err(in_value(3, TaskStatsError::BufferTooShort { needed: 336, found: 4 }))
    );
    // the last two markers of a report stand for nothing in a command
    assert_eq!(taskstats::TaskStatsCmdAttrs::parse(5, &[]), Err(TaskStatsError::UnknownKind(5)));
    assert_eq!(taskstats::TaskStatsCmdAttrs::parse(6, &[]), Err(TaskStatsError::UnknownKind(6)));
}

#[test]
fn event_kinds_are_the_protocol_constants() {
    let record = Statistics::parse(&stats_bytes(false), false).unwrap();
    assert_eq!(TaskStatsEventAttrs::Pid(1).kind(), 1);
    assert_eq!(TaskStatsEventAttrs::TGid(1).kind(), 2);
    assert_eq!(TaskStatsEventAttrs::Stats(record).kind(), 3);
    assert_eq!(TaskStatsEventAttrs::AggrPid.kind(), 4);
    assert_eq!(TaskStatsEventAttrs::AggrTid.kind(), 5);
    assert_eq!(TaskStatsEventAttrs::Null.kind(), 6);
}

#[test]
fn event_value_lengths() {
    let without = Statistics::parse(&stats_bytes(false), false).unwrap();
    let with = Statistics::parse(&stats_bytes(true), true).unwrap();
    assert_eq!(TaskStatsEventAttrs::Pid(1).value_len(), 4);
    assert_eq!(TaskStatsEventAttrs::TGid(-1).value_len(), 4);
    assert_eq!(TaskStatsEventAttrs::Stats(without).value_len(), 336);
    assert_eq!(TaskStatsEventAttrs::Stats(with).value_len(), 344);
    assert_eq!(TaskStatsEventAttrs::AggrPid.value_len(), 0);
    assert_eq!(TaskStatsEventAttrs::AggrTid.value_len(), 0);
    assert_eq!(TaskStatsEventAttrs::Null.value_len(), 0);
    assert_eq!(TaskStatsEventAttrs::Null.buffer_len(), 4);
    assert_eq!(TaskStatsEventAttrs::Pid(1).buffer_len(), 8);
    assert_eq!(TaskStatsEventAttrs::Stats(without).buffer_len(), 340);
    assert_eq!(TaskStatsEventAttrs::Stats(with).buffer_len(), 348);
}

#[test]
fn signed_identifier_on_the_wire() {
    let mut buffer = [0xaa_u8; 6];
    TaskStatsEventAttrs::Pid(-2).emit_value(&mut buffer);
    assert_eq!(&buffer[..4], &(-2i32).to_ne_bytes());
    assert_eq!(&buffer[4..], &[0xaa; 2]);
    let mut buffer = [0xaa_u8; 2];
    TaskStatsEventAttrs::AggrPid.emit_value(&mut buffer);
    assert_eq!(buffer, [0xaa; 2]);
}

#[test]
fn every_event_variant_round_trips() {
    let without = Statistics::parse(&stats_bytes(false), false).unwrap();
    let with = Statistics::parse(&stats_bytes(true), true).unwrap();
    let attrs = [
        (TaskStatsEventAttrs::Pid(42), false),
        (TaskStatsEventAttrs::Pid(-42), true),
        (TaskStatsEventAttrs::TGid(i32::MIN), false),
        (TaskStatsEventAttrs::TGid(i32::MAX), false),
        (TaskStatsEventAttrs::Stats(without), false),
        (TaskStatsEventAttrs::Stats(with), true),
        (TaskStatsEventAttrs::AggrPid, false),
        (TaskStatsEventAttrs::AggrTid, true),
        (TaskStatsEventAttrs::Null, false),
    ];
    for (attr, io_accounting) in attrs {
        let mut value = vec![0xaa; attr.value_len()];
        attr.emit_value(&mut value);
        assert_eq!(TaskStatsEventAttrs::parse(attr.kind(), &value, io_accounting), Ok(attr));
    }
}

#[test]
fn written_report_is_read_back() {
    let fixture = Statistics::parse(&stats_bytes(true), true).unwrap();
    let attrs = vec![
        TaskStatsEventAttrs::AggrPid,
        TaskStatsEventAttrs::Pid(42),
        TaskStatsEventAttrs::Stats(fixture),
    ];
    let mut buffer = Vec::new();
    for attr in &attrs {
        let start = buffer.len();
        buffer.resize(start + attr.buffer_len(), 0xaa);
        attr.emit(&mut buffer[start..]);
    }
    assert_eq!(buffer.len(), 4 + 8 + 348);
    assert_eq!(&buffer[..4], &record(4, &[])[..]);
    assert_eq!(&buffer[4..12], &record(1, &42i32.to_ne_bytes())[..]);
    assert_eq!(parse_taskstat_event_nlas(&buffer, true), Ok(attrs));
}
