use taskstats::stats::{STATISTICS_LEN, STATISTICS_LEN_IO};
use taskstats::{Statistics, TaskStatsError};

fn put(buf: &mut [u8], offset: usize, bytes: &[u8]) {
    buf[offset..offset + bytes.len()].copy_from_slice(bytes);
}

/// A record in which every counter of eight bytes holds a value made from its
/// own offset, so that a field read from another place would show.
fn fixture(io_accounting: bool) -> Vec<u8> {
    let len = if io_accounting { 344 } else { 336 };
    let mut buf = vec![0xee_u8; len];
    put(&mut buf, 0, &9u16.to_ne_bytes());
    put(&mut buf, 4, &0x0a0b_0c0du32.to_ne_bytes());
    buf[8] = 0x11;
    buf[9] = 0x12;
    for offset in (16..80).step_by(8) {
        put(&mut buf, offset, &(0x1000_0000_0000_0000u64 + offset as u64).to_ne_bytes());
    }
    let mut comm = [0u8; 32];
    comm[..4].copy_from_slice(b"bash");
    comm[31] = 0x7f;
    put(&mut buf, 80, &comm);
    buf[112] = 3;
    put(&mut buf, 113, &[0x21, 0x22, 0x23]);
    put(&mut buf, 116, &0x3132_3334u32.to_ne_bytes());
    put(&mut buf, 120, &1000u32.to_ne_bytes());
    put(&mut buf, 124, &1001u32.to_ne_bytes());
    put(&mut buf, 128, &4242u32.to_ne_bytes());
    put(&mut buf, 132, &1u32.to_ne_bytes());
    put(&mut buf, 136, &1_700_000_000u32.to_ne_bytes());
    for offset in (144..len).step_by(8) {
        put(&mut buf, offset, &(0x2000_0000_0000_0000u64 + offset as u64).to_ne_bytes());
    }
    buf
}

fn head(offset: u64) -> u64 {
    0x1000_0000_0000_0000 + offset
}

fn tail(offset: u64) -> u64 {
    0x2000_0000_0000_0000 + offset
}

fn expected(io_accounting: bool) -> Statistics {
    let shift = if io_accounting { 8 } else { 0 };
    let mut ac_comm = [0u8; 32];
    ac_comm[..4].copy_from_slice(b"bash");
    ac_comm[31] = 0x7f;
    Statistics {
        version: 9,
        ac_exitcode: 0x0a0b_0c0d,
        ac_flag: 0x11,
        ac_nice: 0x12,
        cpu_count: head(16),
        cpu_delay_total: head(24),
        blkio_count: head(32),
        blkio_delay_total: head(40),
        swapin_count: head(48),
        swapin_delay_total: head(56),
        cpu_run_real_total: head(64),
        cpu_run_virtual_total: head(72),
        ac_comm,
        ac_sched: 3,
        ac_pad: [0x21, 0x22, 0x23],
        __bindgen_padding_0: 0x3132_3334,
        ac_uid: 1000,
        ac_gid: 1001,
        ac_pid: 4242,
        ac_ppid: 1,
        ac_btime: 1_700_000_000,
        ac_etime: tail(144),
        ac_utime: tail(152),
        ac_stime: tail(160),
        ac_minflt: tail(168),
        ac_majflt: tail(176),
        coremem: tail(184),
        virtmem: tail(192),
        hiwater_rss: tail(200),
        hiwater_vm: tail(208),
        read_char: tail(216),
        write_char: tail(224),
        read_syscalls: tail(232),
        write_syscalls: tail(240),
        read_bytes: if io_accounting { Some(tail(248)) } else { None },
        write_bytes: tail(248 + shift),
        cancelled_write_bytes: tail(256 + shift),
        nvcsw: tail(264 + shift),
        nivcsw: tail(272 + shift),
        ac_utimescaled: tail(280 + shift),
        ac_stimescaled: tail(288 + shift),
        cpu_scaled_run_real_total: tail(296 + shift),
        freepages_count: tail(304 + shift),
        freepages_delay_total: tail(312 + shift),
        thrashing_count: tail(320 + shift),
        thrashing_delay_total: tail(328 + shift),
    }
}

#[test]
fn record_lengths() {
    assert_eq!(STATISTICS_LEN, 336);
    assert_eq!(STATISTICS_LEN_IO, 344);
}

#[test]
fn every_field_is_read_at_its_offset() {
    assert_eq!(Statistics::parse(&fixture(false), false), Ok(expected(false)));
}

#[test]
fn every_field_is_read_at_its_offset_with_io_accounting() {
    assert_eq!(Statistics::parse(&fixture(true), true), Ok(expected(true)));
}

#[test]
fn io_accounting_moves_the_later_fields_by_eight_bytes() {
    let with = Statistics::parse(&fixture(true), true).unwrap();
    let without = Statistics::parse(&fixture(true), false).unwrap();
    assert_eq!(with.read_bytes, Some(tail(248)));
    assert_eq!(without.read_bytes, None);
    assert_eq!(with.write_bytes, tail(256));
    assert_eq!(without.write_bytes, tail(248));
    assert_eq!(with.thrashing_delay_total, tail(336));
    assert_eq!(without.thrashing_delay_total, tail(328));
    assert_eq!(with.write_syscalls, without.write_syscalls);
}

#[test]
fn padding_is_not_part_of_any_field() {
    let mut buf = fixture(false);
    let before = Statistics::parse(&buf, false).unwrap();
    for offset in [2, 3, 10, 11, 12, 13, 14, 15, 140, 141, 142, 143] {
        buf[offset] = !buf[offset];
    }
    assert_eq!(Statistics::parse(&buf, false), Ok(before));
}

#[test]
fn every_other_byte_is_part_of_a_field() {
    let buf = fixture(true);
    let before = Statistics::parse(&buf, true).unwrap();
    let padding = [2, 3, 10, 11, 12, 13, 14, 15, 140, 141, 142, 143];
    for offset in 0..buf.len() {
        if padding.contains(&offset) {
            continue;
        }
        let mut changed = buf.clone();
        changed[offset] = !changed[offset];
        assert_ne!(Statistics::parse(&changed, true), Ok(before), "offset {}", offset);
    }
}

#[test]
fn short_buffer_is_refused() {
    let buf = fixture(false);
    for len in [0, 1, 100, 335] {
        assert_eq!(
            Statistics::parse(&buf[..len], false),
            Err(TaskStatsError::BufferTooShort { needed: 336, found: len })
        );
    }
    let buf = fixture(true);
    for len in [0, 336, 343] {
        assert_eq!(
            Statistics::parse(&buf[..len], true),
            Err(TaskStatsError::BufferTooShort { needed: 344, found: len })
        );
    }
}

#[test]
fn short_buffer_message() {
    let err = Statistics::parse(&[0; 10], false).unwrap_err();
    assert_eq!(err.message(), "buffer has length 10, but the record is 336 bytes");
}

#[test]
fn bytes_after_the_record_are_not_looked_at() {
    let mut buf = fixture(false);
    buf.extend_from_slice(&[0xff; 40]);
    assert_eq!(Statistics::parse(&buf, false), Ok(expected(false)));
}

#[test]
fn command_name_is_taken_whole() {
    let mut buf = fixture(false);
    let name: Vec<u8> = (1..=32).collect();
    put(&mut buf, 80, &name);
    let record = Statistics::parse(&buf, false).unwrap();
    assert_eq!(record.ac_comm.to_vec(), name);
    assert_eq!(record.ac_sched, 3);
    assert_eq!(record.ac_pad, [0x21, 0x22, 0x23]);
}

#[test]
fn record_is_written_as_it_is_read() {
    for io_accounting in [false, true] {
        let record = expected(io_accounting);
        assert_eq!(record.buffer_len(), if io_accounting { 344 } else { 336 });
        let mut buffer = vec![0xaa; record.buffer_len()];
        record.emit(&mut buffer);
        assert_eq!(Statistics::parse(&buffer, io_accounting), Ok(record));
    }
}

#[test]
fn record_on_the_wire() {
    for io_accounting in [false, true] {
        let record = expected(io_accounting);
        let mut buffer = vec![0xaa; record.buffer_len() + 3];
        record.emit(&mut buffer);
        // what the alignment leaves between fields is written as zeros
        let mut wire = fixture(io_accounting);
        for offset in [2, 3, 10, 11, 12, 13, 14, 15, 140, 141, 142, 143] {
            wire[offset] = 0;
        }
        wire.extend_from_slice(&[0xaa; 3]);
        assert_eq!(buffer, wire);
    }
}
