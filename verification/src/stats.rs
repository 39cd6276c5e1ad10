//! The accounting record that the kernel reports for a task: a structure of fixed
//! layout, read and written field by field at the offsets that the kernel's C
//! declaration gives them.

use crate::cursor::{
    lemma_field_after_prefix, put_bytes, put_u16, put_u32, put_u64, put_u8, put_zeros, Cursor,
};
use crate::error::TaskStatsError;
use crate::native::{
    lemma_native_bytes_len, lemma_native_round_trip, lemma_radix_values, native_at, native_bytes,
    zeros,
};
use vstd::prelude::*;

verus! {

/// Offset of the first field that follows the optional counter of bytes read
/// from storage, in a record that does not hold that counter.
pub const TAIL_OFFSET: usize = 248;

/// Length of a record without the counter of bytes read from storage.
pub const STATISTICS_LEN: usize = 336;

/// Length of a record with the counter of bytes read from storage.
pub const STATISTICS_LEN_IO: usize = 344;

/// Resource usage of one task, as the kernel accounts for it.
#[derive(Clone, Copy, Debug, PartialEq, Eq)]
pub struct Statistics {
    /// Version of the record's format.
    pub version: u16,
    /// Exit status.
    pub ac_exitcode: u32,
    /// Record flags.
    pub ac_flag: u8,
    /// Nice value.
    pub ac_nice: u8,
    /// Number of delays waiting for a CPU.
    pub cpu_count: u64,
    /// Time spent waiting for a CPU.
    pub cpu_delay_total: u64,
    /// Number of delays waiting for block I/O.
    pub blkio_count: u64,
    /// Time spent waiting for block I/O.
    pub blkio_delay_total: u64,
    /// Number of delays waiting for a page to be swapped in.
    pub swapin_count: u64,
    /// Time spent waiting for pages to be swapped in.
    pub swapin_delay_total: u64,
    /// Time on a CPU, by the wall clock.
    pub cpu_run_real_total: u64,
    /// Time on a CPU, as the scheduler counts it.
    pub cpu_run_virtual_total: u64,
    /// Command name.
    pub ac_comm: [u8; 32],
    /// Scheduling discipline.
    pub ac_sched: u8,
    /// Padding that the record declares.
    pub ac_pad: [u8; 3],
    /// Padding that aligns the identifiers.
    pub __bindgen_padding_0: u32,
    /// User identifier.
    pub ac_uid: u32,
    /// Group identifier.
    pub ac_gid: u32,
    /// Process identifier.
    pub ac_pid: u32,
    /// Identifier of the parent process.
    pub ac_ppid: u32,
    /// Begin time, in seconds since the epoch.
    pub ac_btime: u32,
    /// Elapsed time.
    pub ac_etime: u64,
    /// Time in user mode.
    pub ac_utime: u64,
    /// Time in kernel mode.
    pub ac_stime: u64,
    /// Minor page faults.
    pub ac_minflt: u64,
    /// Major page faults.
    pub ac_majflt: u64,
    /// Accumulated resident memory usage.
    pub coremem: u64,
    /// Accumulated virtual memory usage.
    pub virtmem: u64,
    /// High-water mark of resident memory.
    pub hiwater_rss: u64,
    /// High-water mark of virtual memory.
    pub hiwater_vm: u64,
    /// Bytes read.
    pub read_char: u64,
    /// Bytes written.
    pub write_char: u64,
    /// Read system calls.
    pub read_syscalls: u64,
    /// Write system calls.
    pub write_syscalls: u64,
    /// Bytes read from storage; present where the record was laid out with I/O
    /// accounting.
    pub read_bytes: Option<u64>,
    /// Bytes written to storage.
    pub write_bytes: u64,
    /// Bytes whose write to storage was cancelled.
    pub cancelled_write_bytes: u64,
    /// Voluntary context switches.
    pub nvcsw: u64,
    /// Involuntary context switches.
    pub nivcsw: u64,
    /// Time in user mode, scaled by CPU frequency.
    pub ac_utimescaled: u64,
    /// Time in kernel mode, scaled by CPU frequency.
    pub ac_stimescaled: u64,
    /// Time on a CPU, scaled by CPU frequency.
    pub cpu_scaled_run_real_total: u64,
    /// Number of delays waiting for memory reclaim.
    pub freepages_count: u64,
    /// Time spent waiting for memory reclaim.
    pub freepages_delay_total: u64,
    /// Number of delays waiting for thrashing pages.
    pub thrashing_count: u64,
    /// Time spent waiting for thrashing pages.
    pub thrashing_delay_total: u64,
}

/// A record as contracts see it: the byte arrays as sequences, every other field
/// as it is.
pub ghost struct StatisticsView {
    pub version: u16,
    pub ac_exitcode: u32,
    pub ac_flag: u8,
    pub ac_nice: u8,
    pub cpu_count: u64,
    pub cpu_delay_total: u64,
    pub blkio_count: u64,
    pub blkio_delay_total: u64,
    pub swapin_count: u64,
    pub swapin_delay_total: u64,
    pub cpu_run_real_total: u64,
    pub cpu_run_virtual_total: u64,
    pub ac_comm: Seq<u8>,
    pub ac_sched: u8,
    pub ac_pad: Seq<u8>,
    pub __bindgen_padding_0: u32,
    pub ac_uid: u32,
    pub ac_gid: u32,
    pub ac_pid: u32,
    pub ac_ppid: u32,
    pub ac_btime: u32,
    pub ac_etime: u64,
    pub ac_utime: u64,
    pub ac_stime: u64,
    pub ac_minflt: u64,
    pub ac_majflt: u64,
    pub coremem: u64,
    pub virtmem: u64,
    pub hiwater_rss: u64,
    pub hiwater_vm: u64,
    pub read_char: u64,
    pub write_char: u64,
    pub read_syscalls: u64,
    pub write_syscalls: u64,
    pub read_bytes: Option<u64>,
    pub write_bytes: u64,
    pub cancelled_write_bytes: u64,
    pub nvcsw: u64,
    pub nivcsw: u64,
    pub ac_utimescaled: u64,
    pub ac_stimescaled: u64,
    pub cpu_scaled_run_real_total: u64,
    pub freepages_count: u64,
    pub freepages_delay_total: u64,
    pub thrashing_count: u64,
    pub thrashing_delay_total: u64,
}

impl View for Statistics {
    type V = StatisticsView;

    open spec fn view(&self) -> StatisticsView {
        StatisticsView {
            version: self.version,
            ac_exitcode: self.ac_exitcode,
            ac_flag: self.ac_flag,
            ac_nice: self.ac_nice,
            cpu_count: self.cpu_count,
            cpu_delay_total: self.cpu_delay_total,
            blkio_count: self.blkio_count,
            blkio_delay_total: self.blkio_delay_total,
            swapin_count: self.swapin_count,
            swapin_delay_total: self.swapin_delay_total,
            cpu_run_real_total: self.cpu_run_real_total,
            cpu_run_virtual_total: self.cpu_run_virtual_total,
            ac_comm: self.ac_comm@,
            ac_sched: self.ac_sched,
            ac_pad: self.ac_pad@,
            __bindgen_padding_0: self.__bindgen_padding_0,
            ac_uid: self.ac_uid,
            ac_gid: self.ac_gid,
            ac_pid: self.ac_pid,
            ac_ppid: self.ac_ppid,
            ac_btime: self.ac_btime,
            ac_etime: self.ac_etime,
            ac_utime: self.ac_utime,
            ac_stime: self.ac_stime,
            ac_minflt: self.ac_minflt,
            ac_majflt: self.ac_majflt,
            coremem: self.coremem,
            virtmem: self.virtmem,
            hiwater_rss: self.hiwater_rss,
            hiwater_vm: self.hiwater_vm,
            read_char: self.read_char,
            write_char: self.write_char,
            read_syscalls: self.read_syscalls,
            write_syscalls: self.write_syscalls,
            read_bytes: self.read_bytes,
            write_bytes: self.write_bytes,
            cancelled_write_bytes: self.cancelled_write_bytes,
            nvcsw: self.nvcsw,
            nivcsw: self.nivcsw,
            ac_utimescaled: self.ac_utimescaled,
            ac_stimescaled: self.ac_stimescaled,
            cpu_scaled_run_real_total: self.cpu_scaled_run_real_total,
            freepages_count: self.freepages_count,
            freepages_delay_total: self.freepages_delay_total,
            thrashing_count: self.thrashing_count,
            thrashing_delay_total: self.thrashing_delay_total,
        }
    }
}

/// The length of a record: with I/O accounting it holds one counter of eight
/// bytes more.
pub open spec fn record_len(io_accounting: bool) -> nat {
    if io_accounting {
        STATISTICS_LEN_IO as nat
    } else {
        STATISTICS_LEN as nat
    }
}

/// The byte at `offset`.
pub open spec fn u8_at(bytes: Seq<u8>, offset: int) -> u8 {
    bytes[offset]
}

/// The two bytes at `offset` as an integer in the byte order of the machine.
pub open spec fn u16_at(bytes: Seq<u8>, offset: int) -> u16 {
    native_at(bytes, offset, 2) as u16
}

/// The four bytes at `offset` as an integer in the byte order of the machine.
pub open spec fn u32_at(bytes: Seq<u8>, offset: int) -> u32 {
    native_at(bytes, offset, 4) as u32
}

/// The eight bytes at `offset` as an integer in the byte order of the machine.
pub open spec fn u64_at(bytes: Seq<u8>, offset: int) -> u64 {
    native_at(bytes, offset, 8) as u64
}

/// The record that the first `record_len(io_accounting)` bytes of `bytes` hold.
///
/// The offsets are those that a C compiler gives the fields of the kernel's
/// declaration: every integer lies at a multiple of its own size, and the
/// identifiers start at a multiple of eight, which the four bytes of declared
/// padding before them bring about. The bytes that this leaves between fields (2
/// to 4, 10 to 16 and 140 to 144) belong to no field. With I/O accounting the
/// counter of bytes read from storage lies at 248 and every later field eight
/// bytes further on.
pub open spec fn record_at(bytes: Seq<u8>, io_accounting: bool) -> StatisticsView {
    let shift: int = if io_accounting {
        8
    } else {
        0
    };
    StatisticsView {
        version: u16_at(bytes, 0),
        ac_exitcode: u32_at(bytes, 4),
        ac_flag: u8_at(bytes, 8),
        ac_nice: u8_at(bytes, 9),
        cpu_count: u64_at(bytes, 16),
        cpu_delay_total: u64_at(bytes, 24),
        blkio_count: u64_at(bytes, 32),
        blkio_delay_total: u64_at(bytes, 40),
        swapin_count: u64_at(bytes, 48),
        swapin_delay_total: u64_at(bytes, 56),
        cpu_run_real_total: u64_at(bytes, 64),
        cpu_run_virtual_total: u64_at(bytes, 72),
        ac_comm: bytes.subrange(80, 112),
        ac_sched: u8_at(bytes, 112),
        ac_pad: bytes.subrange(113, 116),
        __bindgen_padding_0: u32_at(bytes, 116),
        ac_uid: u32_at(bytes, 120),
        ac_gid: u32_at(bytes, 124),
        ac_pid: u32_at(bytes, 128),
        ac_ppid: u32_at(bytes, 132),
        ac_btime: u32_at(bytes, 136),
        ac_etime: u64_at(bytes, 144),
        ac_utime: u64_at(bytes, 152),
        ac_stime: u64_at(bytes, 160),
        ac_minflt: u64_at(bytes, 168),
        ac_majflt: u64_at(bytes, 176),
        coremem: u64_at(bytes, 184),
        virtmem: u64_at(bytes, 192),
        hiwater_rss: u64_at(bytes, 200),
        hiwater_vm: u64_at(bytes, 208),
        read_char: u64_at(bytes, 216),
        write_char: u64_at(bytes, 224),
        read_syscalls: u64_at(bytes, 232),
        write_syscalls: u64_at(bytes, 240),
        read_bytes: if io_accounting {
            Some(u64_at(bytes, TAIL_OFFSET as int))
        } else {
            None
        },
        write_bytes: u64_at(bytes, 248 + shift),
        cancelled_write_bytes: u64_at(bytes, 256 + shift),
        nvcsw: u64_at(bytes, 264 + shift),
        nivcsw: u64_at(bytes, 272 + shift),
        ac_utimescaled: u64_at(bytes, 280 + shift),
        ac_stimescaled: u64_at(bytes, 288 + shift),
        cpu_scaled_run_real_total: u64_at(bytes, 296 + shift),
        freepages_count: u64_at(bytes, 304 + shift),
        freepages_delay_total: u64_at(bytes, 312 + shift),
        thrashing_count: u64_at(bytes, 320 + shift),
        thrashing_delay_total: u64_at(bytes, 328 + shift),
    }
}

/// The record that `bytes` start with, or the failure to find a whole one there:
/// fewer bytes than a record has hold none, and those after a record do not
/// count.
pub open spec fn parse_record(bytes: Seq<u8>, io_accounting: bool) -> Result<
    StatisticsView,
    TaskStatsError,
> {
    if bytes.len() >= record_len(io_accounting) {
        Ok(record_at(bytes, io_accounting))
    } else {
        Err(
            TaskStatsError::BufferTooShort {
                needed: record_len(io_accounting) as usize,
                found: bytes.len() as usize,
            },
        )
    }
}

impl StatisticsView {
    /// Whether the byte arrays have the lengths that the record gives them.
    pub open spec fn wf(self) -> bool {
        &&& self.ac_comm.len() == 32
        &&& self.ac_pad.len() == 3
    }

    /// Whether the record is laid out with I/O accounting: it is where it holds
    /// the counter of bytes read from storage.
    pub open spec fn io_accounting(self) -> bool {
        self.read_bytes is Some
    }

    /// The fields up to the optional counter on the wire, with zeros where the
    /// alignment leaves room between them.
    pub open spec fn head_bytes(self) -> Seq<u8> {
        Seq::<u8>::empty()
            + native_bytes(self.version as nat, 2)
            + zeros(2)
            + native_bytes(self.ac_exitcode as nat, 4)
            + seq![self.ac_flag]
            + seq![self.ac_nice]
            + zeros(6)
            + native_bytes(self.cpu_count as nat, 8)
            + native_bytes(self.cpu_delay_total as nat, 8)
            + native_bytes(self.blkio_count as nat, 8)
            + native_bytes(self.blkio_delay_total as nat, 8)
            + native_bytes(self.swapin_count as nat, 8)
            + native_bytes(self.swapin_delay_total as nat, 8)
            + native_bytes(self.cpu_run_real_total as nat, 8)
            + native_bytes(self.cpu_run_virtual_total as nat, 8)
            + self.ac_comm
            + seq![self.ac_sched]
            + self.ac_pad
            + native_bytes(self.__bindgen_padding_0 as nat, 4)
            + native_bytes(self.ac_uid as nat, 4)
            + native_bytes(self.ac_gid as nat, 4)
            + native_bytes(self.ac_pid as nat, 4)
            + native_bytes(self.ac_ppid as nat, 4)
            + native_bytes(self.ac_btime as nat, 4)
            + zeros(4)
            + native_bytes(self.ac_etime as nat, 8)
            + native_bytes(self.ac_utime as nat, 8)
            + native_bytes(self.ac_stime as nat, 8)
            + native_bytes(self.ac_minflt as nat, 8)
            + native_bytes(self.ac_majflt as nat, 8)
            + native_bytes(self.coremem as nat, 8)
            + native_bytes(self.virtmem as nat, 8)
            + native_bytes(self.hiwater_rss as nat, 8)
            + native_bytes(self.hiwater_vm as nat, 8)
            + native_bytes(self.read_char as nat, 8)
            + native_bytes(self.write_char as nat, 8)
            + native_bytes(self.read_syscalls as nat, 8)
            + native_bytes(self.write_syscalls as nat, 8)
    }

    /// The fields up to and with the optional counter on the wire.
    pub open spec fn counter_bytes(self) -> Seq<u8> {
        match self.read_bytes {
            Some(read_bytes) => self.head_bytes() + native_bytes(read_bytes as nat, 8),
            None => self.head_bytes(),
        }
    }

    /// The record on the wire: every field at its offset, in the byte order of
    /// the machine.
    pub open spec fn bytes(self) -> Seq<u8> {
        self.counter_bytes()
            + native_bytes(self.write_bytes as nat, 8)
            + native_bytes(self.cancelled_write_bytes as nat, 8)
            + native_bytes(self.nvcsw as nat, 8)
            + native_bytes(self.nivcsw as nat, 8)
            + native_bytes(self.ac_utimescaled as nat, 8)
            + native_bytes(self.ac_stimescaled as nat, 8)
            + native_bytes(self.cpu_scaled_run_real_total as nat, 8)
            + native_bytes(self.freepages_count as nat, 8)
            + native_bytes(self.freepages_delay_total as nat, 8)
            + native_bytes(self.thrashing_count as nat, 8)
            + native_bytes(self.thrashing_delay_total as nat, 8)
    }

    /// The fields up to the optional counter take 248 bytes.
    pub proof fn lemma_head_len(self)
        requires
            self.wf(),
        ensures
            self.head_bytes().len() == TAIL_OFFSET,
    {
        lemma_native_bytes_len(self.version as nat, 2);
        lemma_native_bytes_len(self.ac_exitcode as nat, 4);
        lemma_native_bytes_len(self.cpu_count as nat, 8);
        lemma_native_bytes_len(self.cpu_delay_total as nat, 8);
        lemma_native_bytes_len(self.blkio_count as nat, 8);
        lemma_native_bytes_len(self.blkio_delay_total as nat, 8);
        lemma_native_bytes_len(self.swapin_count as nat, 8);
        lemma_native_bytes_len(self.swapin_delay_total as nat, 8);
        lemma_native_bytes_len(self.cpu_run_real_total as nat, 8);
        lemma_native_bytes_len(self.cpu_run_virtual_total as nat, 8);
        lemma_native_bytes_len(self.__bindgen_padding_0 as nat, 4);
        lemma_native_bytes_len(self.ac_uid as nat, 4);
        lemma_native_bytes_len(self.ac_gid as nat, 4);
        lemma_native_bytes_len(self.ac_pid as nat, 4);
        lemma_native_bytes_len(self.ac_ppid as nat, 4);
        lemma_native_bytes_len(self.ac_btime as nat, 4);
        lemma_native_bytes_len(self.ac_etime as nat, 8);
        lemma_native_bytes_len(self.ac_utime as nat, 8);
        lemma_native_bytes_len(self.ac_stime as nat, 8);
        lemma_native_bytes_len(self.ac_minflt as nat, 8);
        lemma_native_bytes_len(self.ac_majflt as nat, 8);
        lemma_native_bytes_len(self.coremem as nat, 8);
        lemma_native_bytes_len(self.virtmem as nat, 8);
        lemma_native_bytes_len(self.hiwater_rss as nat, 8);
        lemma_native_bytes_len(self.hiwater_vm as nat, 8);
        lemma_native_bytes_len(self.read_char as nat, 8);
        lemma_native_bytes_len(self.write_char as nat, 8);
        lemma_native_bytes_len(self.read_syscalls as nat, 8);
        lemma_native_bytes_len(self.write_syscalls as nat, 8);
    }

    /// The record is written as `record_len` bytes.
    pub proof fn lemma_bytes_len(self)
        requires
            self.wf(),
        ensures
            self.counter_bytes().len() == TAIL_OFFSET + (if self.io_accounting() {
                8int
            } else {
                0int
            }),
            self.bytes().len() == record_len(self.io_accounting()),
    {
        self.lemma_head_len();
        if let Some(read_bytes) = self.read_bytes {
            lemma_native_bytes_len(read_bytes as nat, 8);
        }
        lemma_native_bytes_len(self.write_bytes as nat, 8);
        lemma_native_bytes_len(self.cancelled_write_bytes as nat, 8);
        lemma_native_bytes_len(self.nvcsw as nat, 8);
        lemma_native_bytes_len(self.nivcsw as nat, 8);
        lemma_native_bytes_len(self.ac_utimescaled as nat, 8);
        lemma_native_bytes_len(self.ac_stimescaled as nat, 8);
        lemma_native_bytes_len(self.cpu_scaled_run_real_total as nat, 8);
        lemma_native_bytes_len(self.freepages_count as nat, 8);
        lemma_native_bytes_len(self.freepages_delay_total as nat, 8);
        lemma_native_bytes_len(self.thrashing_count as nat, 8);
        lemma_native_bytes_len(self.thrashing_delay_total as nat, 8);
    }

    /// In anything that starts with the fields up to the optional counter, each
    /// of those fields reads as itself at its offset.
    pub proof fn lemma_head_read_back(self, bytes: Seq<u8>)
        requires
            self.wf(),
            bytes.len() >= TAIL_OFFSET,
            bytes.take(TAIL_OFFSET as int) == self.head_bytes(),
        ensures
            u16_at(bytes, 0) == self.version,
            u32_at(bytes, 4) == self.ac_exitcode,
            u8_at(bytes, 8) == self.ac_flag,
            u8_at(bytes, 9) == self.ac_nice,
            u64_at(bytes, 16) == self.cpu_count,
            u64_at(bytes, 24) == self.cpu_delay_total,
            u64_at(bytes, 32) == self.blkio_count,
            u64_at(bytes, 40) == self.blkio_delay_total,
            u64_at(bytes, 48) == self.swapin_count,
            u64_at(bytes, 56) == self.swapin_delay_total,
            u64_at(bytes, 64) == self.cpu_run_real_total,
            u64_at(bytes, 72) == self.cpu_run_virtual_total,
            bytes.subrange(80, 112) == self.ac_comm,
            u8_at(bytes, 112) == self.ac_sched,
            bytes.subrange(113, 116) == self.ac_pad,
            u32_at(bytes, 116) == self.__bindgen_padding_0,
            u32_at(bytes, 120) == self.ac_uid,
            u32_at(bytes, 124) == self.ac_gid,
            u32_at(bytes, 128) == self.ac_pid,
            u32_at(bytes, 132) == self.ac_ppid,
            u32_at(bytes, 136) == self.ac_btime,
            u64_at(bytes, 144) == self.ac_etime,
            u64_at(bytes, 152) == self.ac_utime,
            u64_at(bytes, 160) == self.ac_stime,
            u64_at(bytes, 168) == self.ac_minflt,
            u64_at(bytes, 176) == self.ac_majflt,
            u64_at(bytes, 184) == self.coremem,
            u64_at(bytes, 192) == self.virtmem,
            u64_at(bytes, 200) == self.hiwater_rss,
            u64_at(bytes, 208) == self.hiwater_vm,
            u64_at(bytes, 216) == self.read_char,
            u64_at(bytes, 224) == self.write_char,
            u64_at(bytes, 232) == self.read_syscalls,
            u64_at(bytes, 240) == self.write_syscalls,
    {
        lemma_radix_values();
        let p0 = Seq::<u8>::empty();
        let p1 = p0 + native_bytes(self.version as nat, 2);
        lemma_native_round_trip(self.version as nat, 2);
        let p2 = p1 + zeros(2);
        let p3 = p2 + native_bytes(self.ac_exitcode as nat, 4);
        lemma_native_round_trip(self.ac_exitcode as nat, 4);
        let p4 = p3 + seq![self.ac_flag];
        let p5 = p4 + seq![self.ac_nice];
        let p6 = p5 + zeros(6);
        let p7 = p6 + native_bytes(self.cpu_count as nat, 8);
        lemma_native_round_trip(self.cpu_count as nat, 8);
        let p8 = p7 + native_bytes(self.cpu_delay_total as nat, 8);
        lemma_native_round_trip(self.cpu_delay_total as nat, 8);
        let p9 = p8 + native_bytes(self.blkio_count as nat, 8);
        lemma_native_round_trip(self.blkio_count as nat, 8);
        let p10 = p9 + native_bytes(self.blkio_delay_total as nat, 8);
        lemma_native_round_trip(self.blkio_delay_total as nat, 8);
        let p11 = p10 + native_bytes(self.swapin_count as nat, 8);
        lemma_native_round_trip(self.swapin_count as nat, 8);
        let p12 = p11 + native_bytes(self.swapin_delay_total as nat, 8);
        lemma_native_round_trip(self.swapin_delay_total as nat, 8);
        let p13 = p12 + native_bytes(self.cpu_run_real_total as nat, 8);
        lemma_native_round_trip(self.cpu_run_real_total as nat, 8);
        let p14 = p13 + native_bytes(self.cpu_run_virtual_total as nat, 8);
        lemma_native_round_trip(self.cpu_run_virtual_total as nat, 8);
        let p15 = p14 + self.ac_comm;
        let p16 = p15 + seq![self.ac_sched];
        let p17 = p16 + self.ac_pad;
        let p18 = p17 + native_bytes(self.__bindgen_padding_0 as nat, 4);
        lemma_native_round_trip(self.__bindgen_padding_0 as nat, 4);
        let p19 = p18 + native_bytes(self.ac_uid as nat, 4);
        lemma_native_round_trip(self.ac_uid as nat, 4);
        let p20 = p19 + native_bytes(self.ac_gid as nat, 4);
        lemma_native_round_trip(self.ac_gid as nat, 4);
        let p21 = p20 + native_bytes(self.ac_pid as nat, 4);
        lemma_native_round_trip(self.ac_pid as nat, 4);
        let p22 = p21 + native_bytes(self.ac_ppid as nat, 4);
        lemma_native_round_trip(self.ac_ppid as nat, 4);
        let p23 = p22 + native_bytes(self.ac_btime as nat, 4);
        lemma_native_round_trip(self.ac_btime as nat, 4);
        let p24 = p23 + zeros(4);
        let p25 = p24 + native_bytes(self.ac_etime as nat, 8);
        lemma_native_round_trip(self.ac_etime as nat, 8);
        let p26 = p25 + native_bytes(self.ac_utime as nat, 8);
        lemma_native_round_trip(self.ac_utime as nat, 8);
        let p27 = p26 + native_bytes(self.ac_stime as nat, 8);
        lemma_native_round_trip(self.ac_stime as nat, 8);
        let p28 = p27 + native_bytes(self.ac_minflt as nat, 8);
        lemma_native_round_trip(self.ac_minflt as nat, 8);
        let p29 = p28 + native_bytes(self.ac_majflt as nat, 8);
        lemma_native_round_trip(self.ac_majflt as nat, 8);
        let p30 = p29 + native_bytes(self.coremem as nat, 8);
        lemma_native_round_trip(self.coremem as nat, 8);
        let p31 = p30 + native_bytes(self.virtmem as nat, 8);
        lemma_native_round_trip(self.virtmem as nat, 8);
        let p32 = p31 + native_bytes(self.hiwater_rss as nat, 8);
        lemma_native_round_trip(self.hiwater_rss as nat, 8);
        let p33 = p32 + native_bytes(self.hiwater_vm as nat, 8);
        lemma_native_round_trip(self.hiwater_vm as nat, 8);
        let p34 = p33 + native_bytes(self.read_char as nat, 8);
        lemma_native_round_trip(self.read_char as nat, 8);
        let p35 = p34 + native_bytes(self.write_char as nat, 8);
        lemma_native_round_trip(self.write_char as nat, 8);
        let p36 = p35 + native_bytes(self.read_syscalls as nat, 8);
        lemma_native_round_trip(self.read_syscalls as nat, 8);
        let p37 = p36 + native_bytes(self.write_syscalls as nat, 8);
        lemma_native_round_trip(self.write_syscalls as nat, 8);
        assert(p1.len() == 2);
        assert(p2.len() == 4);
        assert(p3.len() == 8);
        assert(p4.len() == 9);
        assert(p5.len() == 10);
        assert(p6.len() == 16);
        assert(p7.len() == 24);
        assert(p8.len() == 32);
        assert(p9.len() == 40);
        assert(p10.len() == 48);
        assert(p11.len() == 56);
        assert(p12.len() == 64);
        assert(p13.len() == 72);
        assert(p14.len() == 80);
        assert(p15.len() == 112);
        assert(p16.len() == 113);
        assert(p17.len() == 116);
        assert(p18.len() == 120);
        assert(p19.len() == 124);
        assert(p20.len() == 128);
        assert(p21.len() == 132);
        assert(p22.len() == 136);
        assert(p23.len() == 140);
        assert(p24.len() == 144);
        assert(p25.len() == 152);
        assert(p26.len() == 160);
        assert(p27.len() == 168);
        assert(p28.len() == 176);
        assert(p29.len() == 184);
        assert(p30.len() == 192);
        assert(p31.len() == 200);
        assert(p32.len() == 208);
        assert(p33.len() == 216);
        assert(p34.len() == 224);
        assert(p35.len() == 232);
        assert(p36.len() == 240);
        assert(p37.len() == 248);
        assert(bytes.take(248) == p37);
        lemma_field_after_prefix(bytes, p36, native_bytes(self.write_syscalls as nat, 8));
        lemma_field_after_prefix(bytes, p35, native_bytes(self.read_syscalls as nat, 8));
        lemma_field_after_prefix(bytes, p34, native_bytes(self.write_char as nat, 8));
        lemma_field_after_prefix(bytes, p33, native_bytes(self.read_char as nat, 8));
        lemma_field_after_prefix(bytes, p32, native_bytes(self.hiwater_vm as nat, 8));
        lemma_field_after_prefix(bytes, p31, native_bytes(self.hiwater_rss as nat, 8));
        lemma_field_after_prefix(bytes, p30, native_bytes(self.virtmem as nat, 8));
        lemma_field_after_prefix(bytes, p29, native_bytes(self.coremem as nat, 8));
        lemma_field_after_prefix(bytes, p28, native_bytes(self.ac_majflt as nat, 8));
        lemma_field_after_prefix(bytes, p27, native_bytes(self.ac_minflt as nat, 8));
        lemma_field_after_prefix(bytes, p26, native_bytes(self.ac_stime as nat, 8));
        lemma_field_after_prefix(bytes, p25, native_bytes(self.ac_utime as nat, 8));
        lemma_field_after_prefix(bytes, p24, native_bytes(self.ac_etime as nat, 8));
        lemma_field_after_prefix(bytes, p23, zeros(4));
        lemma_field_after_prefix(bytes, p22, native_bytes(self.ac_btime as nat, 4));
        lemma_field_after_prefix(bytes, p21, native_bytes(self.ac_ppid as nat, 4));
        lemma_field_after_prefix(bytes, p20, native_bytes(self.ac_pid as nat, 4));
        lemma_field_after_prefix(bytes, p19, native_bytes(self.ac_gid as nat, 4));
        lemma_field_after_prefix(bytes, p18, native_bytes(self.ac_uid as nat, 4));
        lemma_field_after_prefix(bytes, p17, native_bytes(self.__bindgen_padding_0 as nat, 4));
        lemma_field_after_prefix(bytes, p16, self.ac_pad);
        lemma_field_after_prefix(bytes, p15, seq![self.ac_sched]);
        assert(bytes.subrange(112, 113)[0] == bytes[112]);
        lemma_field_after_prefix(bytes, p14, self.ac_comm);
        lemma_field_after_prefix(bytes, p13, native_bytes(self.cpu_run_virtual_total as nat, 8));
        lemma_field_after_prefix(bytes, p12, native_bytes(self.cpu_run_real_total as nat, 8));
        lemma_field_after_prefix(bytes, p11, native_bytes(self.swapin_delay_total as nat, 8));
        lemma_field_after_prefix(bytes, p10, native_bytes(self.swapin_count as nat, 8));
        lemma_field_after_prefix(bytes, p9, native_bytes(self.blkio_delay_total as nat, 8));
        lemma_field_after_prefix(bytes, p8, native_bytes(self.blkio_count as nat, 8));
        lemma_field_after_prefix(bytes, p7, native_bytes(self.cpu_delay_total as nat, 8));
        lemma_field_after_prefix(bytes, p6, native_bytes(self.cpu_count as nat, 8));
        lemma_field_after_prefix(bytes, p5, zeros(6));
        lemma_field_after_prefix(bytes, p4, seq![self.ac_nice]);
        assert(bytes.subrange(9, 10)[0] == bytes[9]);
        lemma_field_after_prefix(bytes, p3, seq![self.ac_flag]);
        assert(bytes.subrange(8, 9)[0] == bytes[8]);
        lemma_field_after_prefix(bytes, p2, native_bytes(self.ac_exitcode as nat, 4));
        lemma_field_after_prefix(bytes, p1, zeros(2));
        lemma_field_after_prefix(bytes, p0, native_bytes(self.version as nat, 2));
    }

    /// In anything that starts with the record, each field after the optional
    /// counter, and the counter where there is one, reads as itself at its
    /// offset.
    pub proof fn lemma_tail_read_back(self, bytes: Seq<u8>)
        requires
            self.wf(),
            bytes.len() >= record_len(self.io_accounting()),
            bytes.take(record_len(self.io_accounting()) as int) == self.bytes(),
        ensures
            bytes.take(TAIL_OFFSET as int) == self.head_bytes(),
            self.read_bytes matches Some(read_bytes) ==> u64_at(bytes, TAIL_OFFSET as int)
                == read_bytes,
            u64_at(bytes, 248 + (if self.io_accounting() { 8int } else { 0int })) == self.write_bytes,
            u64_at(bytes, 256 + (if self.io_accounting() { 8int } else { 0int })) == self.cancelled_write_bytes,
            u64_at(bytes, 264 + (if self.io_accounting() { 8int } else { 0int })) == self.nvcsw,
            u64_at(bytes, 272 + (if self.io_accounting() { 8int } else { 0int })) == self.nivcsw,
            u64_at(bytes, 280 + (if self.io_accounting() { 8int } else { 0int })) == self.ac_utimescaled,
            u64_at(bytes, 288 + (if self.io_accounting() { 8int } else { 0int })) == self.ac_stimescaled,
            u64_at(bytes, 296 + (if self.io_accounting() { 8int } else { 0int })) == self.cpu_scaled_run_real_total,
            u64_at(bytes, 304 + (if self.io_accounting() { 8int } else { 0int })) == self.freepages_count,
            u64_at(bytes, 312 + (if self.io_accounting() { 8int } else { 0int })) == self.freepages_delay_total,
            u64_at(bytes, 320 + (if self.io_accounting() { 8int } else { 0int })) == self.thrashing_count,
            u64_at(bytes, 328 + (if self.io_accounting() { 8int } else { 0int })) == self.thrashing_delay_total,
    {
        lemma_radix_values();
        self.lemma_head_len();
        self.lemma_bytes_len();
        let shift = if self.io_accounting() {
            8int
        } else {
            0int
        };
        let q0 = self.counter_bytes();
        let q1 = q0 + native_bytes(self.write_bytes as nat, 8);
        lemma_native_round_trip(self.write_bytes as nat, 8);
        let q2 = q1 + native_bytes(self.cancelled_write_bytes as nat, 8);
        lemma_native_round_trip(self.cancelled_write_bytes as nat, 8);
        let q3 = q2 + native_bytes(self.nvcsw as nat, 8);
        lemma_native_round_trip(self.nvcsw as nat, 8);
        let q4 = q3 + native_bytes(self.nivcsw as nat, 8);
        lemma_native_round_trip(self.nivcsw as nat, 8);
        let q5 = q4 + native_bytes(self.ac_utimescaled as nat, 8);
        lemma_native_round_trip(self.ac_utimescaled as nat, 8);
        let q6 = q5 + native_bytes(self.ac_stimescaled as nat, 8);
        lemma_native_round_trip(self.ac_stimescaled as nat, 8);
        let q7 = q6 + native_bytes(self.cpu_scaled_run_real_total as nat, 8);
        lemma_native_round_trip(self.cpu_scaled_run_real_total as nat, 8);
        let q8 = q7 + native_bytes(self.freepages_count as nat, 8);
        lemma_native_round_trip(self.freepages_count as nat, 8);
        let q9 = q8 + native_bytes(self.freepages_delay_total as nat, 8);
        lemma_native_round_trip(self.freepages_delay_total as nat, 8);
        let q10 = q9 + native_bytes(self.thrashing_count as nat, 8);
        lemma_native_round_trip(self.thrashing_count as nat, 8);
        let q11 = q10 + native_bytes(self.thrashing_delay_total as nat, 8);
        lemma_native_round_trip(self.thrashing_delay_total as nat, 8);
        assert(q1.len() == 256 + shift);
        assert(q2.len() == 264 + shift);
        assert(q3.len() == 272 + shift);
        assert(q4.len() == 280 + shift);
        assert(q5.len() == 288 + shift);
        assert(q6.len() == 296 + shift);
        assert(q7.len() == 304 + shift);
        assert(q8.len() == 312 + shift);
        assert(q9.len() == 320 + shift);
        assert(q10.len() == 328 + shift);
        assert(q11.len() == 336 + shift);
        assert(bytes.take(336 + shift) == q11);
        lemma_field_after_prefix(bytes, q10, native_bytes(self.thrashing_delay_total as nat, 8));
        lemma_field_after_prefix(bytes, q9, native_bytes(self.thrashing_count as nat, 8));
        lemma_field_after_prefix(bytes, q8, native_bytes(self.freepages_delay_total as nat, 8));
        lemma_field_after_prefix(bytes, q7, native_bytes(self.freepages_count as nat, 8));
        lemma_field_after_prefix(bytes, q6, native_bytes(self.cpu_scaled_run_real_total as nat, 8));
        lemma_field_after_prefix(bytes, q5, native_bytes(self.ac_stimescaled as nat, 8));
        lemma_field_after_prefix(bytes, q4, native_bytes(self.ac_utimescaled as nat, 8));
        lemma_field_after_prefix(bytes, q3, native_bytes(self.nivcsw as nat, 8));
        lemma_field_after_prefix(bytes, q2, native_bytes(self.nvcsw as nat, 8));
        lemma_field_after_prefix(bytes, q1, native_bytes(self.cancelled_write_bytes as nat, 8));
        lemma_field_after_prefix(bytes, q0, native_bytes(self.write_bytes as nat, 8));

        if let Some(read_bytes) = self.read_bytes {
            lemma_native_round_trip(read_bytes as nat, 8);
            lemma_field_after_prefix(bytes, self.head_bytes(), native_bytes(read_bytes as nat, 8));
        }
    }

    /// Decoding what a record is written as, whatever follows it, gives the
    /// record back.
    pub proof fn lemma_round_trip(self, after: Seq<u8>)
        requires
            self.wf(),
        ensures
            parse_record(self.bytes() + after, self.io_accounting()) == Ok::<
                StatisticsView,
                TaskStatsError,
            >(self),
    {
        let bytes = self.bytes() + after;
        self.lemma_bytes_len();
        assert(bytes.take(record_len(self.io_accounting()) as int) =~= self.bytes());
        self.lemma_tail_read_back(bytes);
        self.lemma_head_read_back(bytes);
        let decoded = record_at(bytes, self.io_accounting());
        assert(decoded.ac_comm == self.ac_comm);
        assert(decoded.ac_pad == self.ac_pad);
        assert(decoded.read_bytes == self.read_bytes);
    }
}

impl Statistics {
    /// Decodes the record at the start of `buf`, laid out with or without I/O
    /// accounting. Bytes after the record are not looked at. A buffer that is
    /// shorter than the record is refused.
    pub fn parse(buf: &[u8], io_accounting: bool) -> (result: Result<Statistics, TaskStatsError>)
        ensures
            parse_record(buf@, io_accounting) == match result {
                Ok(record) => Ok::<StatisticsView, TaskStatsError>(record@),
                Err(e) => Err(e),
            },
    {
        let needed = if io_accounting {
            STATISTICS_LEN_IO
        } else {
            STATISTICS_LEN
        };
        if buf.len() < needed {
            return Err(TaskStatsError::BufferTooShort { needed, found: buf.len() });
        }
        let mut cursor = Cursor::new(buf);
        let mut ac_comm = [0u8; 32];
        let mut ac_pad = [0u8; 3];
        let version = cursor.read_u16();
        cursor.skip(2);
        let ac_exitcode = cursor.read_u32();
        let ac_flag = cursor.read_u8();
        let ac_nice = cursor.read_u8();
        cursor.skip(6);
        let cpu_count = cursor.read_u64();
        let cpu_delay_total = cursor.read_u64();
        let blkio_count = cursor.read_u64();
        let blkio_delay_total = cursor.read_u64();
        let swapin_count = cursor.read_u64();
        let swapin_delay_total = cursor.read_u64();
        let cpu_run_real_total = cursor.read_u64();
        let cpu_run_virtual_total = cursor.read_u64();
        cursor.read_into(&mut ac_comm);
        let ac_sched = cursor.read_u8();
        cursor.read_into(&mut ac_pad);
        let __bindgen_padding_0 = cursor.read_u32();
        let ac_uid = cursor.read_u32();
        let ac_gid = cursor.read_u32();
        let ac_pid = cursor.read_u32();
        let ac_ppid = cursor.read_u32();
        let ac_btime = cursor.read_u32();
        cursor.skip(4);
        let ac_etime = cursor.read_u64();
        let ac_utime = cursor.read_u64();
        let ac_stime = cursor.read_u64();
        let ac_minflt = cursor.read_u64();
        let ac_majflt = cursor.read_u64();
        let coremem = cursor.read_u64();
        let virtmem = cursor.read_u64();
        let hiwater_rss = cursor.read_u64();
        let hiwater_vm = cursor.read_u64();
        let read_char = cursor.read_u64();
        let write_char = cursor.read_u64();
        let read_syscalls = cursor.read_u64();
        let write_syscalls = cursor.read_u64();
        let read_bytes = if io_accounting {
            Some(cursor.read_u64())
        } else {
            None
        };
        let write_bytes = cursor.read_u64();
        let cancelled_write_bytes = cursor.read_u64();
        let nvcsw = cursor.read_u64();
        let nivcsw = cursor.read_u64();
        let ac_utimescaled = cursor.read_u64();
        let ac_stimescaled = cursor.read_u64();
        let cpu_scaled_run_real_total = cursor.read_u64();
        let freepages_count = cursor.read_u64();
        let freepages_delay_total = cursor.read_u64();
        let thrashing_count = cursor.read_u64();
        let thrashing_delay_total = cursor.read_u64();
        let record = Statistics {
            version,
            ac_exitcode,
            ac_flag,
            ac_nice,
            cpu_count,
            cpu_delay_total,
            blkio_count,
            blkio_delay_total,
            swapin_count,
            swapin_delay_total,
            cpu_run_real_total,
            cpu_run_virtual_total,
            ac_comm,
            ac_sched,
            ac_pad,
            __bindgen_padding_0,
            ac_uid,
            ac_gid,
            ac_pid,
            ac_ppid,
            ac_btime,
            ac_etime,
            ac_utime,
            ac_stime,
            ac_minflt,
            ac_majflt,
            coremem,
            virtmem,
            hiwater_rss,
            hiwater_vm,
            read_char,
            write_char,
            read_syscalls,
            write_syscalls,
            read_bytes,
            write_bytes,
            cancelled_write_bytes,
            nvcsw,
            nivcsw,
            ac_utimescaled,
            ac_stimescaled,
            cpu_scaled_run_real_total,
            freepages_count,
            freepages_delay_total,
            thrashing_count,
            thrashing_delay_total,
        };
        Ok(record)
    }

    /// The number of bytes that the record takes on the wire.
    pub fn buffer_len(&self) -> (len: usize)
        ensures
            len == record_len(self@.io_accounting()),
    {
        match self.read_bytes {
            Some(_) => STATISTICS_LEN_IO,
            None => STATISTICS_LEN,
        }
    }

    /// Writes the record at the start of `buffer`, which has to hold at least
    /// `buffer_len` bytes: every field at its offset, zeros where the alignment
    /// leaves room between fields. What lies after the record stays as it was.
    pub fn emit(&self, buffer: &mut [u8])
        requires
            old(buffer)@.len() >= record_len(self@.io_accounting()),
        ensures
            final(buffer)@ == self@.bytes() + old(buffer)@.skip(
                record_len(self@.io_accounting()) as int,
            ),
    {
        assert(buffer@.take(0) =~= Seq::<u8>::empty());
        let mut at: usize = 0;
        at = put_u16(buffer, at, self.version);
        at = put_zeros(buffer, at, 2);
        at = put_u32(buffer, at, self.ac_exitcode);
        at = put_u8(buffer, at, self.ac_flag);
        at = put_u8(buffer, at, self.ac_nice);
        at = put_zeros(buffer, at, 6);
        at = put_u64(buffer, at, self.cpu_count);
        at = put_u64(buffer, at, self.cpu_delay_total);
        at = put_u64(buffer, at, self.blkio_count);
        at = put_u64(buffer, at, self.blkio_delay_total);
        at = put_u64(buffer, at, self.swapin_count);
        at = put_u64(buffer, at, self.swapin_delay_total);
        at = put_u64(buffer, at, self.cpu_run_real_total);
        at = put_u64(buffer, at, self.cpu_run_virtual_total);
        at = put_bytes(buffer, at, &self.ac_comm);
        at = put_u8(buffer, at, self.ac_sched);
        at = put_bytes(buffer, at, &self.ac_pad);
        at = put_u32(buffer, at, self.__bindgen_padding_0);
        at = put_u32(buffer, at, self.ac_uid);
        at = put_u32(buffer, at, self.ac_gid);
        at = put_u32(buffer, at, self.ac_pid);
        at = put_u32(buffer, at, self.ac_ppid);
        at = put_u32(buffer, at, self.ac_btime);
        at = put_zeros(buffer, at, 4);
        at = put_u64(buffer, at, self.ac_etime);
        at = put_u64(buffer, at, self.ac_utime);
        at = put_u64(buffer, at, self.ac_stime);
        at = put_u64(buffer, at, self.ac_minflt);
        at = put_u64(buffer, at, self.ac_majflt);
        at = put_u64(buffer, at, self.coremem);
        at = put_u64(buffer, at, self.virtmem);
        at = put_u64(buffer, at, self.hiwater_rss);
        at = put_u64(buffer, at, self.hiwater_vm);
        at = put_u64(buffer, at, self.read_char);
        at = put_u64(buffer, at, self.write_char);
        at = put_u64(buffer, at, self.read_syscalls);
        at = put_u64(buffer, at, self.write_syscalls);
        assert(buffer@.take(at as int) == self@.head_bytes());
        if let Some(read_bytes) = self.read_bytes {
            at = put_u64(buffer, at, read_bytes);
        }
        assert(buffer@.take(at as int) == self@.counter_bytes());
        at = put_u64(buffer, at, self.write_bytes);
        at = put_u64(buffer, at, self.cancelled_write_bytes);
        at = put_u64(buffer, at, self.nvcsw);
        at = put_u64(buffer, at, self.nivcsw);
        at = put_u64(buffer, at, self.ac_utimescaled);
        at = put_u64(buffer, at, self.ac_stimescaled);
        at = put_u64(buffer, at, self.cpu_scaled_run_real_total);
        at = put_u64(buffer, at, self.freepages_count);
        at = put_u64(buffer, at, self.freepages_delay_total);
        at = put_u64(buffer, at, self.thrashing_count);
        at = put_u64(buffer, at, self.thrashing_delay_total);
        assert(buffer@ =~= buffer@.take(at as int) + old(buffer)@.skip(at as int));
    }
}

} // verus!
