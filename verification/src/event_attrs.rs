//! The attributes of a taskstats report: whose statistics it holds, the record
//! itself, and the markers that group the two.

use crate::error::{Stage, TaskStatsError};
use crate::native::{
    as_signed_32, as_unsigned_32, lemma_native_bytes_len, lemma_native_round_trip,
    lemma_signed_32_round_trip, native_bytes, native_value, write_i32,
};
use crate::nla::{
    buffer_len_of, emit_header, emit_nlas, emit_padding, lemma_parse_emitted, nla_buffer_kind,
    nla_buffer_len, nla_buffer_value, nla_bytes, nla_encodable, nlas_new, nlas_next,
    nlas_remaining, parse_nlas, NLA_HEADER_SIZE,
};
use crate::stats::{parse_record, record_len, Statistics, StatisticsView};
use vstd::prelude::*;

verus! {

/// Kind of the attribute that names a process.
pub const TASKSTATS_TYPE_PID: u16 = 1;

/// Kind of the attribute that names a thread group.
pub const TASKSTATS_TYPE_TGID: u16 = 2;

/// Kind of the attribute that holds an accounting record.
pub const TASKSTATS_TYPE_STATS: u16 = 3;

/// Kind of the marker before a process and its record.
pub const TASKSTATS_TYPE_AGGR_PID: u16 = 4;

/// Kind of the marker before a thread group and its record.
pub const TASKSTATS_TYPE_AGGR_TGID: u16 = 5;

/// Kind of the attribute that holds nothing.
pub const TASKSTATS_TYPE_NULL: u16 = 6;

/// An attribute of a taskstats report.
#[derive(Clone, Copy, Debug, PartialEq, Eq)]
pub enum TaskStatsEventAttrs {
    /// The process that the statistics are of.
    Pid(i32),
    /// The thread group that the statistics are of.
    TGid(i32),
    /// The accounting record.
    Stats(Statistics),
    /// Marks a process and its record as one group.
    AggrPid,
    /// Marks a thread group and its record as one group.
    AggrTid,
    /// Holds nothing.
    Null,
}

/// An attribute of a report as contracts see it.
pub ghost enum TaskStatsEventAttrsView {
    Pid(i32),
    TGid(i32),
    Stats(StatisticsView),
    AggrPid,
    AggrTid,
    Null,
}

impl View for TaskStatsEventAttrs {
    type V = TaskStatsEventAttrsView;

    open spec fn view(&self) -> TaskStatsEventAttrsView {
        match self {
            TaskStatsEventAttrs::Pid(v) => TaskStatsEventAttrsView::Pid(*v),
            TaskStatsEventAttrs::TGid(v) => TaskStatsEventAttrsView::TGid(*v),
            TaskStatsEventAttrs::Stats(record) => TaskStatsEventAttrsView::Stats(record@),
            TaskStatsEventAttrs::AggrPid => TaskStatsEventAttrsView::AggrPid,
            TaskStatsEventAttrs::AggrTid => TaskStatsEventAttrsView::AggrTid,
            TaskStatsEventAttrs::Null => TaskStatsEventAttrsView::Null,
        }
    }
}

impl TaskStatsEventAttrsView {
    /// Whether the byte arrays of the record, if the attribute holds one, have
    /// the lengths that the record gives them.
    pub open spec fn wf(self) -> bool {
        self matches TaskStatsEventAttrsView::Stats(record) ==> record.wf()
    }

    /// Whether the attribute reads back under this layout: every attribute does
    /// but a record that was laid out the other way.
    pub open spec fn laid_out(self, io_accounting: bool) -> bool {
        self matches TaskStatsEventAttrsView::Stats(record) ==> record.io_accounting()
            == io_accounting
    }

    /// The kind that stands for the attribute on the wire.
    pub open spec fn kind(self) -> u16 {
        match self {
            TaskStatsEventAttrsView::Pid(_) => TASKSTATS_TYPE_PID,
            TaskStatsEventAttrsView::TGid(_) => TASKSTATS_TYPE_TGID,
            TaskStatsEventAttrsView::Stats(_) => TASKSTATS_TYPE_STATS,
            TaskStatsEventAttrsView::AggrPid => TASKSTATS_TYPE_AGGR_PID,
            TaskStatsEventAttrsView::AggrTid => TASKSTATS_TYPE_AGGR_TGID,
            TaskStatsEventAttrsView::Null => TASKSTATS_TYPE_NULL,
        }
    }

    /// The length of the attribute's value on the wire: four bytes for an
    /// identifier, the length of its layout for a record, nothing for a marker.
    pub open spec fn value_len(self) -> nat {
        match self {
            TaskStatsEventAttrsView::Pid(_) => 4,
            TaskStatsEventAttrsView::TGid(_) => 4,
            TaskStatsEventAttrsView::Stats(record) => record_len(record.io_accounting()),
            TaskStatsEventAttrsView::AggrPid => 0,
            TaskStatsEventAttrsView::AggrTid => 0,
            TaskStatsEventAttrsView::Null => 0,
        }
    }

    /// The attribute's value on the wire: an identifier as the four bytes, in the
    /// byte order of the machine, of the unsigned integer that shares its bits;
    /// a record field by field; nothing for a marker.
    pub open spec fn value(self) -> Seq<u8> {
        match self {
            TaskStatsEventAttrsView::Pid(v) => native_bytes(as_unsigned_32(v as int), 4),
            TaskStatsEventAttrsView::TGid(v) => native_bytes(as_unsigned_32(v as int), 4),
            TaskStatsEventAttrsView::Stats(record) => record.bytes(),
            TaskStatsEventAttrsView::AggrPid => Seq::empty(),
            TaskStatsEventAttrsView::AggrTid => Seq::empty(),
            TaskStatsEventAttrsView::Null => Seq::empty(),
        }
    }

    /// The attribute on the wire: header, value and padding.
    pub open spec fn bytes(self) -> Seq<u8> {
        nla_bytes(self.kind(), self.value())
    }

    /// No two variants share a kind: attributes of one kind are of one variant.
    pub proof fn lemma_kind_decides_variant(self, other: Self)
        requires
            self.kind() == other.kind(),
        ensures
            self is Pid <==> other is Pid,
            self is TGid <==> other is TGid,
            self is Stats <==> other is Stats,
            self is AggrPid <==> other is AggrPid,
            self is AggrTid <==> other is AggrTid,
            self is Null <==> other is Null,
    {
    }

    /// The value is as long as `value_len` says.
    pub proof fn lemma_value_len(self)
        requires
            self.wf(),
        ensures
            self.value().len() == self.value_len(),
    {
        match self {
            TaskStatsEventAttrsView::Pid(v) => lemma_native_bytes_len(
                as_unsigned_32(v as int),
                4,
            ),
            TaskStatsEventAttrsView::TGid(v) => lemma_native_bytes_len(
                as_unsigned_32(v as int),
                4,
            ),
            TaskStatsEventAttrsView::Stats(record) => record.lemma_bytes_len(),
            _ => {},
        }
    }

    /// Decoding the value that an attribute is written as, under the attribute's
    /// kind and the layout of its record, gives the attribute back.
    pub proof fn lemma_value_round_trip(self, io_accounting: bool)
        requires
            self.wf(),
            self.laid_out(io_accounting),
        ensures
            parse_event_attr(self.kind(), self.value(), io_accounting) == Ok::<
                TaskStatsEventAttrsView,
                TaskStatsError,
            >(self),
    {
        match self {
            TaskStatsEventAttrsView::Pid(v) => {
                lemma_signed_32_round_trip(v);
                lemma_native_round_trip(as_unsigned_32(v as int), 4);
            },
            TaskStatsEventAttrsView::TGid(v) => {
                lemma_signed_32_round_trip(v);
                lemma_native_round_trip(as_unsigned_32(v as int), 4);
            },
            TaskStatsEventAttrsView::Stats(record) => {
                record.lemma_round_trip(Seq::empty());
                assert(record.bytes() + Seq::<u8>::empty() =~= record.bytes());
            },
            _ => {},
        }
    }
}

/// The signed identifier that a value of four bytes holds; a value of another
/// length holds none.
pub open spec fn parse_signed_id(kind: u16, payload: Seq<u8>) -> Result<i32, TaskStatsError> {
    if payload.len() == 4 {
        Ok(as_signed_32(native_value(payload)) as i32)
    } else {
        Err(
            TaskStatsError::Context {
                stage: Stage::Value(kind),
                cause: Box::new(
                    TaskStatsError::InvalidLength { expected: 4, found: payload.len() as usize },
                ),
            },
        )
    }
}

/// The attribute of a report that a kind and a value stand for. The record of a
/// `Stats` attribute is laid out with or without I/O accounting; a marker stands
/// for itself whatever its value holds.
pub open spec fn parse_event_attr(kind: u16, payload: Seq<u8>, io_accounting: bool) -> Result<
    TaskStatsEventAttrsView,
    TaskStatsError,
> {
    if kind == TASKSTATS_TYPE_STATS {
        match parse_record(payload, io_accounting) {
            Ok(record) => Ok(TaskStatsEventAttrsView::Stats(record)),
            Err(e) => Err(
                TaskStatsError::Context { stage: Stage::Value(kind), cause: Box::new(e) },
            ),
        }
    } else if kind == TASKSTATS_TYPE_PID {
        match parse_signed_id(kind, payload) {
            Ok(v) => Ok(TaskStatsEventAttrsView::Pid(v)),
            Err(e) => Err(e),
        }
    } else if kind == TASKSTATS_TYPE_TGID {
        match parse_signed_id(kind, payload) {
            Ok(v) => Ok(TaskStatsEventAttrsView::TGid(v)),
            Err(e) => Err(e),
        }
    } else if kind == TASKSTATS_TYPE_AGGR_PID {
        Ok(TaskStatsEventAttrsView::AggrPid)
    } else if kind == TASKSTATS_TYPE_AGGR_TGID {
        Ok(TaskStatsEventAttrsView::AggrTid)
    } else if kind == TASKSTATS_TYPE_NULL {
        Ok(TaskStatsEventAttrsView::Null)
    } else {
        Err(TaskStatsError::UnknownKind(kind))
    }
}

/// Attributes as contracts see them.
pub open spec fn event_attrs_view(nlas: Seq<TaskStatsEventAttrs>) -> Seq<TaskStatsEventAttrsView> {
    Seq::new(nlas.len(), |i: int| nlas[i]@)
}

/// The attributes of a report that `bytes` hold, or the failure to decode them
/// as a failure of this stage.
pub open spec fn parse_event_nlas(bytes: Seq<u8>, io_accounting: bool) -> Result<
    Seq<TaskStatsEventAttrsView>,
    TaskStatsError,
> {
    match parse_nlas(
        bytes,
        |kind: u16, value: Seq<u8>| parse_event_attr(kind, value, io_accounting),
    ) {
        Ok(nlas) => Ok(nlas),
        Err(e) => Err(TaskStatsError::Context { stage: Stage::Attributes, cause: Box::new(e) }),
    }
}

/// Each attribute as the kind and the value that it is written with.
pub open spec fn event_records(nlas: Seq<TaskStatsEventAttrsView>) -> Seq<(u16, Seq<u8>)> {
    Seq::new(nlas.len(), |i: int| (nlas[i].kind(), nlas[i].value()))
}

/// Decoding what the attributes of a report are written as, one after the other
/// and every record in the layout that is decoded with, gives the attributes
/// back in their order.
pub proof fn lemma_report_round_trip(nlas: Seq<TaskStatsEventAttrsView>, io_accounting: bool)
    requires
        forall|i: int| 0 <= i < nlas.len() ==> (#[trigger] nlas[i]).wf(),
        forall|i: int| 0 <= i < nlas.len() ==> (#[trigger] nlas[i]).laid_out(io_accounting),
    ensures
        parse_event_nlas(emit_nlas(event_records(nlas)), io_accounting) == Ok::<
            Seq<TaskStatsEventAttrsView>,
            TaskStatsError,
        >(nlas),
{
    let records = event_records(nlas);
    assert forall|i: int| 0 <= i < records.len() implies parse_event_attr(
        records[i].0,
        records[i].1,
        io_accounting,
    ) == Ok::<TaskStatsEventAttrsView, TaskStatsError>(nlas[i]) by {
        assert(nlas[i].wf() && nlas[i].laid_out(io_accounting));
        nlas[i].lemma_value_round_trip(io_accounting);
    }
    assert forall|i: int| 0 <= i < records.len() implies nla_encodable(
        records[i].0,
        records[i].1.len(),
    ) by {
        assert(nlas[i].wf());
        nlas[i].lemma_value_len();
    }
    lemma_parse_emitted(
        records,
        |kind: u16, value: Seq<u8>| parse_event_attr(kind, value, io_accounting),
        nlas,
    );
}

/// `netlink_packet_utils::parsers::parse_i32`: a payload of four bytes is read as
/// an integer in the byte order of the machine, its bits taken as a signed
/// number; any other length is an error.
#[verifier::external_body]
pub(crate) fn nl_parse_i32(payload: &[u8]) -> (result: Result<
    i32,
    netlink_packet_utils::DecodeError,
>)
    ensures
        result is Ok <==> payload@.len() == 4,
        result matches Ok(v) ==> v as int == as_signed_32(native_value(payload@)),
{
    netlink_packet_utils::parsers::parse_i32(payload)
}

impl TaskStatsEventAttrs {
    /// The length of the value on the wire, without header and padding.
    pub fn value_len(&self) -> (len: usize)
        ensures
            len == self@.value_len(),
    {
        match self {
            TaskStatsEventAttrs::Pid(_) => 4,
            TaskStatsEventAttrs::TGid(_) => 4,
            TaskStatsEventAttrs::Stats(record) => record.buffer_len(),
            TaskStatsEventAttrs::AggrPid => 0,
            TaskStatsEventAttrs::AggrTid => 0,
            TaskStatsEventAttrs::Null => 0,
        }
    }

    /// The kind that stands for the attribute on the wire.
    pub fn kind(&self) -> (kind: u16)
        ensures
            kind == self@.kind(),
    {
        match self {
            TaskStatsEventAttrs::Pid(_) => TASKSTATS_TYPE_PID,
            TaskStatsEventAttrs::TGid(_) => TASKSTATS_TYPE_TGID,
            TaskStatsEventAttrs::Stats(_) => TASKSTATS_TYPE_STATS,
            TaskStatsEventAttrs::AggrPid => TASKSTATS_TYPE_AGGR_PID,
            TaskStatsEventAttrs::AggrTid => TASKSTATS_TYPE_AGGR_TGID,
            TaskStatsEventAttrs::Null => TASKSTATS_TYPE_NULL,
        }
    }

    /// Writes the value at the start of `buffer`, which has to hold at least
    /// `value_len` bytes; what lies after the value stays as it was.
    pub fn emit_value(&self, buffer: &mut [u8])
        requires
            old(buffer)@.len() >= self@.value_len(),
        ensures
            final(buffer)@ == self@.value() + old(buffer)@.skip(self@.value_len() as int),
    {
        match self {
            TaskStatsEventAttrs::Pid(v) => write_i32(buffer, *v),
            TaskStatsEventAttrs::TGid(v) => write_i32(buffer, *v),
            TaskStatsEventAttrs::Stats(record) => record.emit(buffer),
            _ => {
                assert(buffer@ =~= Seq::<u8>::empty() + buffer@.skip(0));
            },
        }
    }

    /// The number of bytes that the attribute takes on the wire: header, value
    /// and padding.
    pub fn buffer_len(&self) -> (len: usize)
        ensures
            len == nla_buffer_len(self@.value_len()),
    {
        buffer_len_of(self.value_len())
    }

    /// Writes the attribute at the start of `buffer`, which has to hold at least
    /// `buffer_len` bytes; what lies after the attribute stays as it was.
    pub fn emit(&self, buffer: &mut [u8])
        requires
            old(buffer)@.len() >= nla_buffer_len(self@.value_len()),
        ensures
            final(buffer)@ == self@.bytes() + old(buffer)@.skip(
                nla_buffer_len(self@.value_len()) as int,
            ),
    {
        let value_len = self.value_len();
        proof {
            self@.lemma_value_len();
            lemma_native_bytes_len((value_len + NLA_HEADER_SIZE) as nat, 2);
            lemma_native_bytes_len(self@.kind() as nat, 2);
        }
        emit_header(self.kind(), value_len, buffer);
        let (_, value_field) = buffer.split_at_mut(NLA_HEADER_SIZE);
        self.emit_value(value_field);
        emit_padding(value_len, buffer);
        assert(buffer@ =~= self@.bytes() + old(buffer)@.skip(
            nla_buffer_len(self@.value_len()) as int,
        ));
    }

    /// Decodes the attribute that `kind` and the value `payload` stand for, with
    /// the record of a `Stats` attribute laid out with or without I/O
    /// accounting. A kind outside the set is refused, and so is a value that is
    /// malformed for its kind: an identifier of another length than four bytes, a
    /// record that is cut short.
    pub fn parse(kind: u16, payload: &[u8], io_accounting: bool) -> (result: Result<
        TaskStatsEventAttrs,
        TaskStatsError,
    >)
        ensures
            parse_event_attr(kind, payload@, io_accounting) == match result {
                Ok(attr) => Ok::<TaskStatsEventAttrsView, TaskStatsError>(attr@),
                Err(e) => Err(e),
            },
    {
        if kind == TASKSTATS_TYPE_STATS {
            match Statistics::parse(payload, io_accounting) {
                Ok(record) => Ok(TaskStatsEventAttrs::Stats(record)),
                Err(e) => Err(e.context(Stage::Value(kind))),
            }
        } else if kind == TASKSTATS_TYPE_PID {
            match nl_parse_i32(payload) {
                Ok(v) => Ok(TaskStatsEventAttrs::Pid(v)),
                Err(_) => Err(
                    TaskStatsError::InvalidLength { expected: 4, found: payload.len() }.context(
                        Stage::Value(kind),
                    ),
                ),
            }
        } else if kind == TASKSTATS_TYPE_TGID {
            match nl_parse_i32(payload) {
                Ok(v) => Ok(TaskStatsEventAttrs::TGid(v)),
                Err(_) => Err(
                    TaskStatsError::InvalidLength { expected: 4, found: payload.len() }.context(
                        Stage::Value(kind),
                    ),
                ),
            }
        } else if kind == TASKSTATS_TYPE_AGGR_PID {
            Ok(TaskStatsEventAttrs::AggrPid)
        } else if kind == TASKSTATS_TYPE_AGGR_TGID {
            Ok(TaskStatsEventAttrs::AggrTid)
        } else if kind == TASKSTATS_TYPE_NULL {
            Ok(TaskStatsEventAttrs::Null)
        } else {
            Err(TaskStatsError::UnknownKind(kind))
        }
    }
}

/// Decodes the attributes of a report that `buf` holds, in the order of the
/// buffer, with the records laid out with or without I/O accounting. The first
/// thing that is wrong in that order is reported, as a failure to decode the
/// attributes.
pub fn parse_taskstat_event_nlas(buf: &[u8], io_accounting: bool) -> (result: Result<
    Vec<TaskStatsEventAttrs>,
    TaskStatsError,
>)
    ensures
        parse_event_nlas(buf@, io_accounting) == match result {
            Ok(nlas) => Ok::<Seq<TaskStatsEventAttrsView>, TaskStatsError>(
                event_attrs_view(nlas@),
            ),
            Err(e) => Err(e),
        },
{
    let ghost parse = |kind: u16, value: Seq<u8>| parse_event_attr(kind, value, io_accounting);
    let mut it = nlas_new(buf);
    let mut nlas: Vec<TaskStatsEventAttrs> = Vec::new();
    assert(event_attrs_view(nlas@) + parse_nlas(buf@, parse)->Ok_0 =~= parse_nlas(
        buf@,
        parse,
    )->Ok_0);
    loop
        invariant
            parse == (|kind: u16, value: Seq<u8>| parse_event_attr(kind, value, io_accounting)),
            parse_nlas(buf@, parse) == match parse_nlas(nlas_remaining(it), parse) {
                Ok(rest) => Ok::<Seq<TaskStatsEventAttrsView>, TaskStatsError>(
                    event_attrs_view(nlas@) + rest,
                ),
                Err(e) => Err(e),
            },
        decreases nlas_remaining(it).len(),
    {
        let ghost seen = event_attrs_view(nlas@);
        match nlas_next(&mut it) {
            None => {
                assert(seen + Seq::<TaskStatsEventAttrsView>::empty() =~= seen);
                return Ok(nlas);
            },
            Some(Err(_)) => {
                return Err(TaskStatsError::MalformedNla.context(Stage::Attributes));
            },
            Some(Ok(nla)) => {
                let parsed = TaskStatsEventAttrs::parse(
                    nla_buffer_kind(&nla),
                    nla_buffer_value(&nla),
                    io_accounting,
                );
                match parsed {
                    Err(e) => {
                        return Err(e.context(Stage::Attributes));
                    },
                    Ok(attr) => {
                        nlas.push(attr);
                        proof {
                            assert(event_attrs_view(nlas@) =~= seen.push(attr@));
                            if let Ok(rest) = parse_nlas(nlas_remaining(it), parse) {
                                assert(seen + (seq![attr@] + rest) =~= seen.push(attr@) + rest);
                            }
                        }
                    },
                }
            },
        }
    }
}

} // verus!
