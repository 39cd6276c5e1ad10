//! The attributes of a taskstats command: the task whose statistics are asked
//! for, or the CPUs whose exiting tasks the sender wants reports about.

use crate::cursor::{put_bytes, put_u8};
use crate::error::{Stage, TaskStatsError};
use crate::native::{
    lemma_le_bytes_len, lemma_native_bytes_len, lemma_native_round_trip, lemma_radix_values,
    native_bytes, native_value, write_u32,
};
use crate::nla::{
    buffer_len_of, emit_header, emit_padding, nla_buffer_len, nla_bytes, nla_encodable,
    NLA_HEADER_SIZE,
};
use vstd::prelude::*;
use vstd::utf8::{decode_utf8, encode_utf8, encode_utf8_decode_utf8, encode_utf8_valid_utf8, valid_utf8};

verus! {

/// Kind of the attribute that names a process.
pub const TASKSTATS_CMD_ATTR_PID: u16 = 1;

/// Kind of the attribute that names a thread group.
pub const TASKSTATS_CMD_ATTR_TGID: u16 = 2;

/// Kind of the attribute that registers the sender for a set of CPUs.
pub const TASKSTATS_CMD_ATTR_REGISTER_CPUMASK: u16 = 3;

/// Kind of the attribute that ends such a registration.
pub const TASKSTATS_CMD_ATTR_DEREGISTER_CPUMASK: u16 = 4;

/// An attribute of a taskstats command.
#[derive(Clone, Debug, PartialEq, Eq)]
pub enum TaskStatsCmdAttrs {
    /// The process whose statistics are asked for.
    Pid(u32),
    /// The thread group whose statistics are asked for.
    TGid(u32),
    /// The CPUs to register for, as a list of ranges such as `0-3,6`.
    RegisterCPUMask(String),
    /// The CPUs to end the registration for, written in the same way.
    DeRegisterCPUMask(String),
}

/// An attribute of a command as contracts see it: a string as its characters.
pub ghost enum TaskStatsCmdAttrsView {
    Pid(u32),
    TGid(u32),
    RegisterCPUMask(Seq<char>),
    DeRegisterCPUMask(Seq<char>),
}

impl View for TaskStatsCmdAttrs {
    type V = TaskStatsCmdAttrsView;

    open spec fn view(&self) -> TaskStatsCmdAttrsView {
        match self {
            TaskStatsCmdAttrs::Pid(v) => TaskStatsCmdAttrsView::Pid(*v),
            TaskStatsCmdAttrs::TGid(v) => TaskStatsCmdAttrsView::TGid(*v),
            TaskStatsCmdAttrs::RegisterCPUMask(s) => TaskStatsCmdAttrsView::RegisterCPUMask(s@),
            TaskStatsCmdAttrs::DeRegisterCPUMask(s) => TaskStatsCmdAttrsView::DeRegisterCPUMask(
                s@,
            ),
        }
    }
}

impl TaskStatsCmdAttrsView {
    /// The kind that stands for the attribute on the wire.
    pub open spec fn kind(self) -> u16 {
        match self {
            TaskStatsCmdAttrsView::Pid(_) => TASKSTATS_CMD_ATTR_PID,
            TaskStatsCmdAttrsView::TGid(_) => TASKSTATS_CMD_ATTR_TGID,
            TaskStatsCmdAttrsView::RegisterCPUMask(_) => TASKSTATS_CMD_ATTR_REGISTER_CPUMASK,
            TaskStatsCmdAttrsView::DeRegisterCPUMask(_) => TASKSTATS_CMD_ATTR_DEREGISTER_CPUMASK,
        }
    }

    /// The length of the attribute's value on the wire: four bytes for an
    /// identifier, the bytes of a string and one more for the NUL that ends it.
    pub open spec fn value_len(self) -> nat {
        match self {
            TaskStatsCmdAttrsView::Pid(_) => 4,
            TaskStatsCmdAttrsView::TGid(_) => 4,
            TaskStatsCmdAttrsView::RegisterCPUMask(s) => encode_utf8(s).len() + 1,
            TaskStatsCmdAttrsView::DeRegisterCPUMask(s) => encode_utf8(s).len() + 1,
        }
    }

    /// The attribute's value on the wire: an identifier in the byte order of the
    /// machine, a string as UTF-8 with a NUL after it.
    pub open spec fn value(self) -> Seq<u8> {
        match self {
            TaskStatsCmdAttrsView::Pid(v) => native_bytes(v as nat, 4),
            TaskStatsCmdAttrsView::TGid(v) => native_bytes(v as nat, 4),
            TaskStatsCmdAttrsView::RegisterCPUMask(s) => encode_utf8(s).push(0u8),
            TaskStatsCmdAttrsView::DeRegisterCPUMask(s) => encode_utf8(s).push(0u8),
        }
    }

    /// Whether the attribute can be written: its header and value together have
    /// a length that the two bytes of the length field can hold.
    pub open spec fn encodable(self) -> bool {
        nla_encodable(self.kind(), self.value_len())
    }

    /// The attribute on the wire: header, value and padding.
    pub open spec fn bytes(self) -> Seq<u8> {
        nla_bytes(self.kind(), self.value())
    }

    /// No two variants share a kind: attributes of one kind are of one variant.
    pub proof fn lemma_kind_decides_variant(self, other: Self)
        requires
            self.kind() == other.kind(),
        ensures
            self is Pid <==> other is Pid,
            self is TGid <==> other is TGid,
            self is RegisterCPUMask <==> other is RegisterCPUMask,
            self is DeRegisterCPUMask <==> other is DeRegisterCPUMask,
    {
    }

    /// The value is as long as `value_len` says.
    pub proof fn lemma_value_len(self)
        ensures
            self.value().len() == self.value_len(),
    {
        match self {
            TaskStatsCmdAttrsView::Pid(v) => lemma_le_bytes_len(v as nat, 4),
            TaskStatsCmdAttrsView::TGid(v) => lemma_le_bytes_len(v as nat, 4),
            _ => {},
        }
    }

    /// Decoding the value that an attribute is written as, under the attribute's
    /// kind, gives the attribute back.
    pub proof fn lemma_value_round_trip(self)
        ensures
            parse_cmd_attr(self.kind(), self.value()) == Ok::<TaskStatsCmdAttrsView, TaskStatsError>(
                self,
            ),
    {
        lemma_radix_values();
        match self {
            TaskStatsCmdAttrsView::Pid(v) => lemma_native_round_trip(v as nat, 4),
            TaskStatsCmdAttrsView::TGid(v) => lemma_native_round_trip(v as nat, 4),
            TaskStatsCmdAttrsView::RegisterCPUMask(s) => {
                assert(encode_utf8(s).push(0u8).drop_last() =~= encode_utf8(s));
                encode_utf8_valid_utf8(s);
                encode_utf8_decode_utf8(s);
            },
            TaskStatsCmdAttrsView::DeRegisterCPUMask(s) => {
                assert(encode_utf8(s).push(0u8).drop_last() =~= encode_utf8(s));
                encode_utf8_valid_utf8(s);
                encode_utf8_decode_utf8(s);
            },
        }
    }
}

/// The bytes of a string value without the NUL that ends them, if one does.
pub open spec fn strip_nul(payload: Seq<u8>) -> Seq<u8> {
    if payload.len() > 0 && payload.last() == 0 {
        payload.drop_last()
    } else {
        payload
    }
}

/// The identifier that a value of four bytes holds; a value of another length
/// holds none.
pub open spec fn parse_id(kind: u16, payload: Seq<u8>) -> Result<u32, TaskStatsError> {
    if payload.len() == 4 {
        Ok(native_value(payload) as u32)
    } else {
        Err(
            TaskStatsError::Context {
                stage: Stage::Value(kind),
                cause: Box::new(
                    TaskStatsError::InvalidLength { expected: 4, found: payload.len() as usize },
                ),
            },
        )
    }
}

/// The string that a value holds: the bytes before the NUL that ends it, read as
/// UTF-8. A value that is empty or ends in another byte lacks its terminator
/// and holds no string; nor does one whose bytes before the NUL are not UTF-8.
pub open spec fn parse_mask(kind: u16, payload: Seq<u8>) -> Result<Seq<char>, TaskStatsError> {
    if payload.len() == 0 || payload.last() != 0 {
        Err(
            TaskStatsError::Context {
                stage: Stage::Value(kind),
                cause: Box::new(TaskStatsError::MissingTerminator),
            },
        )
    } else if valid_utf8(payload.drop_last()) {
        Ok(decode_utf8(payload.drop_last()))
    } else {
        Err(
            TaskStatsError::Context {
                stage: Stage::Value(kind),
                cause: Box::new(TaskStatsError::InvalidUtf8),
            },
        )
    }
}

/// The attribute of a command that a kind and a value stand for.
pub open spec fn parse_cmd_attr(kind: u16, payload: Seq<u8>) -> Result<
    TaskStatsCmdAttrsView,
    TaskStatsError,
> {
    if kind == TASKSTATS_CMD_ATTR_PID {
        match parse_id(kind, payload) {
            Ok(v) => Ok(TaskStatsCmdAttrsView::Pid(v)),
            Err(e) => Err(e),
        }
    } else if kind == TASKSTATS_CMD_ATTR_TGID {
        match parse_id(kind, payload) {
            Ok(v) => Ok(TaskStatsCmdAttrsView::TGid(v)),
            Err(e) => Err(e),
        }
    } else if kind == TASKSTATS_CMD_ATTR_REGISTER_CPUMASK {
        match parse_mask(kind, payload) {
            Ok(s) => Ok(TaskStatsCmdAttrsView::RegisterCPUMask(s)),
            Err(e) => Err(e),
        }
    } else if kind == TASKSTATS_CMD_ATTR_DEREGISTER_CPUMASK {
        match parse_mask(kind, payload) {
            Ok(s) => Ok(TaskStatsCmdAttrsView::DeRegisterCPUMask(s)),
            Err(e) => Err(e),
        }
    } else {
        Err(TaskStatsError::UnknownKind(kind))
    }
}

/// `netlink_packet_utils::parsers::parse_u32`: a payload of four bytes is read as
/// an integer in the byte order of the machine; any other length is an error.
#[verifier::external_body]
pub(crate) fn nl_parse_u32(payload: &[u8]) -> (result: Result<
    u32,
    netlink_packet_utils::DecodeError,
>)
    ensures
        result is Ok <==> payload@.len() == 4,
        result matches Ok(v) ==> v as nat == native_value(payload@),
{
    netlink_packet_utils::parsers::parse_u32(payload)
}

/// `netlink_packet_utils::parsers::parse_string`: the payload without the NUL
/// that ends it, if one does, is turned into a string; it is an error where those
/// bytes are not UTF-8. The call takes a payload without a NUL as it is: whether
/// one is there is for the caller to test.
#[verifier::external_body]
pub(crate) fn nl_parse_string(payload: &[u8]) -> (result: Result<
    String,
    netlink_packet_utils::DecodeError,
>)
    ensures
        result is Ok <==> valid_utf8(strip_nul(payload@)),
        result matches Ok(s) ==> s@ == decode_utf8(strip_nul(payload@)),
{
    netlink_packet_utils::parsers::parse_string(payload)
}

/// Writes the bytes of `text` and a NUL after them at the start of `buffer`.
fn emit_string(text: &str, buffer: &mut [u8])
    requires
        old(buffer)@.len() >= encode_utf8(text@).len() + 1,
    ensures
        final(buffer)@ == encode_utf8(text@).push(0u8) + old(buffer)@.skip(
            encode_utf8(text@).len() as int + 1,
        ),
{
    let end = put_bytes(buffer, 0, text.as_bytes());
    let end = put_u8(buffer, end, 0);
    assert(buffer@.take(end as int) =~= encode_utf8(text@).push(0u8));
    assert(buffer@ =~= buffer@.take(end as int) + old(buffer)@.skip(end as int));
}

/// Decodes the string that the value `payload` of an attribute of `kind` holds: a
/// value without the NUL at its end is refused before anything is read from it.
fn parse_string_value(kind: u16, payload: &[u8]) -> (result: Result<String, TaskStatsError>)
    ensures
        parse_mask(kind, payload@) == match result {
            Ok(text) => Ok::<Seq<char>, TaskStatsError>(text@),
            Err(e) => Err(e),
        },
{
    if payload.len() == 0 || payload[payload.len() - 1] != 0 {
        return Err(TaskStatsError::MissingTerminator.context(Stage::Value(kind)));
    }
    match nl_parse_string(payload) {
        Ok(text) => Ok(text),
        Err(_) => Err(TaskStatsError::InvalidUtf8.context(Stage::Value(kind))),
    }
}

impl TaskStatsCmdAttrs {
    /// Whether the attribute can be written: whether the two bytes of the length
    /// field can hold the length of its header and value.
    pub fn encodable(&self) -> (yes: bool)
        ensures
            yes == self@.encodable(),
    {
        match self {
            TaskStatsCmdAttrs::Pid(_) => true,
            TaskStatsCmdAttrs::TGid(_) => true,
            TaskStatsCmdAttrs::RegisterCPUMask(s) => s.as_str().as_bytes().len() <= 0xffff
                - NLA_HEADER_SIZE - 1,
            TaskStatsCmdAttrs::DeRegisterCPUMask(s) => s.as_str().as_bytes().len() <= 0xffff
                - NLA_HEADER_SIZE - 1,
        }
    }

    /// The length of the value on the wire, without header and padding.
    pub fn value_len(&self) -> (len: usize)
        requires
            self@.value_len() <= usize::MAX,
        ensures
            len == self@.value_len(),
    {
        match self {
            TaskStatsCmdAttrs::Pid(_) => 4,
            TaskStatsCmdAttrs::TGid(_) => 4,
            TaskStatsCmdAttrs::RegisterCPUMask(s) => s.as_str().len() + 1,
            TaskStatsCmdAttrs::DeRegisterCPUMask(s) => s.as_str().len() + 1,
        }
    }

    /// The kind that stands for the attribute on the wire.
    pub fn kind(&self) -> (kind: u16)
        ensures
            kind == self@.kind(),
    {
        match self {
            TaskStatsCmdAttrs::Pid(_) => TASKSTATS_CMD_ATTR_PID,
            TaskStatsCmdAttrs::TGid(_) => TASKSTATS_CMD_ATTR_TGID,
            TaskStatsCmdAttrs::RegisterCPUMask(_) => TASKSTATS_CMD_ATTR_REGISTER_CPUMASK,
            TaskStatsCmdAttrs::DeRegisterCPUMask(_) => TASKSTATS_CMD_ATTR_DEREGISTER_CPUMASK,
        }
    }

    /// Writes the value at the start of `buffer`, which has to hold at least
    /// `value_len` bytes; what lies after the value stays as it was.
    pub fn emit_value(&self, buffer: &mut [u8])
        requires
            old(buffer)@.len() >= self@.value_len(),
        ensures
            final(buffer)@ == self@.value() + old(buffer)@.skip(self@.value_len() as int),
    {
        match self {
            TaskStatsCmdAttrs::Pid(v) => write_u32(buffer, *v),
            TaskStatsCmdAttrs::TGid(v) => write_u32(buffer, *v),
            TaskStatsCmdAttrs::RegisterCPUMask(s) => emit_string(s.as_str(), buffer),
            TaskStatsCmdAttrs::DeRegisterCPUMask(s) => emit_string(s.as_str(), buffer),
        }
    }

    /// The number of bytes that the attribute takes on the wire: header, value
    /// and padding.
    pub fn buffer_len(&self) -> (len: usize)
        requires
            nla_buffer_len(self@.value_len()) <= usize::MAX,
        ensures
            len == nla_buffer_len(self@.value_len()),
    {
        buffer_len_of(self.value_len())
    }

    /// Writes the attribute at the start of `buffer`, which has to hold at least
    /// `buffer_len` bytes; what lies after the attribute stays as it was.
    pub fn emit(&self, buffer: &mut [u8])
        requires
            self@.encodable(),
            old(buffer)@.len() >= nla_buffer_len(self@.value_len()),
        ensures
            final(buffer)@ == self@.bytes() + old(buffer)@.skip(
                nla_buffer_len(self@.value_len()) as int,
            ),
    {
        let value_len = self.value_len();
        proof {
            self@.lemma_value_len();
            lemma_native_bytes_len((value_len + NLA_HEADER_SIZE) as nat, 2);
            lemma_native_bytes_len(self@.kind() as nat, 2);
        }
        emit_header(self.kind(), value_len, buffer);
        let (_, value_field) = buffer.split_at_mut(NLA_HEADER_SIZE);
        self.emit_value(value_field);
        emit_padding(value_len, buffer);
        assert(buffer@ =~= self@.bytes() + old(buffer)@.skip(
            nla_buffer_len(self@.value_len()) as int,
        ));
    }

    /// Decodes the attribute that `kind` and the value `payload` stand for. A kind
    /// outside the set is refused, and so is a value that is malformed for its
    /// kind: an identifier of another length than four bytes, a string that does
    /// not end in a NUL or is not UTF-8 before it.
    pub fn parse(kind: u16, payload: &[u8]) -> (result: Result<TaskStatsCmdAttrs, TaskStatsError>)
        ensures
            parse_cmd_attr(kind, payload@) == match result {
                Ok(attr) => Ok::<TaskStatsCmdAttrsView, TaskStatsError>(attr@),
                Err(e) => Err(e),
            },
    {
        if kind == TASKSTATS_CMD_ATTR_REGISTER_CPUMASK {
            match parse_string_value(kind, payload) {
                Ok(s) => Ok(TaskStatsCmdAttrs::RegisterCPUMask(s)),
                Err(e) => Err(e),
            }
        } else if kind == TASKSTATS_CMD_ATTR_DEREGISTER_CPUMASK {
            match parse_string_value(kind, payload) {
                Ok(s) => Ok(TaskStatsCmdAttrs::DeRegisterCPUMask(s)),
                Err(e) => Err(e),
            }
        } else if kind == TASKSTATS_CMD_ATTR_PID {
            match nl_parse_u32(payload) {
                Ok(v) => Ok(TaskStatsCmdAttrs::Pid(v)),
                Err(_) => Err(
                    TaskStatsError::InvalidLength { expected: 4, found: payload.len() }.context(
                        Stage::Value(kind),
                    ),
                ),
            }
        } else if kind == TASKSTATS_CMD_ATTR_TGID {
            match nl_parse_u32(payload) {
                Ok(v) => Ok(TaskStatsCmdAttrs::TGid(v)),
                Err(_) => Err(
                    TaskStatsError::InvalidLength { expected: 4, found: payload.len() }.context(
                        Stage::Value(kind),
                    ),
                ),
            }
        } else {
            Err(TaskStatsError::UnknownKind(kind))
        }
    }
}

} // verus!
