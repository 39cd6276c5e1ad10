//! The payload of a taskstats command: which command it is and the attributes
//! that go with it.

use crate::cmd_attrs::{parse_cmd_attr, TaskStatsCmdAttrs, TaskStatsCmdAttrsView};
use crate::command::TaskStatsCmds;
use crate::error::{Stage, TaskStatsError};
use crate::nla::{
    emit_nlas, lemma_emit_nlas_push, lemma_nla_bytes_len, lemma_parse_emitted, nla_buffer_kind,
    nla_buffer_len, nla_buffer_value, nla_encodable, nlas_new, nlas_next, nlas_remaining,
    parse_nlas,
};
use vstd::prelude::*;

verus! {

/// Version of the taskstats protocol that this codec speaks.
pub const TASKSTATS_GENL_VERSION: u8 = 1;

/// What the generic netlink header says of a message: the command byte and the
/// version of the family's protocol.
#[derive(Clone, Copy, Debug, PartialEq, Eq, Structural)]
pub struct GenlHeader {
    /// The command byte.
    pub cmd: u8,
    /// The version of the family's protocol.
    pub version: u8,
}

/// What every generic netlink family tells of its payloads.
pub trait GenlFamily {
    /// The name under which the kernel registers the family.
    fn family_name() -> &'static str;

    /// The number that the kernel gave the family.
    fn family_id(&self) -> u16;

    /// The byte of the command.
    fn command(&self) -> u8;

    /// The version of the family's protocol.
    fn version(&self) -> u8;
}

/// The payload of a taskstats command.
#[derive(Clone, Debug, PartialEq, Eq)]
pub struct TaskStatsCmd {
    /// The command.
    pub cmd: TaskStatsCmds,
    /// The attributes, in the order in which they go on the wire.
    pub nlas: Vec<TaskStatsCmdAttrs>,
    /// The number that the kernel gave the family. The wire does not carry it:
    /// a decoded payload has 0 here until the caller fills it in.
    pub family_id: u16,
}

/// A payload as contracts see it.
pub ghost struct TaskStatsCmdView {
    pub cmd: TaskStatsCmds,
    pub nlas: Seq<TaskStatsCmdAttrsView>,
    pub family_id: u16,
}

/// Attributes as contracts see them.
pub open spec fn attrs_view(nlas: Seq<TaskStatsCmdAttrs>) -> Seq<TaskStatsCmdAttrsView> {
    Seq::new(nlas.len(), |i: int| nlas[i]@)
}

/// Each attribute as the kind and the value that it is written with.
pub open spec fn attr_records(nlas: Seq<TaskStatsCmdAttrsView>) -> Seq<(u16, Seq<u8>)> {
    Seq::new(nlas.len(), |i: int| (nlas[i].kind(), nlas[i].value()))
}

/// The number of bytes that the first `count` attributes take on the wire: for
/// each its header and its value padded to a multiple of four.
pub open spec fn attrs_buffer_len(nlas: Seq<TaskStatsCmdAttrsView>, count: nat) -> nat
    decreases count,
{
    if count == 0 {
        0
    } else {
        attrs_buffer_len(nlas, (count - 1) as nat) + nla_buffer_len(nlas[count - 1].value_len())
    }
}

impl View for TaskStatsCmd {
    type V = TaskStatsCmdView;

    open spec fn view(&self) -> TaskStatsCmdView {
        TaskStatsCmdView { cmd: self.cmd, nlas: attrs_view(self.nlas@), family_id: self.family_id }
    }
}

impl TaskStatsCmdView {
    /// Whether every attribute can be written.
    pub open spec fn encodable(self) -> bool {
        forall|i: int| 0 <= i < self.nlas.len() ==> (#[trigger] self.nlas[i]).encodable()
    }

    /// The number of bytes that the attributes take on the wire.
    pub open spec fn buffer_len(self) -> nat {
        attrs_buffer_len(self.nlas, self.nlas.len())
    }

    /// The attributes on the wire, one after the other.
    pub open spec fn bytes(self) -> Seq<u8> {
        emit_nlas(attr_records(self.nlas))
    }

    /// The first `count` attributes are written as `attrs_buffer_len` says.
    pub proof fn lemma_bytes_len(self, count: nat)
        requires
            count <= self.nlas.len(),
        ensures
            emit_nlas(attr_records(self.nlas.take(count as int))).len() == attrs_buffer_len(
                self.nlas,
                count,
            ),
        decreases count,
    {
        if count == 0 {
            assert(attr_records(self.nlas.take(0)) =~= Seq::empty());
        } else {
            let before = attr_records(self.nlas.take(count - 1));
            let last = self.nlas[count - 1];
            self.lemma_bytes_len((count - 1) as nat);
            lemma_emit_nlas_push(before, (last.kind(), last.value()));
            assert(attr_records(self.nlas.take(count as int)) =~= before.push(
                (last.kind(), last.value()),
            ));
            last.lemma_value_len();
            lemma_nla_bytes_len(last.kind(), last.value());
        }
    }

    /// Decoding what a payload is written as, under the byte of its command,
    /// gives the payload back, with 0 for the family's number.
    pub proof fn lemma_round_trip(self, version: u8)
        requires
            self.encodable(),
        ensures
            parse_payload(self.bytes(), GenlHeader { cmd: self.cmd.code(), version }) == Ok::<
                TaskStatsCmdView,
                TaskStatsError,
            >(TaskStatsCmdView { cmd: self.cmd, nlas: self.nlas, family_id: 0 }),
    {
        self.cmd.lemma_code_round_trip();
        let records = attr_records(self.nlas);
        assert forall|i: int| 0 <= i < records.len() implies parse_cmd_attr(
            records[i].0,
            records[i].1,
        ) == Ok::<TaskStatsCmdAttrsView, TaskStatsError>(self.nlas[i]) by {
            self.nlas[i].lemma_value_round_trip();
        }
        assert forall|i: int| 0 <= i < records.len() implies nla_encodable(
            records[i].0,
            records[i].1.len(),
        ) by {
            self.nlas[i].lemma_value_len();
            assert(self.nlas[i].encodable());
        }
        lemma_parse_emitted(
            records,
            |kind: u16, value: Seq<u8>| parse_cmd_attr(kind, value),
            self.nlas,
        );
    }
}

/// The attributes of a command that `bytes` hold, or the failure to decode them
/// as a failure of this stage.
pub open spec fn parse_cmd_nlas(bytes: Seq<u8>) -> Result<
    Seq<TaskStatsCmdAttrsView>,
    TaskStatsError,
> {
    match parse_nlas(bytes, |kind: u16, value: Seq<u8>| parse_cmd_attr(kind, value)) {
        Ok(nlas) => Ok(nlas),
        Err(e) => Err(TaskStatsError::Context { stage: Stage::Attributes, cause: Box::new(e) }),
    }
}

/// The payload that `bytes` hold under `header`. The command byte is looked at
/// first; the wire does not carry the family's number, which is 0.
pub open spec fn parse_payload(bytes: Seq<u8>, header: GenlHeader) -> Result<
    TaskStatsCmdView,
    TaskStatsError,
> {
    match TaskStatsCmds::from_code(header.cmd) {
        None => Err(TaskStatsError::UnknownCommand(header.cmd)),
        Some(cmd) => match parse_cmd_nlas(bytes) {
            Ok(nlas) => Ok(TaskStatsCmdView { cmd, nlas, family_id: 0 }),
            Err(e) => Err(e),
        },
    }
}

/// Decodes the attributes of a command that `buf` holds, in the order of the
/// buffer. The first thing that is wrong in that order is reported, as a failure
/// to decode the attributes.
pub fn parse_taskstat_nlas(buf: &[u8]) -> (result: Result<Vec<TaskStatsCmdAttrs>, TaskStatsError>)
    ensures
        parse_cmd_nlas(buf@) == match result {
            Ok(nlas) => Ok::<Seq<TaskStatsCmdAttrsView>, TaskStatsError>(attrs_view(nlas@)),
            Err(e) => Err(e),
        },
{
    let ghost parse = |kind: u16, value: Seq<u8>| parse_cmd_attr(kind, value);
    let mut it = nlas_new(buf);
    let mut nlas: Vec<TaskStatsCmdAttrs> = Vec::new();
    assert(attrs_view(nlas@) + parse_nlas(buf@, parse)->Ok_0 =~= parse_nlas(buf@, parse)->Ok_0);
    loop
        invariant
            parse == (|kind: u16, value: Seq<u8>| parse_cmd_attr(kind, value)),
            parse_nlas(buf@, parse) == match parse_nlas(nlas_remaining(it), parse) {
                Ok(rest) => Ok::<Seq<TaskStatsCmdAttrsView>, TaskStatsError>(
                    attrs_view(nlas@) + rest,
                ),
                Err(e) => Err(e),
            },
        decreases nlas_remaining(it).len(),
    {
        let ghost before = nlas_remaining(it);
        let ghost seen = attrs_view(nlas@);
        match nlas_next(&mut it) {
            None => {
                assert(seen + Seq::<TaskStatsCmdAttrsView>::empty() =~= seen);
                return Ok(nlas);
            },
            Some(Err(_)) => {
                return Err(TaskStatsError::MalformedNla.context(Stage::Attributes));
            },
            Some(Ok(nla)) => {
                let parsed = TaskStatsCmdAttrs::parse(
                    nla_buffer_kind(&nla),
                    nla_buffer_value(&nla),
                );
                match parsed {
                    Err(e) => {
                        return Err(e.context(Stage::Attributes));
                    },
                    Ok(attr) => {
                        nlas.push(attr);
                        proof {
                            assert(attrs_view(nlas@) =~= seen.push(attr@));
                            if let Ok(rest) = parse_nlas(nlas_remaining(it), parse) {
                                assert(seen + (seq![attr@] + rest) =~= seen.push(attr@) + rest);
                            }
                        }
                    },
                }
            },
        }
    }
}

impl GenlFamily for TaskStatsCmd {
    /// The name under which the kernel registers the family.
    fn family_name() -> (name: &'static str)
        ensures
            name@ == "taskstats"@,
    {
        "taskstats"
    }

    /// The number that the kernel gave the family, as the caller filled it in.
    fn family_id(&self) -> (id: u16)
        ensures
            id == self.family_id,
    {
        self.family_id
    }

    /// The byte of the command.
    fn command(&self) -> (byte: u8)
        ensures
            byte == self.cmd.code(),
    {
        u8::from(self.cmd)
    }

    /// The version of the family's protocol.
    fn version(&self) -> (version: u8)
        ensures
            version == TASKSTATS_GENL_VERSION,
    {
        TASKSTATS_GENL_VERSION
    }
}

impl TaskStatsCmd {
    /// Whether the payload can be written: whether every attribute can.
    pub fn encodable(&self) -> (yes: bool)
        ensures
            yes == self@.encodable(),
    {
        let mut i: usize = 0;
        while i < self.nlas.len()
            invariant
                i <= self.nlas.len(),
                forall|j: int| 0 <= j < i ==> (#[trigger] self@.nlas[j]).encodable(),
            decreases self.nlas.len() - i,
        {
            if !self.nlas[i].encodable() {
                assert(!self@.nlas[i as int].encodable());
                return false;
            }
            i = i + 1;
        }
        true
    }

    /// The number of bytes that the attributes take on the wire.
    pub fn buffer_len(&self) -> (len: usize)
        requires
            self@.buffer_len() <= usize::MAX,
        ensures
            len == self@.buffer_len(),
    {
        let mut len: usize = 0;
        let mut i: usize = 0;
        while i < self.nlas.len()
            invariant
                i <= self.nlas.len(),
                len == attrs_buffer_len(self@.nlas, i as nat),
                self@.buffer_len() <= usize::MAX,
            decreases self.nlas.len() - i,
        {
            proof {
                lemma_buffer_len_monotonic(self@.nlas, (i + 1) as nat, self@.nlas.len());
            }
            len = len + self.nlas[i].buffer_len();
            i = i + 1;
        }
        len
    }

    /// Writes the attributes, one after the other, at the start of `buffer`,
    /// which has to hold at least `buffer_len` bytes; what lies after them stays
    /// as it was.
    pub fn emit(&self, buffer: &mut [u8])
        requires
            self@.encodable(),
            old(buffer)@.len() >= self@.buffer_len(),
        ensures
            final(buffer)@ == self@.bytes() + old(buffer)@.skip(self@.buffer_len() as int),
    {
        let mut start: usize = 0;
        let mut i: usize = 0;
        assert(self@.nlas.take(0) =~= Seq::empty());
        assert(buffer@ =~= emit_nlas(attr_records(self@.nlas.take(0))) + old(buffer)@.skip(0));
        assert(buffer@.len() == buffer.len());
        while i < self.nlas.len()
            invariant
                i <= self.nlas.len(),
                self@.encodable(),
                start == attrs_buffer_len(self@.nlas, i as nat),
                buffer@.len() == old(buffer)@.len(),
                self@.buffer_len() <= buffer@.len() <= usize::MAX,
                buffer@ == emit_nlas(attr_records(self@.nlas.take(i as int))) + old(buffer)@.skip(
                    start as int,
                ),
            decreases self.nlas.len() - i,
        {
            let ghost before = attr_records(self@.nlas.take(i as int));
            let ghost attr = self@.nlas[i as int];
            proof {
                lemma_buffer_len_monotonic(self@.nlas, (i + 1) as nat, self@.nlas.len());
                self@.lemma_bytes_len(i as nat);
                lemma_emit_nlas_push(before, (attr.kind(), attr.value()));
                assert(attr_records(self@.nlas.take(i + 1)) =~= before.push(
                    (attr.kind(), attr.value()),
                ));
                assert(attr.encodable());
                attr.lemma_value_len();
                lemma_nla_bytes_len(attr.kind(), attr.value());
            }
            let attr_len = self.nlas[i].buffer_len();
            let (_, tail) = buffer.split_at_mut(start);
            self.nlas[i].emit(tail);
            assert(buffer@ =~= emit_nlas(attr_records(self@.nlas.take(i + 1))) + old(
                buffer,
            )@.skip(start + attr_len));
            start = start + attr_len;
            i = i + 1;
        }
        assert(self@.nlas.take(self@.nlas.len() as int) =~= self@.nlas);
    }

    /// Decodes the payload that `buf` holds under `header`. The command byte is
    /// looked at first and refused where it stands for no command; then the
    /// attributes are decoded. The family's number is left at 0.
    pub fn parse_with_param(buf: &[u8], header: GenlHeader) -> (result: Result<
        TaskStatsCmd,
        TaskStatsError,
    >)
        ensures
            parse_payload(buf@, header) == match result {
                Ok(payload) => Ok::<TaskStatsCmdView, TaskStatsError>(payload@),
                Err(e) => Err(e),
            },
    {
        let cmd = match TaskStatsCmds::try_from(header.cmd) {
            Ok(cmd) => cmd,
            Err(e) => {
                return Err(e);
            },
        };
        let nlas = match parse_taskstat_nlas(buf) {
            Ok(nlas) => nlas,
            Err(e) => {
                return Err(e);
            },
        };
        Ok(TaskStatsCmd { cmd, nlas, family_id: 0 })
    }
}

/// The first attributes of a payload take no more bytes than more of them do.
pub proof fn lemma_buffer_len_monotonic(nlas: Seq<TaskStatsCmdAttrsView>, fewer: nat, more: nat)
    requires
        fewer <= more,
    ensures
        attrs_buffer_len(nlas, fewer) <= attrs_buffer_len(nlas, more),
    decreases more,
{
    if fewer < more {
        lemma_buffer_len_monotonic(nlas, fewer, (more - 1) as nat);
    }
}

} // verus!
