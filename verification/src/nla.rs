//! Attributes on the wire: records of a length, a kind and a value, each padded
//! to a multiple of four bytes.

use crate::error::TaskStatsError;
use crate::native::{
    lemma_native_bytes_len, lemma_native_round_trip, lemma_radix_values, native_at, native_bytes,
    write_u16, zeros,
};
use netlink_packet_utils::nla::{NlaBuffer, NlasIterator};
use vstd::prelude::*;
use vstd::slice::slice_to_vec;

verus! {

/// Length of the header of an attribute: its length and its kind, two bytes each.
pub const NLA_HEADER_SIZE: usize = 4;

/// The bits of the kind field that hold the kind; the two above them are flags.
pub const NLA_TYPE_MASK: u16 = 0x3fff;

/// The length that the attribute at the start of `bytes` declares: that of its
/// header and its value, without the padding after it.
pub open spec fn nla_length(bytes: Seq<u8>) -> nat {
    native_at(bytes, 0, 2)
}

/// The kind of the attribute at the start of `bytes`, without the flags.
pub open spec fn nla_kind(bytes: Seq<u8>) -> u16 {
    (native_at(bytes, 2, 2) as u16) & NLA_TYPE_MASK
}

/// Whether `bytes` start with a whole attribute: the header fits, the length it
/// declares covers the header and the buffer holds that many bytes.
pub open spec fn nla_well_formed(bytes: Seq<u8>) -> bool {
    &&& bytes.len() >= NLA_HEADER_SIZE
    &&& NLA_HEADER_SIZE <= nla_length(bytes) <= bytes.len()
}

/// The value of the attribute at the start of `bytes`.
pub open spec fn nla_value(bytes: Seq<u8>) -> Seq<u8> {
    bytes.subrange(NLA_HEADER_SIZE as int, nla_length(bytes) as int)
}

/// `len` rounded up to a multiple of four.
pub open spec fn nla_align(len: nat) -> nat {
    ((len + 3) / 4 * 4) as nat
}

/// What follows the attribute at the start of `bytes` and its padding; nothing
/// where the buffer ends before the padding does.
pub open spec fn nla_rest(bytes: Seq<u8>) -> Seq<u8> {
    if nla_align(nla_length(bytes)) >= bytes.len() {
        Seq::empty()
    } else {
        bytes.skip(nla_align(nla_length(bytes)) as int)
    }
}

/// The length of an attribute with a value of `value_len` bytes: header, value
/// and the padding that brings it to a multiple of four.
pub open spec fn nla_buffer_len(value_len: nat) -> nat {
    nla_align(value_len) + NLA_HEADER_SIZE as nat
}

/// The header of an attribute of the given kind with a value of `value_len`
/// bytes: the length of header and value, then the kind, each as two bytes in the
/// byte order of the machine.
pub open spec fn nla_header(kind: u16, value_len: nat) -> Seq<u8> {
    native_bytes(value_len + NLA_HEADER_SIZE as nat, 2) + native_bytes(kind as nat, 2)
}

/// An attribute on the wire: its header, its value, and zeros up to the next
/// multiple of four.
pub open spec fn nla_bytes(kind: u16, value: Seq<u8>) -> Seq<u8> {
    nla_header(kind, value.len()) + value + zeros((nla_align(value.len()) - value.len()) as nat)
}

/// Whether an attribute of this kind and with a value of this length can be
/// written: the kind leaves the two flag bits clear, and header and value
/// together have a length that two bytes can hold.
pub open spec fn nla_encodable(kind: u16, value_len: nat) -> bool {
    &&& kind <= NLA_TYPE_MASK
    &&& value_len + NLA_HEADER_SIZE <= u16::MAX
}

/// The number of bytes that an attribute with a value of `value_len` bytes takes
/// in a buffer.
pub fn buffer_len_of(value_len: usize) -> (len: usize)
    requires
        nla_buffer_len(value_len as nat) <= usize::MAX,
    ensures
        len == nla_buffer_len(value_len as nat),
{
    (value_len + 3) / 4 * 4 + NLA_HEADER_SIZE
}

/// Writes the header of an attribute at the start of `buffer`; what lies after
/// the header stays as it was.
pub fn emit_header(kind: u16, value_len: usize, buffer: &mut [u8])
    requires
        nla_encodable(kind, value_len as nat),
        old(buffer)@.len() >= NLA_HEADER_SIZE,
    ensures
        final(buffer)@ == nla_header(kind, value_len as nat) + old(buffer)@.skip(
            NLA_HEADER_SIZE as int,
        ),
{
    proof {
        lemma_native_bytes_len((value_len + NLA_HEADER_SIZE) as nat, 2);
        lemma_native_bytes_len(kind as nat, 2);
    }
    write_u16(buffer, (value_len + NLA_HEADER_SIZE) as u16);
    let (_, kind_field) = buffer.split_at_mut(2);
    write_u16(kind_field, kind);
    assert(buffer@ =~= nla_header(kind, value_len as nat) + old(buffer)@.skip(
        NLA_HEADER_SIZE as int,
    ));
}

/// Writes the padding of an attribute with a value of `value_len` bytes: zeros
/// from the end of the value to the next multiple of four. `buffer` starts where
/// the attribute does; everything else in it stays as it was.
pub fn emit_padding(value_len: usize, buffer: &mut [u8])
    requires
        old(buffer)@.len() >= nla_buffer_len(value_len as nat),
    ensures
        final(buffer)@ == old(buffer)@.take(NLA_HEADER_SIZE + value_len) + zeros(
            (nla_align(value_len as nat) - value_len) as nat,
        ) + old(buffer)@.skip(nla_buffer_len(value_len as nat) as int),
{
    assert(buffer@.len() == buffer.len());
    let end = buffer_len_of(value_len);
    let mut i: usize = NLA_HEADER_SIZE + value_len;
    while i < end
        invariant
            NLA_HEADER_SIZE + value_len <= i <= end,
            end == nla_buffer_len(value_len as nat),
            end <= buffer@.len(),
            buffer@.len() == old(buffer)@.len(),
            forall|j: int| NLA_HEADER_SIZE + value_len <= j < i ==> buffer@[j] == 0,
            forall|j: int|
                0 <= j < buffer@.len() && !(NLA_HEADER_SIZE + value_len <= j < i) ==> buffer@[j]
                    == old(buffer)@[j],
        decreases end - i,
    {
        buffer[i] = 0;
        i = i + 1;
    }
    assert(buffer@ =~= old(buffer)@.take(NLA_HEADER_SIZE + value_len) + zeros(
        (nla_align(value_len as nat) - value_len) as nat,
    ) + old(buffer)@.skip(nla_buffer_len(value_len as nat) as int));
}

/// `netlink_packet_utils::nla::NlasIterator`, which goes over the attributes of a
/// buffer. Nothing is known of what it holds but what `nlas_remaining` names.
#[verifier::external_type_specification]
#[verifier::external_body]
#[verifier::reject_recursive_types(T)]
pub struct ExNlasIterator<T>(NlasIterator<T>);

/// One attribute as the iterator hands it out: a
/// `netlink_packet_utils::nla::NlaBuffer`, kept as it came. Nothing is known of
/// what it holds but what `nla_buffer_bytes` names.
#[verifier::external_body]
pub struct RawNla<'a> {
    inner: NlaBuffer<&'a [u8]>,
}

/// `netlink_packet_utils::DecodeError`, the failure of the calls into that crate.
/// Nothing is read from it: which failure it is follows from when the call fails.
#[verifier::external_type_specification]
#[verifier::external_body]
pub struct ExDecodeError(netlink_packet_utils::DecodeError);

/// The bytes that an iterator has not gone over yet.
pub uninterp spec fn nlas_remaining(it: NlasIterator<&[u8]>) -> Seq<u8>;

/// The bytes that an attribute buffer holds: those of its attribute and all that
/// follow it.
pub uninterp spec fn nla_buffer_bytes(nla: RawNla) -> Seq<u8>;

/// `NlasIterator::new`: an iterator that has all of `buf` before it.
#[verifier::external_body]
pub(crate) fn nlas_new<'a>(buf: &'a [u8]) -> (it: NlasIterator<&'a [u8]>)
    ensures
        nlas_remaining(it) == buf@,
{
    NlasIterator::new(buf)
}

/// `NlasIterator::next`. With nothing left it gives `None`. Where what is left
/// starts with a whole attribute it gives a buffer that holds what is left, and
/// moves past the attribute and its padding. Else it gives an error and
/// leaves nothing to go over.
#[verifier::external_body]
pub(crate) fn nlas_next<'a>(it: &mut NlasIterator<&'a [u8]>) -> (item: Option<
    Result<RawNla<'a>, netlink_packet_utils::DecodeError>,
>)
    ensures
        item is None <==> nlas_remaining(*old(it)).len() == 0,
        item is None ==> nlas_remaining(*final(it)) == nlas_remaining(*old(it)),
        item matches Some(Ok(_)) <==> nlas_remaining(*old(it)).len() > 0 && nla_well_formed(
            nlas_remaining(*old(it)),
        ),
        item matches Some(Ok(nla)) ==> nla_buffer_bytes(nla) == nlas_remaining(*old(it))
            && nlas_remaining(*final(it)) == nla_rest(nlas_remaining(*old(it))),
        item matches Some(Err(_)) ==> nlas_remaining(*final(it)).len() == 0,
{
    it.next().map(|item| item.map(|inner| RawNla { inner }))
}

/// `NlaBuffer::kind`: the kind field without its two flag bits. The call panics
/// on a buffer of fewer than four bytes.
#[verifier::external_body]
pub(crate) fn nla_buffer_kind(nla: &RawNla) -> (kind: u16)
    requires
        nla_buffer_bytes(*nla).len() >= NLA_HEADER_SIZE,
    ensures
        kind == nla_kind(nla_buffer_bytes(*nla)),
{
    nla.inner.kind()
}

/// `NlaBuffer::value`: the bytes between the header and the declared length. The
/// call panics where the declared length is below four or beyond the buffer.
#[verifier::external_body]
pub(crate) fn nla_buffer_value<'a>(nla: &'a RawNla) -> (value: &'a [u8])
    requires
        nla_well_formed(nla_buffer_bytes(*nla)),
    ensures
        value@ == nla_value(nla_buffer_bytes(*nla)),
{
    nla.inner.value()
}

/// The attributes that `bytes` hold, each as its kind and its value, in the order
/// in which they lie there; `None` where the bytes do not split into whole
/// attributes. The last attribute may lack its padding.
pub open spec fn scan_nlas(bytes: Seq<u8>) -> Option<Seq<(u16, Seq<u8>)>>
    decreases bytes.len(),
{
    if bytes.len() == 0 {
        Some(Seq::empty())
    } else if !nla_well_formed(bytes) {
        None
    } else {
        match scan_nlas(nla_rest(bytes)) {
            Some(rest) => Some(seq![(nla_kind(bytes), nla_value(bytes))] + rest),
            None => None,
        }
    }
}

/// The bytes of a run of attributes, each given as its kind and its value: one
/// padded attribute after the other.
pub open spec fn emit_nlas(records: Seq<(u16, Seq<u8>)>) -> Seq<u8>
    decreases records.len(),
{
    if records.len() == 0 {
        Seq::empty()
    } else {
        nla_bytes(records[0].0, records[0].1) + emit_nlas(records.drop_first())
    }
}

/// Whether every attribute of a run can be written.
pub open spec fn all_encodable(records: Seq<(u16, Seq<u8>)>) -> bool {
    forall|i: int| 0 <= i < records.len() ==> nla_encodable(records[i].0, records[i].1.len())
}

/// Records as contracts see them: each value as the sequence of its bytes.
pub open spec fn records_view(records: Seq<(u16, Vec<u8>)>) -> Seq<(u16, Seq<u8>)> {
    Seq::new(records.len(), |i: int| (records[i].0, records[i].1@))
}

/// An attribute is written as `nla_buffer_len` bytes.
pub proof fn lemma_nla_bytes_len(kind: u16, value: Seq<u8>)
    ensures
        nla_bytes(kind, value).len() == nla_buffer_len(value.len()),
{
    lemma_native_bytes_len((value.len() + NLA_HEADER_SIZE) as nat, 2);
    lemma_native_bytes_len(kind as nat, 2);
}

/// A written attribute, followed by anything, reads as itself: it is whole, has
/// the kind and the value it was written with, and what follows its padding is
/// what was put after it.
pub proof fn lemma_nla_bytes_read_back(kind: u16, value: Seq<u8>, after: Seq<u8>)
    requires
        nla_encodable(kind, value.len()),
    ensures
        nla_bytes(kind, value).len() == nla_buffer_len(value.len()),
        nla_well_formed(nla_bytes(kind, value) + after),
        nla_length(nla_bytes(kind, value) + after) == value.len() + NLA_HEADER_SIZE,
        nla_kind(nla_bytes(kind, value) + after) == kind,
        nla_value(nla_bytes(kind, value) + after) == value,
        nla_rest(nla_bytes(kind, value) + after) == after,
{
    let bytes = nla_bytes(kind, value) + after;
    let length = (value.len() + NLA_HEADER_SIZE) as nat;
    lemma_radix_values();
    lemma_native_round_trip(length, 2);
    lemma_native_round_trip(kind as nat, 2);
    assert(bytes.subrange(0, 2) =~= native_bytes(length, 2));
    assert(bytes.subrange(2, 4) =~= native_bytes(kind as nat, 2));
    assert(kind & NLA_TYPE_MASK == kind) by (bit_vector)
        requires
            kind <= NLA_TYPE_MASK,
    ;
    assert(nla_value(bytes) =~= value);
    assert(nla_align(length) == nla_buffer_len(value.len()));
    assert(nla_rest(bytes) =~= after);
}

/// What was written is read back: a run of attributes that can be written scans
/// as those attributes, as many as were written and in the same order.
pub proof fn lemma_scan_emitted(records: Seq<(u16, Seq<u8>)>)
    requires
        all_encodable(records),
    ensures
        scan_nlas(emit_nlas(records)) == Some(records),
    decreases records.len(),
{
    if records.len() > 0 {
        let rest = records.drop_first();
        lemma_nla_bytes_read_back(records[0].0, records[0].1, emit_nlas(rest));
        lemma_scan_emitted(rest);
        assert(seq![records[0]] + rest =~= records);
    }
}

/// A run of attributes that is cut inside one of them does not scan: no cut
/// attribute is handed out as if it were whole. The cut lies `cut` bytes into
/// the attribute at `index`, after its first byte and before the end of its
/// value.
pub proof fn lemma_scan_truncated(records: Seq<(u16, Seq<u8>)>, index: int, cut: int)
    requires
        all_encodable(records),
        0 <= index < records.len(),
        0 < cut < NLA_HEADER_SIZE + records[index].1.len(),
    ensures
        emit_nlas(records.take(index)).len() + cut < emit_nlas(records).len(),
        scan_nlas(emit_nlas(records).take(emit_nlas(records.take(index)).len() + cut)) is None,
    decreases index,
{
    let rest = records.drop_first();
    let first = nla_bytes(records[0].0, records[0].1);
    let after = emit_nlas(rest);
    lemma_nla_bytes_read_back(records[0].0, records[0].1, after);
    if index == 0 {
        assert(emit_nlas(records.take(0)).len() == 0);
        let bytes = emit_nlas(records).take(cut);
        if cut >= NLA_HEADER_SIZE {
            assert(bytes.subrange(0, 2) =~= (first + after).subrange(0, 2));
        }
    } else {
        lemma_scan_truncated(rest, index - 1, cut);
        assert(records.take(index).drop_first() =~= rest.take(index - 1));
        let start = emit_nlas(rest.take(index - 1)).len();
        assert(emit_nlas(records.take(index)).len() == first.len() + start);
        let tail = after.take(start + cut);
        assert(emit_nlas(records).take(first.len() + start + cut) =~= first + tail);
        lemma_nla_bytes_read_back(records[0].0, records[0].1, tail);
    }
}

/// Splits `buf` into its attributes, each as its kind and a copy of its value,
/// in the order of the buffer. It fails where the buffer does not split into
/// whole attributes.
pub fn collect_nlas(buf: &[u8]) -> (result: Result<Vec<(u16, Vec<u8>)>, TaskStatsError>)
    ensures
        match result {
            Ok(records) => scan_nlas(buf@) == Some(records_view(records@)),
            Err(e) => scan_nlas(buf@) is None && e == TaskStatsError::MalformedNla,
        },
{
    let mut it = nlas_new(buf);
    let mut records: Vec<(u16, Vec<u8>)> = Vec::new();
    assert(records_view(records@) + scan_nlas(buf@).unwrap() =~= scan_nlas(buf@).unwrap());
    loop
        invariant
            scan_nlas(buf@) == match scan_nlas(nlas_remaining(it)) {
                Some(rest) => Some(records_view(records@) + rest),
                None => None,
            },
        decreases nlas_remaining(it).len(),
    {
        let ghost before = nlas_remaining(it);
        let ghost seen = records_view(records@);
        match nlas_next(&mut it) {
            None => {
                assert(seen + Seq::<(u16, Seq<u8>)>::empty() =~= seen);
                return Ok(records);
            },
            Some(Err(_)) => {
                return Err(TaskStatsError::MalformedNla);
            },
            Some(Ok(nla)) => {
                let kind = nla_buffer_kind(&nla);
                let value = slice_to_vec(nla_buffer_value(&nla));
                records.push((kind, value));
                proof {
                    let record = (nla_kind(before), nla_value(before));
                    assert(records_view(records@) =~= seen.push(record));
                    if let Some(rest) = scan_nlas(nlas_remaining(it)) {
                        assert(seen + (seq![record] + rest) =~= seen.push(record) + rest);
                    }
                }
            },
        }
    }
}

/// The attributes that `bytes` hold, each decoded by `parse` from its kind and
/// its value, in the order in which they lie there. The first thing that is
/// wrong in that order decides the failure: a header that does not fit what is
/// left of the buffer, or an attribute that `parse` refuses.
pub open spec fn parse_nlas<A>(
    bytes: Seq<u8>,
    parse: spec_fn(u16, Seq<u8>) -> Result<A, TaskStatsError>,
) -> Result<Seq<A>, TaskStatsError>
    decreases bytes.len(),
{
    if bytes.len() == 0 {
        Ok(Seq::empty())
    } else if !nla_well_formed(bytes) {
        Err(TaskStatsError::MalformedNla)
    } else {
        match parse(nla_kind(bytes), nla_value(bytes)) {
            Err(e) => Err(e),
            Ok(attr) => match parse_nlas(nla_rest(bytes), parse) {
                Ok(rest) => Ok(seq![attr] + rest),
                Err(e) => Err(e),
            },
        }
    }
}

/// A run of attributes with one more at its end is written as the run and then
/// that attribute.
pub proof fn lemma_emit_nlas_push(records: Seq<(u16, Seq<u8>)>, last: (u16, Seq<u8>))
    ensures
        emit_nlas(records.push(last)) == emit_nlas(records) + nla_bytes(last.0, last.1),
    decreases records.len(),
{
    if records.len() == 0 {
        assert(records.push(last).drop_first() =~= records);
        assert(emit_nlas(records.push(last)) =~= emit_nlas(records) + nla_bytes(last.0, last.1));
    } else {
        lemma_emit_nlas_push(records.drop_first(), last);
        assert(records.push(last).drop_first() =~= records.drop_first().push(last));
        assert(emit_nlas(records.push(last)) =~= emit_nlas(records) + nla_bytes(last.0, last.1));
    }
}

/// Where `parse` accepts every attribute of a run that can be written, decoding
/// the written run gives what `parse` makes of each attribute, in order.
pub proof fn lemma_parse_emitted<A>(
    records: Seq<(u16, Seq<u8>)>,
    parse: spec_fn(u16, Seq<u8>) -> Result<A, TaskStatsError>,
    attrs: Seq<A>,
)
    requires
        all_encodable(records),
        attrs.len() == records.len(),
        forall|i: int|
            0 <= i < records.len() ==> parse(records[i].0, records[i].1) == Ok::<A, TaskStatsError>(
                attrs[i],
            ),
    ensures
        parse_nlas(emit_nlas(records), parse) == Ok::<Seq<A>, TaskStatsError>(attrs),
    decreases records.len(),
{
    if records.len() == 0 {
        assert(attrs =~= Seq::empty());
    } else {
        let rest = records.drop_first();
        lemma_nla_bytes_read_back(records[0].0, records[0].1, emit_nlas(rest));
        lemma_parse_emitted(rest, parse, attrs.drop_first());
        assert(seq![attrs[0]] + attrs.drop_first() =~= attrs);
    }
}

} // verus!
