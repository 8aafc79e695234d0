//! Binary record codec: two record shapes, `CItem` and `SItem`, laid out on
//! the wire as a fixed sequence of fields with explicit little-endian length
//! prefixes and no padding.

use vstd::prelude::*;
use vstd::bytes::*;
use vstd::slice::{slice_subrange, slice_to_vec};

verus! {

/// Byte width of every length prefix on the wire: a fixed 64-bit
/// little-endian field, the same on every host.
pub const LEN_PREFIX_BYTES: usize = 8;

/// Smallest possible `CItem` record: four length prefixes, the action byte
/// and the priority, with every variable-length field empty.
pub const CITEM_MIN_LEN: usize = 4 * LEN_PREFIX_BYTES + 2 + 1;

/// Smallest possible `SItem` record: two length prefixes, the action byte
/// and the index, with every variable-length field empty.
pub const SITEM_MIN_LEN: usize = 2 * LEN_PREFIX_BYTES + 2 + 1;

/// The operation a record asks of a table; one byte on the wire, values 0-3.
#[derive(Clone, Copy, Debug, PartialEq, Eq, Structural)]
pub enum Actions {
    Noop,
    Add,
    Delete,
    Query,
}

/// The single byte that stands for `a` on the wire.
pub open spec fn action_byte(a: Actions) -> u8 {
    match a {
        Actions::Noop => 0,
        Actions::Add => 1,
        Actions::Delete => 2,
        Actions::Query => 3,
    }
}

/// The action a wire byte below 4 stands for.
pub open spec fn action_of_byte(b: u8) -> Actions
    recommends
        b < 4,
{
    if b == 0 {
        Actions::Noop
    } else if b == 1 {
        Actions::Add
    } else if b == 2 {
        Actions::Delete
    } else {
        Actions::Query
    }
}

impl Actions {
    /// The neutral default action.
    pub fn default_instance() -> (r: Actions)
        ensures
            r == Actions::Noop,
    {
        Actions::Noop
    }

    /// The wire byte of this action.
    pub fn to_byte(&self) -> (b: u8)
        ensures
            b == action_byte(*self),
    {
        match self {
            Actions::Noop => 0,
            Actions::Add => 1,
            Actions::Delete => 2,
            Actions::Query => 3,
        }
    }
}

impl Default for Actions {
    fn default() -> (r: Self)
        ensures
            r == Actions::Noop,
    {
        Actions::Noop
    }
}

/// Why a decode rejected its input.  Each truncation of a variable-length
/// field has a kind of its own; `BufferTooShort` covers an input below the
/// minimum record size and a fixed-width field cut off mid-way.
#[derive(Clone, Copy, Debug, PartialEq, Eq, Structural)]
pub enum DecodeError {
    BufferTooShort,
    TruncatedTableId,
    InvalidActionTag,
    TruncatedKey,
    TruncatedMeta,
    TruncatedPayload,
    TruncatedValue,
}

/// The length prefix written before a variable-length field of `n` bytes.
pub open spec fn len_prefix(n: nat) -> Seq<u8> {
    spec_u64_to_le_bytes(n as u64)
}

/// The 64-bit little-endian value stored at `off`.
pub open spec fn read_u64_at(b: Seq<u8>, off: int) -> u64
    recommends
        0 <= off,
        off + 8 <= b.len(),
{
    spec_u64_from_le_bytes(b.subrange(off, off + 8))
}

/// The 16-bit little-endian value stored at `off`.
pub open spec fn read_u16_at(b: Seq<u8>, off: int) -> u16
    recommends
        0 <= off,
        off + 2 <= b.len(),
{
    spec_u16_from_le_bytes(b.subrange(off, off + 2))
}

/// The mathematical value of a `CItem`: each field a plain scalar or byte
/// sequence.
#[verifier::ext_equal]
pub struct CItemV {
    pub table_id: Seq<u8>,
    pub action: Actions,
    pub priority: u16,
    pub key: Seq<u8>,
    pub meta: Seq<u8>,
    pub payload: Seq<u8>,
}

impl CItemV {
    /// Field lengths that an in-memory record can actually have.
    pub open spec fn wf(self) -> bool {
        &&& self.table_id.len() <= usize::MAX
        &&& self.key.len() <= usize::MAX
        &&& self.meta.len() <= usize::MAX
        &&& self.payload.len() <= usize::MAX
    }

    /// The exact wire bytes of this record: table_id, action, priority, key,
    /// meta, payload, each variable-length field behind its length prefix.
    pub open spec fn wire(self) -> Seq<u8> {
        len_prefix(self.table_id.len()) + self.table_id + seq![action_byte(self.action)]
            + spec_u16_to_le_bytes(self.priority) + len_prefix(self.key.len()) + self.key
            + len_prefix(self.meta.len()) + self.meta + len_prefix(self.payload.len())
            + self.payload
    }

    /// What decoding one `CItem` from the front of `b` yields: the record
    /// whose wire bytes are a prefix of `b`, or the error for the first
    /// malformed field.
    pub open spec fn parse(b: Seq<u8>) -> Result<CItemV, DecodeError> {
        if b.len() < CITEM_MIN_LEN {
            Err(DecodeError::BufferTooShort)
        } else {
            let tid_len = read_u64_at(b, 0) as int;
            if b.len() < 8 + tid_len {
                Err(DecodeError::TruncatedTableId)
            } else {
                let oa = 8 + tid_len;
                if b.len() < oa + 1 {
                    Err(DecodeError::BufferTooShort)
                } else if b[oa] >= 4 {
                    Err(DecodeError::InvalidActionTag)
                } else if b.len() < oa + 3 {
                    Err(DecodeError::BufferTooShort)
                } else {
                    let ok = oa + 3;
                    if b.len() < ok + 8 {
                        Err(DecodeError::BufferTooShort)
                    } else {
                        let key_len = read_u64_at(b, ok) as int;
                        if b.len() < ok + 8 + key_len {
                            Err(DecodeError::TruncatedKey)
                        } else {
                            let om = ok + 8 + key_len;
                            if b.len() < om + 8 {
                                Err(DecodeError::BufferTooShort)
                            } else {
                                let meta_len = read_u64_at(b, om) as int;
                                if b.len() < om + 8 + meta_len {
                                    Err(DecodeError::TruncatedMeta)
                                } else {
                                    let op = om + 8 + meta_len;
                                    if b.len() < op + 8 {
                                        Err(DecodeError::BufferTooShort)
                                    } else {
                                        let pay_len = read_u64_at(b, op) as int;
                                        if b.len() < op + 8 + pay_len {
                                            Err(DecodeError::TruncatedPayload)
                                        } else {
                                            Ok(
                                                CItemV {
                                                    table_id: b.subrange(8, 8 + tid_len),
                                                    action: action_of_byte(b[oa]),
                                                    priority: read_u16_at(b, oa + 1),
                                                    key: b.subrange(ok + 8, ok + 8 + key_len),
                                                    meta: b.subrange(om + 8, om + 8 + meta_len),
                                                    payload: b.subrange(op + 8, op + 8 + pay_len),
                                                },
                                            )
                                        }
                                    }
                                }
                            }
                        }
                    }
                }
            }
        }
    }
}

/// Producer-to-consumer control record.  `table_id` holds the UTF-8 bytes of
/// the table's text identifier.
#[derive(Debug, PartialEq, Eq)]
pub struct CItem {
    pub table_id: Vec<u8>,
    pub action: Actions,
    pub priority: u16,
    pub key: Vec<u8>,
    pub meta: Vec<u8>,
    pub payload: Vec<u8>,
}

impl View for CItem {
    type V = CItemV;

    open spec fn view(&self) -> CItemV {
        CItemV {
            table_id: self.table_id@,
            action: self.action,
            priority: self.priority,
            key: self.key@,
            meta: self.meta@,
            payload: self.payload@,
        }
    }
}

/// Appends the length prefix for a field of `n` bytes.
fn append_len_prefix(buffer: &mut Vec<u8>, n: usize)
    ensures
        final(buffer)@ == old(buffer)@ + len_prefix(n as nat),
{
    let mut bs = u64_to_le_bytes(n as u64);
    buffer.append(&mut bs);
}

/// Appends a copy of `data`.
fn append_bytes(buffer: &mut Vec<u8>, data: &Vec<u8>)
    ensures
        final(buffer)@ == old(buffer)@ + data@,
{
    let mut copy = slice_to_vec(data.as_slice());
    buffer.append(&mut copy);
    assert(final(buffer)@ =~= old(buffer)@ + data@);
}

impl CItem {
    /// The default record: empty fields, `Noop`, priority 0.
    pub fn default_instance() -> (r: CItem)
        ensures
            r@.table_id.len() == 0,
            r@.action == Actions::Noop,
            r@.priority == 0,
            r@.key.len() == 0,
            r@.meta.len() == 0,
            r@.payload.len() == 0,
    {
        CItem {
            table_id: Vec::new(),
            action: Actions::Noop,
            priority: 0,
            key: Vec::new(),
            meta: Vec::new(),
            payload: Vec::new(),
        }
    }

    /// A fresh record ready to be filled for a mutation, with the neutral
    /// `Noop` as its action: the one default every record shape shares.
    pub fn new_with_defaults() -> (r: CItem)
        ensures
            r@.table_id.len() == 0,
            r@.action == Actions::Noop,
            r@.priority == 0,
            r@.key.len() == 0,
            r@.meta.len() == 0,
            r@.payload.len() == 0,
    {
        CItem {
            table_id: Vec::new(),
            action: Actions::Noop,
            priority: 0,
            key: Vec::new(),
            meta: Vec::new(),
            payload: Vec::new(),
        }
    }

    /// Appends the wire representation of `self` to `buffer`.
    pub fn pack(&self, buffer: &mut Vec<u8>)
        ensures
            final(buffer)@ == old(buffer)@ + self@.wire(),
    {
        append_len_prefix(buffer, self.table_id.len());
        append_bytes(buffer, &self.table_id);
        buffer.push(self.action.to_byte());
        let mut pr = u16_to_le_bytes(self.priority);
        buffer.append(&mut pr);
        append_len_prefix(buffer, self.key.len());
        append_bytes(buffer, &self.key);
        append_len_prefix(buffer, self.meta.len());
        append_bytes(buffer, &self.meta);
        append_len_prefix(buffer, self.payload.len());
        append_bytes(buffer, &self.payload);
        assert(final(buffer)@ =~= old(buffer)@ + self@.wire());
    }

    /// Decodes exactly one `CItem` from the front of `buffer`; bytes after
    /// the record are ignored.  The result is `CItemV::parse` of the input:
    /// the record whose wire bytes begin the buffer, or the error for the
    /// first malformed field, and no partial record either way.
    pub fn unpack(buffer: &Vec<u8>) -> (r: Result<CItem, DecodeError>)
        ensures
            (match (r, CItemV::parse(buffer@)) {
                (Ok(c), Ok(v)) => c@ == v,
                (Err(e), Err(f)) => e == f,
                _ => false,
            }),
    {
        let n = buffer.len();
        if n < CITEM_MIN_LEN {
            return Err(DecodeError::BufferTooShort);
        }
        let tid_len64 = u64_from_le_bytes(slice_subrange(buffer.as_slice(), 0, 8));
        if ((n - 8) as u64) < tid_len64 {
            return Err(DecodeError::TruncatedTableId);
        }
        let tid_len = tid_len64 as usize;
        let table_id = slice_to_vec(slice_subrange(buffer.as_slice(), 8, 8 + tid_len));
        let oa = 8 + tid_len;
        if n - oa < 1 {
            return Err(DecodeError::BufferTooShort);
        }
        let ab = buffer[oa];
        let action = match ab {
            0 => Actions::Noop,
            1 => Actions::Add,
            2 => Actions::Delete,
            3 => Actions::Query,
            _ => {
                return Err(DecodeError::InvalidActionTag);
            },
        };
        if n - oa < 3 {
            return Err(DecodeError::BufferTooShort);
        }
        let priority = u16_from_le_bytes(slice_subrange(buffer.as_slice(), oa + 1, oa + 3));
        let ok = oa + 3;
        if n - ok < 8 {
            return Err(DecodeError::BufferTooShort);
        }
        let key_len64 = u64_from_le_bytes(slice_subrange(buffer.as_slice(), ok, ok + 8));
        if ((n - ok - 8) as u64) < key_len64 {
            return Err(DecodeError::TruncatedKey);
        }
        let key_len = key_len64 as usize;
        let key = slice_to_vec(slice_subrange(buffer.as_slice(), ok + 8, ok + 8 + key_len));
        let om = ok + 8 + key_len;
        if n - om < 8 {
            return Err(DecodeError::BufferTooShort);
        }
        let meta_len64 = u64_from_le_bytes(slice_subrange(buffer.as_slice(), om, om + 8));
        if ((n - om - 8) as u64) < meta_len64 {
            return Err(DecodeError::TruncatedMeta);
        }
        let meta_len = meta_len64 as usize;
        let meta = slice_to_vec(slice_subrange(buffer.as_slice(), om + 8, om + 8 + meta_len));
        let op = om + 8 + meta_len;
        if n - op < 8 {
            return Err(DecodeError::BufferTooShort);
        }
        let pay_len64 = u64_from_le_bytes(slice_subrange(buffer.as_slice(), op, op + 8));
        if ((n - op - 8) as u64) < pay_len64 {
            return Err(DecodeError::TruncatedPayload);
        }
        let pay_len = pay_len64 as usize;
        let payload = slice_to_vec(slice_subrange(buffer.as_slice(), op + 8, op + 8 + pay_len));
        let c = CItem { table_id, action, priority, key, meta, payload };
        proof {
            assert(c@ =~= CItemV::parse(buffer@)->Ok_0);
        }
        Ok(c)
    }
}

/// Where each field of a `CItem` stands inside its wire bytes.
pub proof fn lemma_citem_wire_layout(c: CItemV)
    requires
        c.wf(),
    ensures
        c.wire().len() == 35 + c.table_id.len() + c.key.len() + c.meta.len() + c.payload.len(),
        c.wire().subrange(0, 8) == len_prefix(c.table_id.len()),
        c.wire().subrange(8, 8 + c.table_id.len() as int) == c.table_id,
        c.wire()[8 + c.table_id.len() as int] == action_byte(c.action),
        c.wire().subrange(9 + c.table_id.len() as int, 11 + c.table_id.len() as int)
            == spec_u16_to_le_bytes(c.priority),
        c.wire().subrange(11 + c.table_id.len() as int, 19 + c.table_id.len() as int)
            == len_prefix(c.key.len()),
        c.wire().subrange(
            19 + c.table_id.len() as int,
            19 + c.table_id.len() + c.key.len() as int,
        ) == c.key,
        c.wire().subrange(
            19 + c.table_id.len() + c.key.len() as int,
            27 + c.table_id.len() + c.key.len() as int,
        ) == len_prefix(c.meta.len()),
        c.wire().subrange(
            27 + c.table_id.len() + c.key.len() as int,
            27 + c.table_id.len() + c.key.len() + c.meta.len() as int,
        ) == c.meta,
        c.wire().subrange(
            27 + c.table_id.len() + c.key.len() + c.meta.len() as int,
            35 + c.table_id.len() + c.key.len() + c.meta.len() as int,
        ) == len_prefix(c.payload.len()),
        c.wire().subrange(
            35 + c.table_id.len() + c.key.len() + c.meta.len() as int,
            35 + c.table_id.len() + c.key.len() + c.meta.len() + c.payload.len() as int,
        ) == c.payload,
{
    lemma_auto_spec_u64_to_from_le_bytes();
    lemma_auto_spec_u16_to_from_le_bytes();
    let w = c.wire();
    let tl = c.table_id.len() as int;
    let kl = c.key.len() as int;
    let ml = c.meta.len() as int;
    assert(w.subrange(0, 8) =~= len_prefix(c.table_id.len()));
    assert(w.subrange(8, 8 + tl) =~= c.table_id);
    assert(w.subrange(9 + tl, 11 + tl) =~= spec_u16_to_le_bytes(c.priority));
    assert(w.subrange(11 + tl, 19 + tl) =~= len_prefix(c.key.len()));
    assert(w.subrange(19 + tl, 19 + tl + kl) =~= c.key);
    assert(w.subrange(19 + tl + kl, 27 + tl + kl) =~= len_prefix(c.meta.len()));
    assert(w.subrange(27 + tl + kl, 27 + tl + kl + ml) =~= c.meta);
    assert(w.subrange(27 + tl + kl + ml, 35 + tl + kl + ml) =~= len_prefix(c.payload.len()));
    assert(w.subrange(35 + tl + kl + ml, 35 + tl + kl + ml + c.payload.len()) =~= c.payload);
}

/// Decoding reads exactly one record from the front: any bytes after the
/// encoding of `c` are left alone, and `c` itself comes back.
pub proof fn lemma_citem_parse_wire_prefix(c: CItemV, tail: Seq<u8>)
    requires
        c.wf(),
    ensures
        CItemV::parse(c.wire() + tail) == Ok::<CItemV, DecodeError>(c),
{
    lemma_auto_spec_u64_to_from_le_bytes();
    lemma_auto_spec_u16_to_from_le_bytes();
    lemma_citem_wire_layout(c);
    let w = c.wire();
    let b = w + tail;
    let tl = c.table_id.len() as int;
    let kl = c.key.len() as int;
    let ml = c.meta.len() as int;
    let pl = c.payload.len() as int;
    assert(b.subrange(0, 8) =~= w.subrange(0, 8));
    assert(read_u64_at(b, 0) == c.table_id.len() as u64);
    let oa = 8 + tl;
    assert(b.subrange(8, oa) =~= w.subrange(8, oa));
    assert(b[oa] == w[oa]);
    assert(b.subrange(oa + 1, oa + 3) =~= w.subrange(oa + 1, oa + 3));
    assert(read_u16_at(b, oa + 1) == c.priority);
    let ok = oa + 3;
    assert(b.subrange(ok, ok + 8) =~= w.subrange(ok, ok + 8));
    assert(read_u64_at(b, ok) == c.key.len() as u64);
    assert(b.subrange(ok + 8, ok + 8 + kl) =~= w.subrange(ok + 8, ok + 8 + kl));
    let om = ok + 8 + kl;
    assert(b.subrange(om, om + 8) =~= w.subrange(om, om + 8));
    assert(read_u64_at(b, om) == c.meta.len() as u64);
    assert(b.subrange(om + 8, om + 8 + ml) =~= w.subrange(om + 8, om + 8 + ml));
    let op = om + 8 + ml;
    assert(b.subrange(op, op + 8) =~= w.subrange(op, op + 8));
    assert(read_u64_at(b, op) == c.payload.len() as u64);
    assert(b.subrange(op + 8, op + 8 + pl) =~= w.subrange(op + 8, op + 8 + pl));
    assert(CItemV::parse(b) is Ok);
    assert(CItemV::parse(b)->Ok_0 =~= c);
}

/// Round trip: decoding the encoding of any well-formed record gives that
/// record back, field for field.
pub proof fn lemma_citem_round_trip(c: CItemV)
    requires
        c.wf(),
    ensures
        CItemV::parse(c.wire()) == Ok::<CItemV, DecodeError>(c),
{
    lemma_citem_parse_wire_prefix(c, Seq::empty());
    assert(c.wire() + Seq::<u8>::empty() =~= c.wire());
}

/// Truncation safety: cutting the encoding of any well-formed record at any
/// byte before its end makes decoding fail; no truncation yields a record.
pub proof fn lemma_citem_truncation(c: CItemV, i: int)
    requires
        c.wf(),
        0 <= i < c.wire().len(),
    ensures
        CItemV::parse(c.wire().subrange(0, i)) is Err,
{
    lemma_auto_spec_u64_to_from_le_bytes();
    lemma_auto_spec_u16_to_from_le_bytes();
    lemma_citem_wire_layout(c);
    let w = c.wire();
    let t = w.subrange(0, i);
    let tl = c.table_id.len() as int;
    let kl = c.key.len() as int;
    let ml = c.meta.len() as int;
    let pl = c.payload.len() as int;
    if i < CITEM_MIN_LEN {
    } else {
        assert(t.subrange(0, 8) =~= w.subrange(0, 8));
        assert(read_u64_at(t, 0) == c.table_id.len() as u64);
        let oa = 8 + tl;
        if i < oa + 3 {
            if oa < i {
                assert(t[oa] == w[oa]);
            }
        } else {
            assert(t[oa] == w[oa]);
            let ok = oa + 3;
            if i < ok + 8 {
            } else {
                assert(t.subrange(ok, ok + 8) =~= w.subrange(ok, ok + 8));
                assert(read_u64_at(t, ok) == c.key.len() as u64);
                let om = ok + 8 + kl;
                if i < om + 8 {
                } else {
                    assert(t.subrange(om, om + 8) =~= w.subrange(om, om + 8));
                    assert(read_u64_at(t, om) == c.meta.len() as u64);
                    let op = om + 8 + ml;
                    if i < op + 8 {
                    } else {
                        assert(t.subrange(op, op + 8) =~= w.subrange(op, op + 8));
                        assert(read_u64_at(t, op) == c.payload.len() as u64);
                        assert(i < op + 8 + pl);
                    }
                }
            }
        }
    }
}

/// Invalid action: overwriting the action byte of any well-formed encoding
/// with a value of 4 or more makes decoding fail with `InvalidActionTag`,
/// whatever the surrounding bytes hold.
pub proof fn lemma_citem_invalid_action(c: CItemV, v: u8)
    requires
        c.wf(),
        v >= 4,
    ensures
        CItemV::parse(c.wire().update(8 + c.table_id.len() as int, v))
            == Err::<CItemV, DecodeError>(DecodeError::InvalidActionTag),
{
    lemma_auto_spec_u64_to_from_le_bytes();
    lemma_auto_spec_u16_to_from_le_bytes();
    lemma_citem_wire_layout(c);
    let w = c.wire();
    let tl = c.table_id.len() as int;
    let b = w.update(8 + tl, v);
    assert(b.subrange(0, 8) =~= w.subrange(0, 8));
    assert(read_u64_at(b, 0) == c.table_id.len() as u64);
    assert(b[8 + tl] == v);
}

/// The inverse reading: whenever decoding succeeds, the decoded record is
/// well formed and its own wire bytes begin the buffer, so decoding yields
/// exactly the record encoded at the front and nothing else.
pub proof fn lemma_citem_parse_gives_prefix(b: Seq<u8>)
    requires
        b.len() <= usize::MAX,
        CItemV::parse(b) is Ok,
    ensures
        CItemV::parse(b)->Ok_0.wf(),
        CItemV::parse(b)->Ok_0.wire().len() <= b.len(),
        b.subrange(0, CItemV::parse(b)->Ok_0.wire().len() as int) == CItemV::parse(b)->Ok_0.wire(),
{
    lemma_auto_spec_u64_to_from_le_bytes();
    lemma_auto_spec_u16_to_from_le_bytes();
    let c = CItemV::parse(b)->Ok_0;
    let tid_len = read_u64_at(b, 0) as int;
    let oa = 8 + tid_len;
    let ok = oa + 3;
    let key_len = read_u64_at(b, ok) as int;
    let om = ok + 8 + key_len;
    let meta_len = read_u64_at(b, om) as int;
    let op = om + 8 + meta_len;
    let pay_len = read_u64_at(b, op) as int;
    let total = op + 8 + pay_len;
    assert(c.table_id.len() == tid_len);
    assert(c.key.len() == key_len);
    assert(c.meta.len() == meta_len);
    assert(c.payload.len() == pay_len);
    assert(len_prefix(c.table_id.len()) =~= b.subrange(0, 8));
    assert(seq![action_byte(c.action)] =~= b.subrange(oa, oa + 1));
    assert(spec_u16_to_le_bytes(c.priority) =~= b.subrange(oa + 1, oa + 3));
    assert(len_prefix(c.key.len()) =~= b.subrange(ok, ok + 8));
    assert(len_prefix(c.meta.len()) =~= b.subrange(om, om + 8));
    assert(len_prefix(c.payload.len()) =~= b.subrange(op, op + 8));
    assert(c.wire().len() == total);
    assert(b.subrange(0, total) =~= c.wire());
}

/// The mathematical value of an `SItem`.
#[verifier::ext_equal]
pub struct SItemV {
    pub table_id: Seq<u8>,
    pub action: Actions,
    pub index: u16,
    pub value: Seq<u8>,
}

impl SItemV {
    /// Field lengths that an in-memory record can actually have.
    pub open spec fn wf(self) -> bool {
        &&& self.table_id.len() <= usize::MAX
        &&& self.value.len() <= usize::MAX
    }

    /// The exact wire bytes of this record: table_id, action, index, value.
    pub open spec fn wire(self) -> Seq<u8> {
        len_prefix(self.table_id.len()) + self.table_id + seq![action_byte(self.action)]
            + spec_u16_to_le_bytes(self.index) + len_prefix(self.value.len()) + self.value
    }

    /// What decoding one `SItem` from the front of `b` yields.
    pub open spec fn parse(b: Seq<u8>) -> Result<SItemV, DecodeError> {
        if b.len() < SITEM_MIN_LEN {
            Err(DecodeError::BufferTooShort)
        } else {
            let tid_len = read_u64_at(b, 0) as int;
            if b.len() < 8 + tid_len {
                Err(DecodeError::TruncatedTableId)
            } else {
                let oa = 8 + tid_len;
                if b.len() < oa + 1 {
                    Err(DecodeError::BufferTooShort)
                } else if b[oa] >= 4 {
                    Err(DecodeError::InvalidActionTag)
                } else if b.len() < oa + 3 {
                    Err(DecodeError::BufferTooShort)
                } else {
                    let ov = oa + 3;
                    if b.len() < ov + 8 {
                        Err(DecodeError::BufferTooShort)
                    } else {
                        let val_len = read_u64_at(b, ov) as int;
                        if b.len() < ov + 8 + val_len {
                            Err(DecodeError::TruncatedValue)
                        } else {
                            Ok(
                                SItemV {
                                    table_id: b.subrange(8, 8 + tid_len),
                                    action: action_of_byte(b[oa]),
                                    index: read_u16_at(b, oa + 1),
                                    value: b.subrange(ov + 8, ov + 8 + val_len),
                                },
                            )
                        }
                    }
                }
            }
        }
    }
}

/// Consumer-to-producer status record.  `table_id` holds the UTF-8 bytes of
/// the table's text identifier.
#[derive(Debug, PartialEq, Eq)]
pub struct SItem {
    pub table_id: Vec<u8>,
    pub action: Actions,
    pub index: u16,
    pub value: Vec<u8>,
}

impl View for SItem {
    type V = SItemV;

    open spec fn view(&self) -> SItemV {
        SItemV {
            table_id: self.table_id@,
            action: self.action,
            index: self.index,
            value: self.value@,
        }
    }
}

impl SItem {
    /// The default record: empty fields, `Noop`, index 0.
    pub fn default_instance() -> (r: SItem)
        ensures
            r@.table_id.len() == 0,
            r@.action == Actions::Noop,
            r@.index == 0,
            r@.value.len() == 0,
    {
        SItem { table_id: Vec::new(), action: Actions::Noop, index: 0, value: Vec::new() }
    }

    /// A fresh record ready to be filled for a status reply, with the
    /// neutral `Noop` as its action: the one default every record shape
    /// shares.
    pub fn new_with_defaults() -> (r: SItem)
        ensures
            r@.table_id.len() == 0,
            r@.action == Actions::Noop,
            r@.index == 0,
            r@.value.len() == 0,
    {
        SItem { table_id: Vec::new(), action: Actions::Noop, index: 0, value: Vec::new() }
    }

    /// Appends the wire representation of `self` to `buffer`.
    pub fn pack(&self, buffer: &mut Vec<u8>)
        ensures
            final(buffer)@ == old(buffer)@ + self@.wire(),
    {
        append_len_prefix(buffer, self.table_id.len());
        append_bytes(buffer, &self.table_id);
        buffer.push(self.action.to_byte());
        let mut ix = u16_to_le_bytes(self.index);
        buffer.append(&mut ix);
        append_len_prefix(buffer, self.value.len());
        append_bytes(buffer, &self.value);
        assert(final(buffer)@ =~= old(buffer)@ + self@.wire());
    }

    /// Decodes exactly one `SItem` from the front of `buffer`; bytes after
    /// the record are ignored.  The result is `SItemV::parse` of the input.
    pub fn unpack(buffer: &Vec<u8>) -> (r: Result<SItem, DecodeError>)
        ensures
            (match (r, SItemV::parse(buffer@)) {
                (Ok(s), Ok(v)) => s@ == v,
                (Err(e), Err(f)) => e == f,
                _ => false,
            }),
    {
        let n = buffer.len();
        if n < SITEM_MIN_LEN {
            return Err(DecodeError::BufferTooShort);
        }
        let tid_len64 = u64_from_le_bytes(slice_subrange(buffer.as_slice(), 0, 8));
        if ((n - 8) as u64) < tid_len64 {
            return Err(DecodeError::TruncatedTableId);
        }
        let tid_len = tid_len64 as usize;
        let table_id = slice_to_vec(slice_subrange(buffer.as_slice(), 8, 8 + tid_len));
        let oa = 8 + tid_len;
        if n - oa < 1 {
            return Err(DecodeError::BufferTooShort);
        }
        let ab = buffer[oa];
        let action = match ab {
            0 => Actions::Noop,
            1 => Actions::Add,
            2 => Actions::Delete,
            3 => Actions::Query,
            _ => {
                return Err(DecodeError::InvalidActionTag);
            },
        };
        if n - oa < 3 {
            return Err(DecodeError::BufferTooShort);
        }
        let index = u16_from_le_bytes(slice_subrange(buffer.as_slice(), oa + 1, oa + 3));
        let ov = oa + 3;
        if n - ov < 8 {
            return Err(DecodeError::BufferTooShort);
        }
        let val_len64 = u64_from_le_bytes(slice_subrange(buffer.as_slice(), ov, ov + 8));
        if ((n - ov - 8) as u64) < val_len64 {
            return Err(DecodeError::TruncatedValue);
        }
        let val_len = val_len64 as usize;
        let value = slice_to_vec(slice_subrange(buffer.as_slice(), ov + 8, ov + 8 + val_len));
        let s = SItem { table_id, action, index, value };
        proof {
            assert(s@ =~= SItemV::parse(buffer@)->Ok_0);
        }
        Ok(s)
    }
}

/// Where each field of an `SItem` stands inside its wire bytes.
pub proof fn lemma_sitem_wire_layout(s: SItemV)
    requires
        s.wf(),
    ensures
        s.wire().len() == 19 + s.table_id.len() + s.value.len(),
        s.wire().subrange(0, 8) == len_prefix(s.table_id.len()),
        s.wire().subrange(8, 8 + s.table_id.len() as int) == s.table_id,
        s.wire()[8 + s.table_id.len() as int] == action_byte(s.action),
        s.wire().subrange(9 + s.table_id.len() as int, 11 + s.table_id.len() as int)
            == spec_u16_to_le_bytes(s.index),
        s.wire().subrange(11 + s.table_id.len() as int, 19 + s.table_id.len() as int)
            == len_prefix(s.value.len()),
        s.wire().subrange(
            19 + s.table_id.len() as int,
            19 + s.table_id.len() + s.value.len() as int,
        ) == s.value,
{
    lemma_auto_spec_u64_to_from_le_bytes();
    lemma_auto_spec_u16_to_from_le_bytes();
    let w = s.wire();
    let tl = s.table_id.len() as int;
    assert(w.subrange(0, 8) =~= len_prefix(s.table_id.len()));
    assert(w.subrange(8, 8 + tl) =~= s.table_id);
    assert(w.subrange(9 + tl, 11 + tl) =~= spec_u16_to_le_bytes(s.index));
    assert(w.subrange(11 + tl, 19 + tl) =~= len_prefix(s.value.len()));
    assert(w.subrange(19 + tl, 19 + tl + s.value.len()) =~= s.value);
}

/// Decoding reads exactly one record from the front: any bytes after the
/// encoding of `s` are left alone, and `s` itself comes back.
pub proof fn lemma_sitem_parse_wire_prefix(s: SItemV, tail: Seq<u8>)
    requires
        s.wf(),
    ensures
        SItemV::parse(s.wire() + tail) == Ok::<SItemV, DecodeError>(s),
{
    lemma_auto_spec_u64_to_from_le_bytes();
    lemma_auto_spec_u16_to_from_le_bytes();
    lemma_sitem_wire_layout(s);
    let w = s.wire();
    let b = w + tail;
    let tl = s.table_id.len() as int;
    let vl = s.value.len() as int;
    assert(b.subrange(0, 8) =~= w.subrange(0, 8));
    assert(read_u64_at(b, 0) == s.table_id.len() as u64);
    let oa = 8 + tl;
    assert(b.subrange(8, oa) =~= w.subrange(8, oa));
    assert(b[oa] == w[oa]);
    assert(b.subrange(oa + 1, oa + 3) =~= w.subrange(oa + 1, oa + 3));
    assert(read_u16_at(b, oa + 1) == s.index);
    let ov = oa + 3;
    assert(b.subrange(ov, ov + 8) =~= w.subrange(ov, ov + 8));
    assert(read_u64_at(b, ov) == s.value.len() as u64);
    assert(b.subrange(ov + 8, ov + 8 + vl) =~= w.subrange(ov + 8, ov + 8 + vl));
    assert(SItemV::parse(b) is Ok);
    assert(SItemV::parse(b)->Ok_0 =~= s);
}

/// Round trip: decoding the encoding of any well-formed record gives that
/// record back, field for field.
pub proof fn lemma_sitem_round_trip(s: SItemV)
    requires
        s.wf(),
    ensures
        SItemV::parse(s.wire()) == Ok::<SItemV, DecodeError>(s),
{
    lemma_sitem_parse_wire_prefix(s, Seq::empty());
    assert(s.wire() + Seq::<u8>::empty() =~= s.wire());
}

/// Truncation safety: cutting the encoding of any well-formed record at any
/// byte before its end makes decoding fail; no truncation yields a record.
pub proof fn lemma_sitem_truncation(s: SItemV, i: int)
    requires
        s.wf(),
        0 <= i < s.wire().len(),
    ensures
        SItemV::parse(s.wire().subrange(0, i)) is Err,
{
    lemma_auto_spec_u64_to_from_le_bytes();
    lemma_auto_spec_u16_to_from_le_bytes();
    lemma_sitem_wire_layout(s);
    let w = s.wire();
    let t = w.subrange(0, i);
    let tl = s.table_id.len() as int;
    let vl = s.value.len() as int;
    if i < SITEM_MIN_LEN {
    } else {
        assert(t.subrange(0, 8) =~= w.subrange(0, 8));
        assert(read_u64_at(t, 0) == s.table_id.len() as u64);
        let oa = 8 + tl;
        if i < oa + 3 {
            if oa < i {
                assert(t[oa] == w[oa]);
            }
        } else {
            assert(t[oa] == w[oa]);
            let ov = oa + 3;
            if i < ov + 8 {
            } else {
                assert(t.subrange(ov, ov + 8) =~= w.subrange(ov, ov + 8));
                assert(read_u64_at(t, ov) == s.value.len() as u64);
                assert(i < ov + 8 + vl);
            }
        }
    }
}

/// The inverse reading: whenever decoding succeeds, the decoded record is
/// well formed and its own wire bytes begin the buffer, so decoding yields
/// exactly the record encoded at the front and nothing else.
pub proof fn lemma_sitem_parse_gives_prefix(b: Seq<u8>)
    requires
        b.len() <= usize::MAX,
        SItemV::parse(b) is Ok,
    ensures
        SItemV::parse(b)->Ok_0.wf(),
        SItemV::parse(b)->Ok_0.wire().len() <= b.len(),
        b.subrange(0, SItemV::parse(b)->Ok_0.wire().len() as int) == SItemV::parse(b)->Ok_0.wire(),
{
    lemma_auto_spec_u64_to_from_le_bytes();
    lemma_auto_spec_u16_to_from_le_bytes();
    let s = SItemV::parse(b)->Ok_0;
    let tid_len = read_u64_at(b, 0) as int;
    let oa = 8 + tid_len;
    let ov = oa + 3;
    let val_len = read_u64_at(b, ov) as int;
    let total = ov + 8 + val_len;
    assert(s.table_id.len() == tid_len);
    assert(s.value.len() == val_len);
    assert(len_prefix(s.table_id.len()) =~= b.subrange(0, 8));
    assert(seq![action_byte(s.action)] =~= b.subrange(oa, oa + 1));
    assert(spec_u16_to_le_bytes(s.index) =~= b.subrange(oa + 1, oa + 3));
    assert(len_prefix(s.value.len()) =~= b.subrange(ov, ov + 8));
    assert(s.wire().len() == total);
    assert(b.subrange(0, total) =~= s.wire());
}

/// Invalid action: overwriting the action byte of any well-formed encoding
/// with a value of 4 or more makes decoding fail with `InvalidActionTag`,
/// whatever the surrounding bytes hold.
pub proof fn lemma_sitem_invalid_action(s: SItemV, v: u8)
    requires
        s.wf(),
        v >= 4,
    ensures
        SItemV::parse(s.wire().update(8 + s.table_id.len() as int, v))
            == Err::<SItemV, DecodeError>(DecodeError::InvalidActionTag),
{
    lemma_auto_spec_u64_to_from_le_bytes();
    lemma_auto_spec_u16_to_from_le_bytes();
    lemma_sitem_wire_layout(s);
    let w = s.wire();
    let tl = s.table_id.len() as int;
    let b = w.update(8 + tl, v);
    assert(b.subrange(0, 8) =~= w.subrange(0, 8));
    assert(read_u64_at(b, 0) == s.table_id.len() as u64);
    assert(b[8 + tl] == v);
}

} // verus!
