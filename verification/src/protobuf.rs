//! A minimal read-only protobuf walker.
//!
//! A message is a sequence of fields; each field is a key varint
//! (`number << 3 | wire`) followed by a value whose shape the wire type fixes:
//! 0 = varint, 1 = eight bytes, 2 = length-delimited, 5 = four bytes.
//! The spec side tokenises a buffer into `Field`s; the executable side walks
//! the same buffer with a cursor and is proved to produce the same tokens.

use vstd::prelude::*;

verus! {

/// Failure while walking a protobuf message.
#[derive(Debug, Clone, Copy)]
pub enum PbError {
    /// The buffer ended inside a varint or a value.
    Truncated,
    /// A varint ran past ten bytes.
    VarintTooLong,
    /// A field used a wire type other than 0, 1, 2 or 5.
    UnsupportedWire,
    /// A field that the message layout does not allow at this place.
    UnexpectedField,
}

/// Decoding of a base-128 varint starting at `pos`, where `acc` holds the
/// groups read so far and `shift` is the bit offset of the next group.
/// Groups are little-endian, seven bits each; a clear high bit ends the
/// varint; a tenth continuation byte is an error.
pub open spec fn varint_step(buf: Seq<u8>, pos: int, shift: u64, acc: u64) -> Option<(u64, int)>
    decreases buf.len() - pos,
{
    if pos < 0 || pos >= buf.len() || shift > 63 {
        None
    } else {
        let b = buf[pos];
        let acc2 = acc | (((b & 0x7f) as u64) << shift);
        if b & 0x80 == 0 {
            Some((acc2, pos + 1))
        } else if shift + 7 > 63 {
            None
        } else {
            varint_step(buf, pos + 1, (shift + 7) as u64, acc2)
        }
    }
}

/// The varint at `pos`: its value and the position just after it.
pub open spec fn spec_varint(buf: Seq<u8>, pos: int) -> Option<(u64, int)> {
    varint_step(buf, pos, 0, 0)
}

/// The value carried by one field, as the wire type shapes it.
pub enum WireValue {
    Varint(u64),
    Fixed64(Seq<u8>),
    Bytes(Seq<u8>),
    Fixed32(Seq<u8>),
}

/// One decoded field: number, wire type and value.
pub struct Field {
    pub number: u32,
    pub wire: u8,
    pub value: WireValue,
}

/// The `n` bytes at `pos`, with the position after them, if they are there.
pub open spec fn spec_take(buf: Seq<u8>, pos: int, n: int) -> Option<(Seq<u8>, int)> {
    if 0 <= pos && 0 <= n && pos + n <= buf.len() {
        Some((buf.subrange(pos, pos + n), pos + n))
    } else {
        None
    }
}

/// The field whose key starts at `pos`, with the position after its value.
pub open spec fn next_field(buf: Seq<u8>, pos: int) -> Option<(Field, int)> {
    match spec_varint(buf, pos) {
        None => None,
        Some((key, p1)) => {
            let k = key as u32;
            let number = k >> 3;
            let wire = (k & 7) as u8;
            if wire == 0 {
                match spec_varint(buf, p1) {
                    Some((v, p2)) => Some((Field { number, wire, value: WireValue::Varint(v) }, p2)),
                    None => None,
                }
            } else if wire == 1 {
                match spec_take(buf, p1, 8) {
                    Some((b, p2)) => Some((Field { number, wire, value: WireValue::Fixed64(b) }, p2)),
                    None => None,
                }
            } else if wire == 2 {
                match spec_varint(buf, p1) {
                    Some((len, p2)) => match spec_take(buf, p2, len as int) {
                        Some((b, p3)) => Some((Field { number, wire, value: WireValue::Bytes(b) }, p3)),
                        None => None,
                    },
                    None => None,
                }
            } else if wire == 5 {
                match spec_take(buf, p1, 4) {
                    Some((b, p2)) => Some((Field { number, wire, value: WireValue::Fixed32(b) }, p2)),
                    None => None,
                }
            } else {
                None
            }
        },
    }
}

/// All fields from `pos` to the end of the buffer; `None` when any of them
/// is malformed.
pub open spec fn fields_from(buf: Seq<u8>, pos: int) -> Option<Seq<Field>>
    decreases buf.len() - pos,
{
    if pos >= buf.len() {
        Some(Seq::empty())
    } else {
        match next_field(buf, pos) {
            None => None,
            Some((f, p)) => if pos < p && p <= buf.len() {
                match fields_from(buf, p) {
                    Some(rest) => Some(seq![f] + rest),
                    None => None,
                }
            } else {
                None
            },
        }
    }
}

/// The fields of a whole message.
pub open spec fn message_fields(buf: Seq<u8>) -> Option<Seq<Field>> {
    fields_from(buf, 0)
}

/// `pre` followed by the fields in `rest`, if `rest` decoded.
pub open spec fn join(pre: Seq<Field>, rest: Option<Seq<Field>>) -> Option<Seq<Field>> {
    match rest {
        Some(r) => Some(pre + r),
        None => None,
    }
}

/// The value of the last varint field with this number (protobuf's
/// "last one wins" for scalar fields).
pub open spec fn last_varint(fs: Seq<Field>, number: u32) -> Option<u64>
    decreases fs.len(),
{
    if fs.len() == 0 {
        None
    } else {
        let f = fs.last();
        if f.number == number && f.wire == 0 && f.value is Varint {
            Some(f.value->Varint_0)
        } else {
            last_varint(fs.drop_last(), number)
        }
    }
}

/// The payload of the last length-delimited field with this number.
pub open spec fn last_bytes(fs: Seq<Field>, number: u32) -> Option<Seq<u8>>
    decreases fs.len(),
{
    if fs.len() == 0 {
        None
    } else {
        let f = fs.last();
        if f.number == number && f.wire == 2 && f.value is Bytes {
            Some(f.value->Bytes_0)
        } else {
            last_bytes(fs.drop_last(), number)
        }
    }
}

/// The last varint with this number, truncated to 32 bits, or 0.
pub open spec fn varint_u32_or_zero(fs: Seq<Field>, number: u32) -> u32 {
    match last_varint(fs, number) {
        Some(v) => v as u32,
        None => 0,
    }
}

/// Maps each field through `f` in order: `None` from `f` is an error for the
/// whole walk, `Some(None)` skips the field, `Some(Some(x))` keeps `x`.
pub open spec fn collect_fields<T>(fs: Seq<Field>, f: spec_fn(Field) -> Option<Option<T>>) -> Option<Seq<T>>
    decreases fs.len(),
{
    if fs.len() == 0 {
        Some(Seq::empty())
    } else {
        match collect_fields(fs.drop_last(), f) {
            None => None,
            Some(xs) => match f(fs.last()) {
                None => None,
                Some(None) => Some(xs),
                Some(Some(x)) => Some(xs.push(x)),
            },
        }
    }
}

/// The payload of the last four-byte field with this number.
pub open spec fn last_fixed32(fs: Seq<Field>, number: u32) -> Option<Seq<u8>>
    decreases fs.len(),
{
    if fs.len() == 0 {
        None
    } else {
        let f = fs.last();
        if f.number == number && f.wire == 5 && f.value is Fixed32 {
            Some(f.value->Fixed32_0)
        } else {
            last_fixed32(fs.drop_last(), number)
        }
    }
}

/// Threads a state through the fields in order: `step` gives the next
/// state, or `None` when the field makes the walk fail.
pub open spec fn fold_fields<S>(fs: Seq<Field>, init: S, step: spec_fn(S, Field) -> Option<S>) -> Option<S>
    decreases fs.len(),
{
    if fs.len() == 0 {
        Some(init)
    } else {
        match fold_fields(fs.drop_last(), init, step) {
            None => None,
            Some(st) => step(st, fs.last()),
        }
    }
}

/// Decoding a varint moves forward and stays within the buffer.
pub proof fn lemma_varint_step_advances(buf: Seq<u8>, pos: int, shift: u64, acc: u64)
    ensures
        varint_step(buf, pos, shift, acc) matches Some((v, p)) ==> pos < p <= buf.len(),
    decreases buf.len() - pos,
{
    if 0 <= pos < buf.len() && shift <= 63 {
        let b = buf[pos];
        let acc2 = acc | (((b & 0x7f) as u64) << shift);
        if b & 0x80 != 0 && shift + 7 <= 63 {
            lemma_varint_step_advances(buf, pos + 1, (shift + 7) as u64, acc2);
        }
    }
}

/// Decoding a field moves forward and stays within the buffer.
pub proof fn lemma_next_field_advances(buf: Seq<u8>, pos: int)
    ensures
        next_field(buf, pos) matches Some((f, p)) ==> pos < p <= buf.len(),
{
    lemma_varint_step_advances(buf, pos, 0, 0);
    if let Some((key, p1)) = spec_varint(buf, pos) {
        lemma_varint_step_advances(buf, p1, 0, 0);
    }
}

/// One step of the field walk: the fields from `pos` are the field at `pos`
/// followed by the fields after it.
pub proof fn lemma_fields_step(buf: Seq<u8>, pos: int, pre: Seq<Field>)
    requires
        0 <= pos < buf.len(),
    ensures
        next_field(buf, pos) is None ==> fields_from(buf, pos) is None,
        next_field(buf, pos) matches Some((f, p)) ==> pos < p <= buf.len() && join(
            pre,
            fields_from(buf, pos),
        ) == join(pre.push(f), fields_from(buf, p)),
{
    lemma_next_field_advances(buf, pos);
    if let Some((f, p)) = next_field(buf, pos) {
        if let Some(rest) = fields_from(buf, p) {
            assert(pre + (seq![f] + rest) =~= pre.push(f) + rest);
        }
    }
}

/// Once an element fails, every longer walk that starts the same way fails.
pub proof fn lemma_collect_error_sticks<T>(
    fs: Seq<Field>,
    more: Seq<Field>,
    f: spec_fn(Field) -> Option<Option<T>>,
)
    requires
        collect_fields(fs, f) is None,
    ensures
        collect_fields(fs + more, f) is None,
    decreases more.len(),
{
    if more.len() == 0 {
        assert(fs + more =~= fs);
    } else {
        lemma_collect_error_sticks(fs, more.drop_last(), f);
        assert((fs + more).drop_last() =~= fs + more.drop_last());
    }
}

/// A walk whose decoded prefix already fails to collect fails as a whole.
pub proof fn lemma_walk_error<T>(
    buf: Seq<u8>,
    seen: Seq<Field>,
    pos: int,
    f: spec_fn(Field) -> Option<Option<T>>,
)
    requires
        message_fields(buf) == join(seen, fields_from(buf, pos)),
        collect_fields(seen, f) is None,
    ensures
        message_fields(buf) matches Some(fs) ==> collect_fields(fs, f) is None,
{
    if let Some(rest) = fields_from(buf, pos) {
        lemma_collect_error_sticks(seen, rest, f);
    }
}

/// `last_varint` over a walk that is extended by one field.
pub proof fn lemma_last_varint_push(fs: Seq<Field>, g: Field, number: u32)
    ensures
        last_varint(fs.push(g), number) == (if g.number == number && g.wire == 0
            && g.value is Varint {
            Some(g.value->Varint_0)
        } else {
            last_varint(fs, number)
        }),
{
    assert(fs.push(g).drop_last() =~= fs);
}

/// `last_bytes` over a walk that is extended by one field.
pub proof fn lemma_last_bytes_push(fs: Seq<Field>, g: Field, number: u32)
    ensures
        last_bytes(fs.push(g), number) == (if g.number == number && g.wire == 2
            && g.value is Bytes {
            Some(g.value->Bytes_0)
        } else {
            last_bytes(fs, number)
        }),
{
    assert(fs.push(g).drop_last() =~= fs);
}

/// `collect_fields` over a walk that is extended by one field.
pub proof fn lemma_collect_push<T>(fs: Seq<Field>, g: Field, f: spec_fn(Field) -> Option<Option<T>>)
    ensures
        collect_fields(fs.push(g), f) == (match collect_fields(fs, f) {
            None => None,
            Some(xs) => match f(g) {
                None => None,
                Some(None) => Some(xs),
                Some(Some(x)) => Some(xs.push(x)),
            },
        }),
{
    assert(fs.push(g).drop_last() =~= fs);
}

/// `last_fixed32` over a walk that is extended by one field.
pub proof fn lemma_last_fixed32_push(fs: Seq<Field>, g: Field, number: u32)
    ensures
        last_fixed32(fs.push(g), number) == (if g.number == number && g.wire == 5
            && g.value is Fixed32 {
            Some(g.value->Fixed32_0)
        } else {
            last_fixed32(fs, number)
        }),
{
    assert(fs.push(g).drop_last() =~= fs);
}

/// `fold_fields` over a walk that is extended by one field.
pub proof fn lemma_fold_push<S>(fs: Seq<Field>, g: Field, init: S, step: spec_fn(S, Field) -> Option<S>)
    ensures
        fold_fields(fs.push(g), init, step) == (match fold_fields(fs, init, step) {
            None => None,
            Some(st) => step(st, g),
        }),
{
    assert(fs.push(g).drop_last() =~= fs);
}

/// Once a fold fails, every longer walk that starts the same way fails.
pub proof fn lemma_fold_error_sticks<S>(
    fs: Seq<Field>,
    more: Seq<Field>,
    init: S,
    step: spec_fn(S, Field) -> Option<S>,
)
    requires
        fold_fields(fs, init, step) is None,
    ensures
        fold_fields(fs + more, init, step) is None,
    decreases more.len(),
{
    if more.len() == 0 {
        assert(fs + more =~= fs);
    } else {
        lemma_fold_error_sticks(fs, more.drop_last(), init, step);
        assert((fs + more).drop_last() =~= fs + more.drop_last());
    }
}

/// A walk whose decoded prefix already fails to fold fails as a whole.
pub proof fn lemma_fold_walk_error<S>(
    buf: Seq<u8>,
    seen: Seq<Field>,
    pos: int,
    init: S,
    step: spec_fn(S, Field) -> Option<S>,
)
    requires
        message_fields(buf) == join(seen, fields_from(buf, pos)),
        fold_fields(seen, init, step) is None,
    ensures
        message_fields(buf) matches Some(fs) ==> fold_fields(fs, init, step) is None,
{
    if let Some(rest) = fields_from(buf, pos) {
        lemma_fold_error_sticks(seen, rest, init, step);
    }
}

/// The value of a field as read from the buffer.
pub enum FieldValue<'a> {
    Varint(u64),
    Fixed64(&'a [u8]),
    Bytes(&'a [u8]),
    Fixed32(&'a [u8]),
}

impl<'a> View for FieldValue<'a> {
    type V = WireValue;

    open spec fn view(&self) -> WireValue {
        match self {
            FieldValue::Varint(v) => WireValue::Varint(*v),
            FieldValue::Fixed64(b) => WireValue::Fixed64(b@),
            FieldValue::Bytes(b) => WireValue::Bytes(b@),
            FieldValue::Fixed32(b) => WireValue::Fixed32(b@),
        }
    }
}

/// The spec field for a field read as `(number, wire, value)`.
pub open spec fn field_of(number: u32, wire: u8, value: WireValue) -> Field {
    Field { number, wire, value }
}

/// A cursor over a protobuf buffer.
pub struct Reader<'a> {
    pub buf: &'a [u8],
    pub pos: usize,
}

impl<'a> Reader<'a> {
    /// A cursor at the start of `buf`.
    pub fn new(buf: &'a [u8]) -> (r: Reader<'a>)
        ensures
            r.buf@ == buf@,
            r.pos == 0,
    {
        Reader { buf, pos: 0 }
    }

    /// Reads one varint.
    pub fn varint(&mut self) -> (res: Result<u64, PbError>)
        requires
            old(self).pos <= old(self).buf@.len(),
        ensures
            final(self).buf == old(self).buf,
            final(self).pos <= final(self).buf@.len(),
            match spec_varint(old(self).buf@, old(self).pos as int) {
                Some((v, p)) => res matches Ok(x) && x == v && final(self).pos == p,
                None => res is Err,
            },
    {
        let ghost start = self.pos as int;
        let ghost buf = self.buf@;
        let mut result: u64 = 0;
        let mut shift: u64 = 0;
        loop
            invariant
                self.buf@ == buf,
                self.buf == old(self).buf,
                buf == old(self).buf@,
                start == old(self).pos,
                self.pos <= buf.len(),
                shift <= 63,
                varint_step(buf, self.pos as int, shift, result) == spec_varint(buf, start),
            decreases buf.len() - self.pos,
        {
            if self.pos >= self.buf.len() {
                return Err(PbError::Truncated);
            }
            let b = self.buf[self.pos];
            self.pos = self.pos + 1;
            result = result | (((b & 0x7f) as u64) << shift);
            if b & 0x80 == 0 {
                return Ok(result);
            }
            if shift + 7 > 63 {
                return Err(PbError::VarintTooLong);
            }
            shift = shift + 7;
        }
    }

    /// Reads `len` raw bytes.
    pub fn bytes(&mut self, len: usize) -> (res: Result<&'a [u8], PbError>)
        requires
            old(self).pos <= old(self).buf@.len(),
        ensures
            final(self).buf == old(self).buf,
            final(self).pos <= final(self).buf@.len(),
            match spec_take(old(self).buf@, old(self).pos as int, len as int) {
                Some((b, p)) => res matches Ok(x) && x@ == b && final(self).pos == p,
                None => res is Err && final(self).pos == old(self).pos,
            },
    {
        if len > self.buf.len() - self.pos {
            return Err(PbError::Truncated);
        }
        let end = self.pos + len;
        let whole: &'a [u8] = self.buf;
        let out: &'a [u8] = &whole[self.pos..end];
        self.pos = end;
        Ok(out)
    }

    /// Reads the next key as `(field number, wire type)`; `None` at the end
    /// of the buffer.
    pub fn tag(&mut self) -> (res: Option<Result<(u32, u8), PbError>>)
        requires
            old(self).pos <= old(self).buf@.len(),
        ensures
            final(self).buf == old(self).buf,
            final(self).pos <= final(self).buf@.len(),
            old(self).pos >= old(self).buf@.len() ==> res is None && final(self).pos == old(
                self,
            ).pos,
            old(self).pos < old(self).buf@.len() ==> match spec_varint(
                old(self).buf@,
                old(self).pos as int,
            ) {
                Some((key, p)) => res matches Some(Ok((n, w))) && n == (key as u32) >> 3 && w == ((
                key as u32) & 7) as u8 && final(self).pos == p,
                None => res matches Some(Err(_)),
            },
    {
        if self.pos >= self.buf.len() {
            return None;
        }
        match self.varint() {
            Ok(t) => {
                let k = #[verifier::truncate] (t as u32);
                Some(Ok((k >> 3, (k & 7) as u8)))
            },
            Err(e) => Some(Err(e)),
        }
    }

    /// Reads a varint length and that many bytes.
    pub fn len_delimited(&mut self) -> (res: Result<&'a [u8], PbError>)
        requires
            old(self).pos <= old(self).buf@.len(),
        ensures
            final(self).buf == old(self).buf,
            final(self).pos <= final(self).buf@.len(),
            match spec_varint(old(self).buf@, old(self).pos as int) {
                Some((len, p)) => match spec_take(old(self).buf@, p, len as int) {
                    Some((b, p2)) => res matches Ok(x) && x@ == b && final(self).pos == p2,
                    None => res is Err,
                },
                None => res is Err,
            },
    {
        let len = self.varint()?;
        if len > (self.buf.len() - self.pos) as u64 {
            return Err(PbError::Truncated);
        }
        self.bytes(len as usize)
    }

    /// Skips the value of a field of wire type `wire`.
    pub fn skip_field(&mut self, wire: u8) -> (res: Result<(), PbError>)
        requires
            old(self).pos <= old(self).buf@.len(),
        ensures
            final(self).buf == old(self).buf,
            final(self).pos <= final(self).buf@.len(),
            wire == 0 ==> match spec_varint(old(self).buf@, old(self).pos as int) {
                Some((v, p)) => res is Ok && final(self).pos == p,
                None => res is Err,
            },
            wire == 1 ==> match spec_take(old(self).buf@, old(self).pos as int, 8) {
                Some((b, p)) => res is Ok && final(self).pos == p,
                None => res is Err,
            },
            wire == 2 ==> match spec_varint(old(self).buf@, old(self).pos as int) {
                Some((len, p)) => match spec_take(old(self).buf@, p, len as int) {
                    Some((b, p2)) => res is Ok && final(self).pos == p2,
                    None => res is Err,
                },
                None => res is Err,
            },
            wire == 5 ==> match spec_take(old(self).buf@, old(self).pos as int, 4) {
                Some((b, p)) => res is Ok && final(self).pos == p,
                None => res is Err,
            },
            !(wire == 0 || wire == 1 || wire == 2 || wire == 5) ==> res is Err,
    {
        if wire == 0 {
            self.varint()?;
        } else if wire == 1 {
            self.bytes(8)?;
        } else if wire == 2 {
            self.len_delimited()?;
        } else if wire == 5 {
            self.bytes(4)?;
        } else {
            return Err(PbError::UnsupportedWire);
        }
        Ok(())
    }

    /// Reads one whole field: its number, wire type and value. `None` at the
    /// end of the buffer.
    pub fn read_field(&mut self) -> (res: Option<Result<(u32, u8, FieldValue<'a>), PbError>>)
        requires
            old(self).pos <= old(self).buf@.len(),
        ensures
            final(self).buf == old(self).buf,
            final(self).pos <= final(self).buf@.len(),
            old(self).pos >= old(self).buf@.len() ==> res is None && final(self).pos == old(
                self,
            ).pos,
            old(self).pos < old(self).buf@.len() ==> match next_field(
                old(self).buf@,
                old(self).pos as int,
            ) {
                Some((f, p)) => res matches Some(Ok((n, w, v))) && f == field_of(n, w, v@)
                    && final(self).pos == p,
                None => res matches Some(Err(_)),
            },
    {
        let ghost buf = self.buf@;
        let ghost start = self.pos as int;
        let (n, w) = match self.tag() {
            None => return None,
            Some(Err(e)) => return Some(Err(e)),
            Some(Ok(t)) => t,
        };
        let ghost p1 = self.pos as int;
        assert(buf == old(self).buf@);
        let v = if w == 0 {
            match self.varint() {
                Ok(x) => FieldValue::Varint(x),
                Err(e) => return Some(Err(e)),
            }
        } else if w == 1 {
            match self.bytes(8) {
                Ok(b) => FieldValue::Fixed64(b),
                Err(e) => return Some(Err(e)),
            }
        } else if w == 2 {
            match self.len_delimited() {
                Ok(b) => FieldValue::Bytes(b),
                Err(e) => return Some(Err(e)),
            }
        } else if w == 5 {
            match self.bytes(4) {
                Ok(b) => FieldValue::Fixed32(b),
                Err(e) => return Some(Err(e)),
            }
        } else {
            return Some(Err(PbError::UnsupportedWire));
        };
        Some(Ok((n, w, v)))
    }
}

} // verus!
