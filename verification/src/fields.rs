//! The tagged layer of the wire format: a message is a run of fields, each a
//! key (field number and wire type) followed by an integer or by a length and
//! that many bytes.

use vstd::prelude::*;
use vstd::slice::slice_subrange;
use vstd::slice::slice_to_vec;
use crate::varint::lemma_varint_len;
use crate::varint::lemma_varint_round_trip;
use crate::varint::parse_varint;
use crate::varint::put_varint;
use crate::varint::take_varint;
use crate::varint::varint_bytes;

verus! {

/// What a field carries.
pub enum Value {
    Varint(u64),
    Bytes(Vec<u8>),
}

/// One field of a message.
pub struct Field {
    pub number: u32,
    pub value: Value,
}

/// What a field carries, as plain values.
pub enum ValueView {
    Varint(u64),
    Bytes(Seq<u8>),
}

/// One field as plain values.
pub struct FieldView {
    pub number: u32,
    pub value: ValueView,
}

impl View for Value {
    type V = ValueView;

    open spec fn view(&self) -> ValueView {
        match self {
            Value::Varint(v) => ValueView::Varint(*v),
            Value::Bytes(b) => ValueView::Bytes(b@),
        }
    }
}

impl View for Field {
    type V = FieldView;

    open spec fn view(&self) -> FieldView {
        FieldView { number: self.number, value: self.value@ }
    }
}

/// The fields as plain values.
pub open spec fn fields_view(fs: Seq<Field>) -> Seq<FieldView> {
    Seq::new(fs.len(), |i: int| fs[i]@)
}

/// Field numbers run from 1 to 2^29 - 1.
pub open spec fn valid_number(n: u32) -> bool {
    1 <= n <= 0x1FFF_FFFF
}

/// The field can be written: its number is in range and its bytes can be
/// counted in 64 bits.
pub open spec fn valid_field(f: FieldView) -> bool {
    valid_number(f.number) && match f.value {
        ValueView::Varint(_) => true,
        ValueView::Bytes(b) => b.len() <= u64::MAX,
    }
}

/// Every field can be written.
pub open spec fn valid_fields(fs: Seq<FieldView>) -> bool {
    forall|i: int| 0 <= i < fs.len() ==> valid_field(#[trigger] fs[i])
}

/// The key of a field: its number above the three bits of its wire type
/// (0 for an integer, 2 for bytes).
pub open spec fn key_of(f: FieldView) -> nat {
    match f.value {
        ValueView::Varint(_) => f.number as nat * 8,
        ValueView::Bytes(_) => f.number as nat * 8 + 2,
    }
}

/// The bytes of one field: its key, then its integer, or its length and
/// its bytes.
pub open spec fn field_bytes(f: FieldView) -> Seq<u8> {
    match f.value {
        ValueView::Varint(v) => varint_bytes(key_of(f)) + varint_bytes(v as nat),
        ValueView::Bytes(b) => varint_bytes(key_of(f)) + varint_bytes(b.len()) + b,
    }
}

/// The bytes of the fields, one after the other.
pub open spec fn fields_bytes(fs: Seq<FieldView>) -> Seq<u8>
    decreases fs.len(),
{
    if fs.len() == 0 {
        Seq::empty()
    } else {
        field_bytes(fs[0]) + fields_bytes(fs.skip(1))
    }
}

/// The field at the head of `b` and the number of bytes it takes. A key with
/// field number 0, a key over 32 bits, a wire type other than 0 and 2, and
/// bytes that end before the stated length are malformed.
pub open spec fn parsed_field(b: Seq<u8>) -> Option<(FieldView, nat)> {
    match parse_varint(b) {
        Some((key, n)) => {
            if key > u32::MAX || key / 8 == 0 {
                None
            } else {
                let number = (key / 8) as u32;
                match parse_varint(b.skip(n as int)) {
                    Some((x, m)) => {
                        if key % 8 == 0 {
                            Some((FieldView { number, value: ValueView::Varint(x) }, n + m))
                        } else if key % 8 == 2 && n + m + x <= b.len() {
                            Some(
                                (
                                    FieldView {
                                        number,
                                        value: ValueView::Bytes(
                                            b.subrange((n + m) as int, (n + m + x) as int),
                                        ),
                                    },
                                    n + m + x as nat,
                                ),
                            )
                        } else {
                            None
                        }
                    },
                    None => None,
                }
            }
        },
        None => None,
    }
}

/// The fields that `b` holds, in order; `None` where `b` is malformed.
pub open spec fn parsed_fields(b: Seq<u8>) -> Option<Seq<FieldView>>
    decreases b.len(),
{
    if b.len() == 0 {
        Some(Seq::empty())
    } else {
        match parsed_field(b) {
            Some((f, n)) => {
                if 0 < n <= b.len() {
                    match parsed_fields(b.skip(n as int)) {
                        Some(rest) => Some(seq![f] + rest),
                        None => None,
                    }
                } else {
                    None
                }
            },
            None => None,
        }
    }
}

/// A field that was written reads back as it was, whatever follows.
pub proof fn lemma_field_round_trip(f: FieldView, rest: Seq<u8>)
    requires
        valid_field(f),
    ensures
        parsed_field(field_bytes(f) + rest) == Some((f, field_bytes(f).len())),
        field_bytes(f).len() >= 2,
{
    let key = key_of(f);
    let kb = varint_bytes(key);
    let b = field_bytes(f) + rest;
    lemma_varint_len(key);
    assert(key <= u32::MAX);
    match f.value {
        ValueView::Varint(v) => {
            let vb = varint_bytes(v as nat);
            lemma_varint_len(v as nat);
            assert(b =~= kb + (vb + rest));
            lemma_varint_round_trip(key as u64, vb + rest);
            assert(b.skip(kb.len() as int) =~= vb + rest);
            lemma_varint_round_trip(v, rest);
        },
        ValueView::Bytes(d) => {
            let lb = varint_bytes(d.len());
            lemma_varint_len(d.len());
            assert(b =~= kb + (lb + d + rest));
            lemma_varint_round_trip(key as u64, lb + d + rest);
            assert(b.skip(kb.len() as int) =~= lb + (d + rest));
            lemma_varint_round_trip(d.len() as u64, d + rest);
            assert(b.subrange((kb.len() + lb.len()) as int, (kb.len() + lb.len() + d.len()) as int)
                =~= d);
        },
    }
}

/// Parsing what `fields_bytes` wrote gives the fields back.
pub proof fn lemma_fields_round_trip(fs: Seq<FieldView>)
    requires
        valid_fields(fs),
    ensures
        parsed_fields(fields_bytes(fs)) == Some(fs),
    decreases fs.len(),
{
    if fs.len() == 0 {
        assert(fs =~= Seq::empty());
    } else {
        let rest = fields_bytes(fs.skip(1));
        let b = field_bytes(fs[0]) + rest;
        lemma_field_round_trip(fs[0], rest);
        assert(b.skip(field_bytes(fs[0]).len() as int) =~= rest);
        assert(valid_fields(fs.skip(1))) by {
            assert forall|i: int| 0 <= i < fs.skip(1).len() implies valid_field(
                #[trigger] fs.skip(1)[i],
            ) by {
                assert(fs.skip(1)[i] == fs[i + 1]);
            }
        }
        lemma_fields_round_trip(fs.skip(1));
        assert(seq![fs[0]] + fs.skip(1) =~= fs);
    }
}

/// Appends one field to `buf`.
pub fn put_field(buf: &mut Vec<u8>, f: &Field)
    requires
        valid_number(f.number),
    ensures
        final(buf)@ == old(buf)@ + field_bytes(f@),
{
    match &f.value {
        Value::Varint(v) => {
            put_varint(buf, f.number as u64 * 8);
            put_varint(buf, *v);
            assert(final(buf)@ =~= old(buf)@ + field_bytes(f@));
        },
        Value::Bytes(b) => {
            put_varint(buf, f.number as u64 * 8 + 2);
            put_varint(buf, b.len() as u64);
            buf.extend_from_slice(b.as_slice());
            assert(final(buf)@ =~= old(buf)@ + field_bytes(f@));
        },
    }
}

/// Appends the fields to `buf`, in order.
pub fn put_fields(buf: &mut Vec<u8>, fs: &Vec<Field>)
    requires
        forall|i: int| 0 <= i < fs.len() ==> valid_number(#[trigger] fs[i].number),
    ensures
        final(buf)@ == old(buf)@ + fields_bytes(fields_view(fs@)),
{
    let ghost all = fields_view(fs@);
    let mut i: usize = 0;
    assert(all.skip(0) =~= all);
    while i < fs.len()
        invariant
            i <= fs.len(),
            all == fields_view(fs@),
            forall|j: int| 0 <= j < fs.len() ==> valid_number(#[trigger] fs[j].number),
            buf@ + fields_bytes(all.skip(i as int)) == old(buf)@ + fields_bytes(all),
        decreases fs.len() - i,
    {
        let ghost before = buf@;
        put_field(buf, &fs[i]);
        proof {
            assert(all.skip(i as int)[0] == fs[i as int]@);
            assert(all.skip(i as int).skip(1) =~= all.skip(i + 1));
            assert(buf@ + fields_bytes(all.skip(i + 1)) =~= before + fields_bytes(
                all.skip(i as int),
            ));
        }
        i += 1;
    }
    assert(buf@ =~= old(buf)@ + fields_bytes(all));
}

/// Reads the field that starts at `pos`, with the number of bytes it took.
pub fn take_field(b: &[u8], pos: usize) -> (r: Option<(Field, usize)>)
    requires
        pos <= b.len(),
    ensures
        match r {
            Some((f, n)) => parsed_field(b@.skip(pos as int)) == Some((f@, n as nat)) && 1 <= n
                && pos + n <= b.len(),
            None => parsed_field(b@.skip(pos as int)) is None,
        },
{
    let ghost s = b@.skip(pos as int);
    let (key, n) = match take_varint(b, pos) {
        Some(kn) => kn,
        None => { return None; },
    };
    if key > 0xFFFF_FFFF || key / 8 == 0 {
        return None;
    }
    let number: u32 = (key / 8) as u32;
    assert(s.skip(n as int) =~= b@.skip(pos + n));
    let (x, m) = match take_varint(b, pos + n) {
        Some(xm) => xm,
        None => { return None; },
    };
    if key % 8 == 0 {
        Some((Field { number, value: Value::Varint(x) }, n + m))
    } else if key % 8 == 2 && x <= (b.len() - pos - n - m) as u64 {
        let start: usize = pos + n + m;
        let len: usize = x as usize;
        let data = slice_to_vec(slice_subrange(b, start, start + len));
        assert(data@ =~= s.subrange((n + m) as int, (n + m + x) as int));
        Some((Field { number, value: Value::Bytes(data) }, n + m + len))
    } else {
        None
    }
}

/// Splits a message into its fields.
pub fn read_fields(b: &[u8]) -> (r: Option<Vec<Field>>)
    ensures
        match r {
            Some(fs) => parsed_fields(b@) == Some(fields_view(fs@)),
            None => parsed_fields(b@) is None,
        },
{
    let mut out: Vec<Field> = Vec::new();
    let mut pos: usize = 0;
    proof {
        assert(b@.skip(0) =~= b@);
        match parsed_fields(b@) {
            Some(rest) => {
                assert(fields_view(out@) + rest =~= rest);
            },
            None => {},
        }
    }
    while pos < b.len()
        invariant
            pos <= b.len(),
            parsed_fields(b@) == match parsed_fields(b@.skip(pos as int)) {
                Some(rest) => Some(fields_view(out@) + rest),
                None => None,
            },
        decreases b.len() - pos,
    {
        let ghost s = b@.skip(pos as int);
        let ghost before = fields_view(out@);
        match take_field(b, pos) {
            Some((f, n)) => {
                proof {
                    assert(s.skip(n as int) =~= b@.skip(pos + n));
                }
                let ghost fv = f@;
                out.push(f);
                proof {
                    assert(fields_view(out@) =~= before + seq![fv]);
                    match parsed_fields(b@.skip(pos + n)) {
                        Some(rest) => {
                            assert(before + (seq![fv] + rest) =~= fields_view(out@) + rest);
                        },
                        None => {},
                    }
                }
                pos += n;
            },
            None => {
                return None;
            },
        }
    }
    proof {
        assert(b@.skip(pos as int).len() == 0);
        assert(fields_view(out@) + Seq::<FieldView>::empty() =~= fields_view(out@));
    }
    Some(out)
}

} // verus!
