//! Little-endian fields as they are laid out in an image file.
//!
//! A record in the file is a sequence of unsigned little-endian fields, each of
//! one, two or four bytes. Reading goes field by field and stops at the first
//! field that the input cannot hold, with the error that `bytes::Buf` reports
//! for that read.

use vstd::prelude::*;

verus! {

/// The error for a read that needs more bytes than the input has left.
#[derive(Clone, Copy, Debug, PartialEq, Eq, Structural)]
pub struct ReadError {
    /// The number of bytes that the read needed.
    pub requested: usize,
    /// The number of bytes that were left.
    pub available: usize,
}

/// The number of distinct values of a field that is `width` bytes wide.
pub open spec fn width_bound(width: nat) -> nat
    decreases width,
{
    if width == 0 {
        1
    } else {
        256 * width_bound((width - 1) as nat)
    }
}

/// The value of the `width` bytes of `s` from `offset` on, least significant first.
pub open spec fn le_value(s: Seq<u8>, offset: int, width: nat) -> nat
    decreases width,
{
    if width == 0 {
        0
    } else {
        s[offset] as nat + 256 * le_value(s, offset + 1, (width - 1) as nat)
    }
}

/// The `width` bytes of `value`, least significant first.
pub open spec fn le_bytes(value: nat, width: nat) -> Seq<u8>
    decreases width,
{
    if width == 0 {
        seq![]
    } else {
        seq![(value % 256) as u8] + le_bytes(value / 256, (width - 1) as nat)
    }
}

/// The total width of a sequence of fields.
pub open spec fn layout_size(widths: Seq<u8>) -> nat
    decreases widths.len(),
{
    if widths.len() == 0 {
        0
    } else {
        widths[0] as nat + layout_size(widths.drop_first())
    }
}

/// Reading fields of the given widths from `s` at `offset`, one after the other.
///
/// The result is the field values, or the error of the first field that the
/// input cannot hold: the width of that field and the number of bytes left.
pub open spec fn read_layout(s: Seq<u8>, offset: int, widths: Seq<u8>) -> Result<Seq<u32>, ReadError>
    decreases widths.len(),
{
    if widths.len() == 0 {
        Ok(seq![])
    } else if s.len() - offset < widths[0] {
        Err(ReadError { requested: widths[0] as usize, available: (s.len() - offset) as usize })
    } else {
        match read_layout(s, offset + widths[0], widths.drop_first()) {
            Ok(rest) => Ok(seq![le_value(s, offset, widths[0] as nat) as u32] + rest),
            Err(e) => Err(e),
        }
    }
}

/// The bytes of the given field values, each in its width, one after the other.
pub open spec fn encode_layout(values: Seq<u32>, widths: Seq<u8>) -> Seq<u8>
    decreases widths.len(),
{
    if widths.len() == 0 {
        seq![]
    } else {
        le_bytes(values[0] as nat, widths[0] as nat) + encode_layout(
            values.drop_first(),
            widths.drop_first(),
        )
    }
}

/// Every value fits in the width of its field, and there is one value for each field.
pub open spec fn fits_layout(values: Seq<u32>, widths: Seq<u8>) -> bool {
    &&& values.len() == widths.len()
    &&& forall|i: int| 0 <= i < values.len() ==> values[i] < width_bound(#[trigger] widths[i] as nat)
}

/// Every field is one, two or four bytes wide.
pub open spec fn valid_widths(widths: Seq<u8>) -> bool {
    forall|i: int| 0 <= i < widths.len() ==> (#[trigger] widths[i] == 1 || widths[i] == 2 || widths[i] == 4)
}

/// Prepends values to the outcome of a read.
pub open spec fn prepend_values(values: Seq<u32>, r: Result<Seq<u32>, ReadError>) -> Result<
    Seq<u32>,
    ReadError,
> {
    match r {
        Ok(rest) => Ok(values + rest),
        Err(e) => Err(e),
    }
}

pub proof fn lemma_width_bound(width: nat)
    ensures
        width == 1 ==> width_bound(width) == 0x100,
        width == 2 ==> width_bound(width) == 0x1_0000,
        width == 4 ==> width_bound(width) == 0x1_0000_0000,
        width_bound(width) >= 1,
    decreases width,
{
    reveal_with_fuel(width_bound, 5);
    if width > 0 {
        lemma_width_bound((width - 1) as nat);
    }
}

/// The value of `width` bytes is below the bound of the width.
pub proof fn lemma_le_value_bound(s: Seq<u8>, offset: int, width: nat)
    ensures
        le_value(s, offset, width) < width_bound(width),
    decreases width,
{
    if width > 0 {
        lemma_le_value_bound(s, offset + 1, (width - 1) as nat);
    }
}

/// The value of bytes depends only on those bytes.
pub proof fn lemma_le_value_shift(a: Seq<u8>, b: Seq<u8>, offset_a: int, offset_b: int, width: nat)
    requires
        0 <= offset_a,
        offset_a + width <= a.len(),
        0 <= offset_b,
        offset_b + width <= b.len(),
        a.subrange(offset_a, offset_a + width) == b.subrange(offset_b, offset_b + width),
    ensures
        le_value(a, offset_a, width) == le_value(b, offset_b, width),
    decreases width,
{
    if width > 0 {
        assert(a[offset_a] == a.subrange(offset_a, offset_a + width)[0]);
        assert(b[offset_b] == b.subrange(offset_b, offset_b + width)[0]);
        assert(a.subrange(offset_a + 1, offset_a + width) == a.subrange(
            offset_a,
            offset_a + width,
        ).subrange(1, width as int));
        assert(b.subrange(offset_b + 1, offset_b + width) == b.subrange(
            offset_b,
            offset_b + width,
        ).subrange(1, width as int));
        lemma_le_value_shift(a, b, offset_a + 1, offset_b + 1, (width - 1) as nat);
    }
}

/// The bytes of a value have the width of the field.
pub proof fn lemma_le_bytes_len(value: nat, width: nat)
    ensures
        le_bytes(value, width).len() == width,
    decreases width,
{
    if width > 0 {
        lemma_le_bytes_len(value / 256, (width - 1) as nat);
    }
}

/// Reading the bytes of a value that fits its width gives back the value.
pub proof fn lemma_le_value_of_bytes(value: nat, width: nat, rest: Seq<u8>)
    requires
        value < width_bound(width),
    ensures
        le_value(le_bytes(value, width) + rest, 0, width) == value,
    decreases width,
{
    if width > 0 {
        let w1 = (width - 1) as nat;
        let tail = le_bytes(value / 256, w1);
        let whole = le_bytes(value, width) + rest;
        lemma_le_bytes_len(value / 256, w1);
        lemma_le_value_of_bytes(value / 256, w1, rest);
        assert(whole =~= seq![(value % 256) as u8] + (tail + rest));
        assert(whole.subrange(1, 1 + w1 as int) =~= (tail + rest).subrange(0, w1 as int));
        lemma_le_value_shift(whole, tail + rest, 1, 0, w1);
    }
}

/// Writing the value of bytes gives back those bytes.
pub proof fn lemma_le_bytes_of_value(s: Seq<u8>, offset: int, width: nat)
    requires
        0 <= offset,
        offset + width <= s.len(),
    ensures
        le_bytes(le_value(s, offset, width), width) == s.subrange(offset, offset + width),
    decreases width,
{
    if width > 0 {
        let w1 = (width - 1) as nat;
        lemma_le_bytes_of_value(s, offset + 1, w1);
        let v = le_value(s, offset, width);
        assert(v % 256 == s[offset] as nat);
        assert(v / 256 == le_value(s, offset + 1, w1));
        assert(le_bytes(v, width) =~= s.subrange(offset, offset + width));
    }
}

/// The first `i + 1` fields are as wide as the first `i` fields and the
/// field after them.
pub proof fn lemma_layout_size_take(widths: Seq<u8>, i: int)
    requires
        0 <= i < widths.len(),
    ensures
        layout_size(widths.take(i + 1)) == layout_size(widths.take(i)) + widths[i],
    decreases i,
{
    if i == 0 {
        assert(widths.take(0) =~= seq![]);
        assert(widths.take(1).drop_first() =~= seq![]);
    } else {
        lemma_layout_size_take(widths.drop_first(), i - 1);
        assert(widths.take(i + 1).drop_first() =~= widths.drop_first().take(i));
        assert(widths.take(i).drop_first() =~= widths.drop_first().take(i - 1));
    }
}

/// Reading fields gives one value for each field.
pub proof fn lemma_read_layout_len(s: Seq<u8>, offset: int, widths: Seq<u8>)
    requires
        read_layout(s, offset, widths) is Ok,
    ensures
        read_layout(s, offset, widths)->Ok_0.len() == widths.len(),
    decreases widths.len(),
{
    if widths.len() > 0 {
        lemma_read_layout_len(s, offset + widths[0], widths.drop_first());
    }
}

/// Reading fields one after the other gives, for each field of at most four
/// bytes, the value of its bytes: those at the total width of the fields
/// before it.
pub proof fn lemma_read_layout_at(s: Seq<u8>, offset: int, widths: Seq<u8>, i: int)
    requires
        read_layout(s, offset, widths) is Ok,
        0 <= i < widths.len(),
        widths[i] <= 4,
    ensures
        read_layout(s, offset, widths)->Ok_0[i] == le_value(s, offset + layout_size(widths.take(i)), widths[i] as nat),
    decreases i,
{
    lemma_read_layout_len(s, offset, widths);
    if i == 0 {
        assert(widths.take(0) =~= seq![]);
        lemma_le_value_bound(s, offset, widths[0] as nat);
        lemma_width_bound(widths[0] as nat);
        assert(width_bound(widths[0] as nat) <= 0x1_0000_0000) by {
            lemma_width_bound(4);
            lemma_width_bound_mono(widths[0] as nat, 4);
        }
    } else {
        lemma_read_layout_at(s, offset + widths[0], widths.drop_first(), i - 1);
        assert(widths.take(i).drop_first() =~= widths.drop_first().take(i - 1));
    }
}

/// The total width of the first `i` fields.
pub open spec fn prefix_size(widths: Seq<u8>, i: nat) -> nat
    decreases i,
{
    if i == 0 {
        0
    } else {
        prefix_size(widths, (i - 1) as nat) + widths[i - 1] as nat
    }
}

/// The total width of the first `i` fields is the width of the layout they
/// make.
pub proof fn lemma_prefix_size(widths: Seq<u8>, i: nat)
    requires
        i <= widths.len(),
    ensures
        prefix_size(widths, i) == layout_size(widths.take(i as int)),
    decreases i,
{
    if i == 0 {
        assert(widths.take(0) =~= seq![]);
    } else {
        lemma_prefix_size(widths, (i - 1) as nat);
        lemma_layout_size_take(widths, i - 1);
    }
}

/// Reading fields of at most four bytes each, one after the other, gives one
/// value for each field: the value of its bytes, those at the total width of
/// the fields before it, below the bound of its width.
pub proof fn lemma_read_layout_fields(s: Seq<u8>, offset: int, widths: Seq<u8>)
    requires
        read_layout(s, offset, widths) is Ok,
        forall|i: int| 0 <= i < widths.len() ==> #[trigger] widths[i] <= 4,
    ensures
        read_layout(s, offset, widths)->Ok_0.len() == widths.len(),
        forall|i: int|
            0 <= i < widths.len() ==> #[trigger] read_layout(s, offset, widths)->Ok_0[i] == le_value(
                s,
                offset + prefix_size(widths, i as nat),
                widths[i] as nat,
            ) && read_layout(s, offset, widths)->Ok_0[i] < width_bound(widths[i] as nat),
{
    lemma_read_layout_len(s, offset, widths);
    assert forall|i: int| 0 <= i < widths.len() implies #[trigger] read_layout(s, offset, widths)->Ok_0[i]
        == le_value(s, offset + prefix_size(widths, i as nat), widths[i] as nat) && read_layout(
        s,
        offset,
        widths,
    )->Ok_0[i] < width_bound(widths[i] as nat) by {
        lemma_read_layout_at(s, offset, widths, i);
        lemma_prefix_size(widths, i as nat);
        lemma_le_value_bound(s, offset + prefix_size(widths, i as nat), widths[i] as nat);
    }
}

/// A narrower field has fewer values.
pub proof fn lemma_width_bound_mono(a: nat, b: nat)
    requires
        a <= b,
    ensures
        width_bound(a) <= width_bound(b),
    decreases b,
{
    if a < b {
        lemma_width_bound_mono(a, (b - 1) as nat);
        lemma_width_bound((b - 1) as nat);
    }
}

/// Field values fit their widths when read from any input.
pub proof fn lemma_read_layout_fits(s: Seq<u8>, offset: int, widths: Seq<u8>)
    requires
        0 <= offset <= s.len(),
        read_layout(s, offset, widths) is Ok,
        valid_widths(widths),
    ensures
        fits_layout(read_layout(s, offset, widths)->Ok_0, widths),
        offset + layout_size(widths) <= s.len(),
    decreases widths.len(),
{
    if widths.len() > 0 {
        let w0 = widths[0];
        assert(valid_widths(widths.drop_first()));
        lemma_read_layout_fits(s, offset + w0, widths.drop_first());
        lemma_le_value_bound(s, offset, w0 as nat);
        lemma_width_bound(w0 as nat);
        let values = read_layout(s, offset, widths)->Ok_0;
        let rest = read_layout(s, offset + w0, widths.drop_first())->Ok_0;
        assert forall|i: int| 0 <= i < values.len() implies values[i] < width_bound(
            #[trigger] widths[i] as nat,
        ) by {
            if i > 0 {
                assert(values[i] == rest[i - 1]);
                assert(widths[i] == widths.drop_first()[i - 1]);
            }
        }
    }
}

/// Encoding field values gives as many bytes as the layout is wide.
pub proof fn lemma_encode_layout_len(values: Seq<u32>, widths: Seq<u8>)
    requires
        values.len() == widths.len(),
    ensures
        encode_layout(values, widths).len() == layout_size(widths),
    decreases widths.len(),
{
    if widths.len() > 0 {
        lemma_le_bytes_len(values[0] as nat, widths[0] as nat);
        lemma_encode_layout_len(values.drop_first(), widths.drop_first());
    }
}

/// Reading the encoding of field values gives back the values, whatever follows them.
pub proof fn lemma_read_encoded_layout(values: Seq<u32>, widths: Seq<u8>, rest: Seq<u8>)
    requires
        fits_layout(values, widths),
    ensures
        read_layout(encode_layout(values, widths) + rest, 0, widths) == Ok::<Seq<u32>, ReadError>(
            values,
        ),
    decreases widths.len(),
{
    if widths.len() > 0 {
        let w0 = widths[0];
        let head = le_bytes(values[0] as nat, w0 as nat);
        let tail = encode_layout(values.drop_first(), widths.drop_first());
        let whole = encode_layout(values, widths) + rest;
        assert(fits_layout(values.drop_first(), widths.drop_first())) by {
            assert forall|i: int| 0 <= i < values.drop_first().len() implies values.drop_first()[i]
                < width_bound(#[trigger] widths.drop_first()[i] as nat) by {
                assert(values.drop_first()[i] == values[i + 1]);
                assert(widths.drop_first()[i] == widths[i + 1]);
            }
        }
        assert(values[0] < width_bound(widths[0] as nat));
        lemma_read_encoded_layout(values.drop_first(), widths.drop_first(), rest);
        lemma_le_bytes_len(values[0] as nat, w0 as nat);
        lemma_encode_layout_len(values.drop_first(), widths.drop_first());
        assert(whole =~= head + (tail + rest));
        lemma_le_value_of_bytes(values[0] as nat, w0 as nat, tail + rest);
        lemma_read_layout_skip(head, tail + rest, widths.drop_first());
        assert(seq![values[0]] + values.drop_first() =~= values);
    } else {
        assert(values =~= seq![]);
    }
}

/// Reading after a prefix is reading the rest.
pub proof fn lemma_read_layout_skip(prefix: Seq<u8>, s: Seq<u8>, widths: Seq<u8>)
    ensures
        read_layout(prefix + s, prefix.len() as int, widths) == read_layout(s, 0, widths),
{
    lemma_read_layout_skip_at(prefix, s, 0, widths);
}

pub proof fn lemma_read_layout_skip_at(prefix: Seq<u8>, s: Seq<u8>, offset: int, widths: Seq<u8>)
    requires
        0 <= offset,
    ensures
        read_layout(prefix + s, prefix.len() + offset, widths) == read_layout(s, offset, widths),
    decreases widths.len(),
{
    if widths.len() > 0 {
        let w0 = widths[0];
        lemma_read_layout_skip_at(prefix, s, offset + w0, widths.drop_first());
        if s.len() - offset >= w0 {
            assert((prefix + s).subrange(prefix.len() + offset, prefix.len() + offset + w0)
                =~= s.subrange(offset, offset + w0));
            lemma_le_value_shift(prefix + s, s, prefix.len() + offset, offset, w0 as nat);
        }
    }
}

/// Encoding the values read from an input gives back the bytes that were read.
pub proof fn lemma_encode_read_layout(s: Seq<u8>, offset: int, widths: Seq<u8>)
    requires
        0 <= offset <= s.len(),
        read_layout(s, offset, widths) is Ok,
        valid_widths(widths),
    ensures
        encode_layout(read_layout(s, offset, widths)->Ok_0, widths) == s.subrange(
            offset,
            offset + layout_size(widths),
        ),
    decreases widths.len(),
{
    if widths.len() > 0 {
        let w0 = widths[0];
        assert(valid_widths(widths.drop_first()));
        lemma_encode_read_layout(s, offset + w0, widths.drop_first());
        lemma_read_layout_fits(s, offset, widths);
        lemma_le_value_bound(s, offset, w0 as nat);
        lemma_width_bound(w0 as nat);
        lemma_le_bytes_of_value(s, offset, w0 as nat);
        let values = read_layout(s, offset, widths)->Ok_0;
        assert(values.drop_first() =~= read_layout(s, offset + w0, widths.drop_first())->Ok_0);
        assert(values[0] as nat == le_value(s, offset, w0 as nat));
        assert(s.subrange(offset, offset + layout_size(widths)) =~= s.subrange(offset, offset + w0)
            + s.subrange(offset + w0, offset + w0 + layout_size(widths.drop_first())));
    }
}

/// Reads a byte with `bytes::Buf::try_get_u8` from the input at `pos`.
///
/// Claims of the outside function: with at least one byte left it gives that
/// byte; otherwise it fails with one byte requested and the number of bytes left
/// available.
#[verifier::external_body]
fn try_get_u8(data: &[u8], pos: usize) -> (read: Result<u8, ReadError>)
    requires
        pos <= data.len(),
    ensures
        data.len() - pos >= 1 ==> read is Ok,
        read matches Ok(v) ==> v == data@[pos as int],
        data.len() - pos < 1 ==> read is Err,
        read matches Err(e) ==> e == (ReadError { requested: 1, available: (data.len() - pos) as usize }),
{
    let mut rest: &[u8] = &data[pos..];
    match bytes::Buf::try_get_u8(&mut rest) {
        Ok(value) => Ok(value),
        Err(e) => Err(ReadError { requested: e.requested, available: e.available }),
    }
}

/// Reads a little-endian `u16` with `bytes::Buf::try_get_u16_le` from the input at `pos`.
///
/// Claims of the outside function: with at least two bytes left it gives the
/// first plus 256 times the second; otherwise it fails with two bytes requested
/// and the number of bytes left available.
#[verifier::external_body]
fn try_get_u16_le(data: &[u8], pos: usize) -> (read: Result<u16, ReadError>)
    requires
        pos <= data.len(),
    ensures
        data.len() - pos >= 2 ==> read is Ok,
        read matches Ok(v) ==> v == data@[pos as int] + 256 * data@[pos + 1],
        data.len() - pos < 2 ==> read is Err,
        read matches Err(e) ==> e == (ReadError { requested: 2, available: (data.len() - pos) as usize }),
{
    let mut rest: &[u8] = &data[pos..];
    match bytes::Buf::try_get_u16_le(&mut rest) {
        Ok(value) => Ok(value),
        Err(e) => Err(ReadError { requested: e.requested, available: e.available }),
    }
}

/// Reads a little-endian `u32` with `bytes::Buf::try_get_u32_le` from the input at `pos`.
///
/// Claims of the outside function: with at least four bytes left it gives their
/// little-endian value; otherwise it fails with four bytes requested and the
/// number of bytes left available.
#[verifier::external_body]
fn try_get_u32_le(data: &[u8], pos: usize) -> (read: Result<u32, ReadError>)
    requires
        pos <= data.len(),
    ensures
        data.len() - pos >= 4 ==> read is Ok,
        read matches Ok(v) ==> v == data@[pos as int] + 256 * data@[pos + 1] + 65536 * data@[pos + 2] + 16777216 * data@[pos + 3],
        data.len() - pos < 4 ==> read is Err,
        read matches Err(e) ==> e == (ReadError { requested: 4, available: (data.len() - pos) as usize }),
{
    let mut rest: &[u8] = &data[pos..];
    match bytes::Buf::try_get_u32_le(&mut rest) {
        Ok(value) => Ok(value),
        Err(e) => Err(ReadError { requested: e.requested, available: e.available }),
    }
}

/// Copies `count` bytes from the input at `pos` with `bytes::Buf::try_copy_to_slice`.
///
/// Claims of the outside function: with at least `count` bytes left it fills the
/// destination with the next `count` bytes; otherwise it fails with `count` bytes
/// requested and the number of bytes left available.
#[verifier::external_body]
pub(crate) fn try_copy_bytes(data: &[u8], pos: usize, count: usize) -> (copied: Result<Vec<u8>, ReadError>)
    requires
        pos <= data.len(),
    ensures
        data.len() - pos >= count ==> copied is Ok,
        copied matches Ok(v) ==> v@ == data@.subrange(pos as int, pos + count),
        data.len() - pos < count ==> copied is Err,
        copied matches Err(e) ==> e == (ReadError { requested: count, available: (data.len() - pos) as usize }),
{
    let mut rest: &[u8] = &data[pos..];
    let mut out: Vec<u8> = vec![0u8; count];
    match bytes::Buf::try_copy_to_slice(&mut rest, &mut out) {
        Ok(()) => Ok(out),
        Err(e) => Err(ReadError { requested: e.requested, available: e.available }),
    }
}

/// Reads one field of the given width at `pos`.
pub fn read_field(data: &[u8], pos: usize, width: u8) -> (r: Result<u32, ReadError>)
    requires
        pos <= data.len(),
        width == 1 || width == 2 || width == 4,
    ensures
        data.len() - pos >= width ==> r == Ok::<u32, ReadError>(
            le_value(data@, pos as int, width as nat) as u32,
        ),
        data.len() - pos < width ==> r == Err::<u32, ReadError>(
            ReadError { requested: width as usize, available: (data.len() - pos) as usize },
        ),
{
    proof {
        reveal_with_fuel(le_value, 5);
    }
    if width == 1 {
        match try_get_u8(data, pos) {
            Ok(v) => Ok(v as u32),
            Err(e) => Err(e),
        }
    } else if width == 2 {
        match try_get_u16_le(data, pos) {
            Ok(v) => Ok(v as u32),
            Err(e) => Err(e),
        }
    } else {
        try_get_u32_le(data, pos)
    }
}

/// Reads fields of the given widths from `pos` on, stopping at the first that does not fit.
pub fn read_fields(data: &[u8], pos: usize, widths: &Vec<u8>) -> (r: Result<Vec<u32>, ReadError>)
    requires
        pos <= data.len(),
        valid_widths(widths@),
    ensures
        r matches Ok(values) ==> read_layout(data@, pos as int, widths@) == Ok::<
            Seq<u32>,
            ReadError,
        >(values@),
        r matches Err(e) ==> read_layout(data@, pos as int, widths@) == Err::<Seq<u32>, ReadError>(
            e,
        ),
{
    let mut values: Vec<u32> = Vec::new();
    let mut p: usize = pos;
    let mut i: usize = 0;
    assert(widths@.skip(0) =~= widths@);
    proof {
        match read_layout(data@, pos as int, widths@) {
            Ok(all) => {
                assert(values@ + all =~= all);
            },
            Err(_) => {},
        }
    }
    while i < widths.len()
        invariant
            i <= widths.len(),
            pos <= p <= data.len(),
            valid_widths(widths@),
            read_layout(data@, pos as int, widths@) == prepend_values(
                values@,
                read_layout(data@, p as int, widths@.skip(i as int)),
            ),
        decreases widths.len() - i,
    {
        let width = widths[i];
        let ghost rest = widths@.skip(i as int);
        assert(rest[0] == width);
        assert(rest.drop_first() =~= widths@.skip(i + 1));
        match read_field(data, p, width) {
            Ok(v) => {
                let ghost old_values = values@;
                values.push(v);
                p = p + width as usize;
                i = i + 1;
                proof {
                    match read_layout(data@, p as int, widths@.skip(i as int)) {
                        Ok(tail) => {
                            assert(old_values + (seq![v] + tail) =~= values@ + tail);
                        },
                        Err(_) => {},
                    }
                }
            },
            Err(e) => {
                return Err(e);
            },
        }
    }
    assert(values@ + seq![] =~= values@);
    Ok(values)
}

/// Appends the bytes of a value in the given width, least significant first.
pub fn write_field(out: &mut Vec<u8>, value: u32, width: u8)
    requires
        width == 1 || width == 2 || width == 4,
    ensures
        final(out)@ == old(out)@ + le_bytes(value as nat, width as nat),
{
    let mut v: u32 = value;
    let mut k: u8 = 0;
    let ghost start = old(out)@;
    while k < width
        invariant
            k <= width,
            start + le_bytes(value as nat, width as nat) == out@ + le_bytes(
                v as nat,
                (width - k) as nat,
            ),
        decreases width - k,
    {
        let ghost before = out@;
        out.push((v % 256) as u8);
        assert(le_bytes(v as nat, (width - k) as nat) == seq![(v % 256) as u8] + le_bytes(
            (v / 256) as nat,
            (width - k - 1) as nat,
        ));
        assert(before + (seq![(v % 256) as u8] + le_bytes((v / 256) as nat, (width - k - 1) as nat))
            =~= out@ + le_bytes((v / 256) as nat, (width - k - 1) as nat));
        v = v / 256;
        k = k + 1;
    }
    assert(out@ + le_bytes(v as nat, 0) =~= out@);
}

/// Appends the bytes of the given field values, each in its width.
pub fn write_fields(out: &mut Vec<u8>, values: &Vec<u32>, widths: &Vec<u8>)
    requires
        values@.len() == widths@.len(),
        valid_widths(widths@),
    ensures
        final(out)@ == old(out)@ + encode_layout(values@, widths@),
{
    let ghost start = old(out)@;
    let mut i: usize = 0;
    assert(widths@.skip(0) =~= widths@);
    assert(values@.skip(0) =~= values@);
    while i < widths.len()
        invariant
            i <= widths.len(),
            values@.len() == widths@.len(),
            valid_widths(widths@),
            start + encode_layout(values@, widths@) == out@ + encode_layout(
                values@.skip(i as int),
                widths@.skip(i as int),
            ),
        decreases widths.len() - i,
    {
        let ghost vs = values@.skip(i as int);
        let ghost ws = widths@.skip(i as int);
        assert(vs.drop_first() =~= values@.skip(i + 1));
        assert(ws.drop_first() =~= widths@.skip(i + 1));
        let ghost before = out@;
        write_field(out, values[i], widths[i]);
        assert(before + encode_layout(vs, ws) =~= out@ + encode_layout(
            values@.skip(i + 1),
            widths@.skip(i + 1),
        ));
        i = i + 1;
    }
    assert(out@ + encode_layout(values@.skip(i as int), widths@.skip(i as int)) =~= out@);
}

} // verus!
