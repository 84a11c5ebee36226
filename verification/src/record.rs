//! Records: a header of serial type codes, followed by the values that the
//! codes describe.

use vstd::prelude::*;
use vstd::slice::{slice_subrange, slice_to_vec};
use vstd::utf8::{decode_utf8, valid_utf8};
use crate::endian::{be_int, be_uint, lemma_be_uint_bound, lemma_pow256_values, read_be, read_be_signed};
use crate::error::FormatError;
use crate::text::{decode_text, TextEncoding};
use crate::varint::{lemma_varint_range, read_varint, varint_complete, varint_len, varint_value};

verus! {

/// The kind of a value in a record, with the length in bytes of those kinds
/// whose length varies.
#[derive(Debug, Clone, Copy, PartialEq, Eq, Structural)]
pub enum RecordSerialType {
    Null,
    I8,
    I16,
    I24,
    I32,
    I48,
    I64,
    F64,
    Zero,
    One,
    Blob(u64),
    String(u64),
}

/// The kind that a serial type code stands for. Codes 10 and 11 are reserved;
/// from 12 on, an even code is a blob and an odd code is text, and the length
/// is what the code exceeds 12 or 13 by, halved.
pub open spec fn serial_type_of(code: u64) -> Result<RecordSerialType, FormatError> {
    if code == 0 {
        Ok(RecordSerialType::Null)
    } else if code == 1 {
        Ok(RecordSerialType::I8)
    } else if code == 2 {
        Ok(RecordSerialType::I16)
    } else if code == 3 {
        Ok(RecordSerialType::I24)
    } else if code == 4 {
        Ok(RecordSerialType::I32)
    } else if code == 5 {
        Ok(RecordSerialType::I48)
    } else if code == 6 {
        Ok(RecordSerialType::I64)
    } else if code == 7 {
        Ok(RecordSerialType::F64)
    } else if code == 8 {
        Ok(RecordSerialType::Zero)
    } else if code == 9 {
        Ok(RecordSerialType::One)
    } else if code == 10 || code == 11 {
        Err(FormatError::ReservedSerialType)
    } else if code % 2 == 0 {
        Ok(RecordSerialType::Blob(((code - 12) / 2) as u64))
    } else {
        Ok(RecordSerialType::String(((code - 13) / 2) as u64))
    }
}

impl RecordSerialType {
    /// The number of bytes that a value of this kind occupies in a record.
    pub open spec fn spec_len(self) -> nat {
        match self {
            RecordSerialType::Null => 0,
            RecordSerialType::I8 => 1,
            RecordSerialType::I16 => 2,
            RecordSerialType::I24 => 3,
            RecordSerialType::I32 => 4,
            RecordSerialType::I48 => 6,
            RecordSerialType::I64 => 8,
            RecordSerialType::F64 => 8,
            RecordSerialType::Zero => 0,
            RecordSerialType::One => 0,
            RecordSerialType::Blob(n) => n as nat,
            RecordSerialType::String(n) => n as nat,
        }
    }

    /// The kind that the serial type code `value` stands for.
    pub fn from(value: u64) -> (r: Result<RecordSerialType, FormatError>)
        ensures
            r == serial_type_of(value),
    {
        match value {
            0 => Ok(RecordSerialType::Null),
            1 => Ok(RecordSerialType::I8),
            2 => Ok(RecordSerialType::I16),
            3 => Ok(RecordSerialType::I24),
            4 => Ok(RecordSerialType::I32),
            5 => Ok(RecordSerialType::I48),
            6 => Ok(RecordSerialType::I64),
            7 => Ok(RecordSerialType::F64),
            8 => Ok(RecordSerialType::Zero),
            9 => Ok(RecordSerialType::One),
            10 | 11 => Err(FormatError::ReservedSerialType),
            _ => {
                if value % 2 == 0 {
                    Ok(RecordSerialType::Blob((value - 12) / 2))
                } else {
                    Ok(RecordSerialType::String((value - 13) / 2))
                }
            },
        }
    }

    /// The number of bytes that a value of this kind occupies in a record.
    pub fn len(&self) -> (n: u64)
        ensures
            n == self.spec_len(),
    {
        match self {
            RecordSerialType::Null => 0,
            RecordSerialType::I8 => 1,
            RecordSerialType::I16 => 2,
            RecordSerialType::I24 => 3,
            RecordSerialType::I32 => 4,
            RecordSerialType::I48 => 6,
            RecordSerialType::I64 => 8,
            RecordSerialType::F64 => 8,
            RecordSerialType::Zero => 0,
            RecordSerialType::One => 0,
            RecordSerialType::Blob(len) => *len,
            RecordSerialType::String(len) => *len,
        }
    }
}

/// A value of a record. A floating-point value is held as the 64 bits of its
/// IEEE-754 encoding.
#[derive(Debug, Clone, PartialEq, Eq)]
pub enum RecordValue {
    Null,
    I8(i8),
    I16(i16),
    I24(i32),
    I32(i32),
    I48(i64),
    I64(i64),
    F64(u64),
    Zero,
    One,
    Blob(Vec<u8>),
    String(String),
}

/// What a [`RecordValue`] holds.
pub enum RecordValueView {
    Null,
    I8(i8),
    I16(i16),
    I24(i32),
    I32(i32),
    I48(i64),
    I64(i64),
    F64(u64),
    Zero,
    One,
    Blob(Seq<u8>),
    String(Seq<char>),
}

impl View for RecordValue {
    type V = RecordValueView;

    open spec fn view(&self) -> RecordValueView {
        match *self {
            RecordValue::Null => RecordValueView::Null,
            RecordValue::I8(v) => RecordValueView::I8(v),
            RecordValue::I16(v) => RecordValueView::I16(v),
            RecordValue::I24(v) => RecordValueView::I24(v),
            RecordValue::I32(v) => RecordValueView::I32(v),
            RecordValue::I48(v) => RecordValueView::I48(v),
            RecordValue::I64(v) => RecordValueView::I64(v),
            RecordValue::F64(v) => RecordValueView::F64(v),
            RecordValue::Zero => RecordValueView::Zero,
            RecordValue::One => RecordValueView::One,
            RecordValue::Blob(v) => RecordValueView::Blob(v@),
            RecordValue::String(v) => RecordValueView::String(v@),
        }
    }
}

/// What each of the values in `values` holds.
pub open spec fn values_view(values: Seq<RecordValue>) -> Seq<RecordValueView> {
    values.map_values(|v: RecordValue| v@)
}

/// The value of kind `t` that `bytes` encode, where `bytes` are the
/// `t.spec_len()` bytes of the value. Integers are big-endian and signed; text
/// is decoded only from UTF-8.
pub open spec fn value_of(t: RecordSerialType, bytes: Seq<u8>, text_encoding: TextEncoding) -> Result<
    RecordValueView,
    FormatError,
> {
    match t {
        RecordSerialType::Null => Ok(RecordValueView::Null),
        RecordSerialType::I8 => Ok(RecordValueView::I8(be_int(bytes) as i8)),
        RecordSerialType::I16 => Ok(RecordValueView::I16(be_int(bytes) as i16)),
        RecordSerialType::I24 => Ok(RecordValueView::I24(be_int(bytes) as i32)),
        RecordSerialType::I32 => Ok(RecordValueView::I32(be_int(bytes) as i32)),
        RecordSerialType::I48 => Ok(RecordValueView::I48(be_int(bytes) as i64)),
        RecordSerialType::I64 => Ok(RecordValueView::I64(be_int(bytes) as i64)),
        RecordSerialType::F64 => Ok(RecordValueView::F64(be_uint(bytes) as u64)),
        RecordSerialType::Zero => Ok(RecordValueView::Zero),
        RecordSerialType::One => Ok(RecordValueView::One),
        RecordSerialType::Blob(_) => Ok(RecordValueView::Blob(bytes)),
        RecordSerialType::String(_) => match text_encoding {
            TextEncoding::Utf8 => if valid_utf8(bytes) {
                Ok(RecordValueView::String(decode_utf8(bytes)))
            } else {
                Err(FormatError::InvalidText)
            },
            _ => Err(FormatError::UnsupportedTextEncoding),
        },
    }
}

/// `done` followed by what `rest` holds, or the failure of `rest`.
pub open spec fn then_all<T>(done: Seq<T>, rest: Result<Seq<T>, FormatError>) -> Result<
    Seq<T>,
    FormatError,
> {
    match rest {
        Ok(r) => Ok(done + r),
        Err(e) => Err(e),
    }
}

/// The serial types that the record header `header` lists from byte `pos` on.
/// The codes are varints that fill the header exactly; a code that is cut off
/// by the end of the header is a truncation.
pub open spec fn col_types_from(header: Seq<u8>, pos: int) -> Result<
    Seq<RecordSerialType>,
    FormatError,
>
    decreases header.len() - pos,
{
    if pos == header.len() {
        Ok(Seq::empty())
    } else if pos < 0 || pos > header.len() {
        Err(FormatError::TruncatedRecord)
    } else {
        let rest = header.subrange(pos, header.len() as int);
        if !varint_complete(rest) {
            Err(FormatError::TruncatedRecord)
        } else {
            match serial_type_of(varint_value(rest) as u64) {
                Err(e) => Err(e),
                Ok(t) => {
                    proof {
                        lemma_varint_range(rest);
                    }
                    then_all(seq![t], col_types_from(header, pos + varint_len(rest)))
                },
            }
        }
    }
}

/// The values of the kinds `types[i..]`, laid out one after the other in `s`
/// from byte `pos` on. A value that reaches beyond the end of `s` is a truncation.
pub open spec fn values_from(
    s: Seq<u8>,
    types: Seq<RecordSerialType>,
    i: int,
    pos: int,
    text_encoding: TextEncoding,
) -> Result<Seq<RecordValueView>, FormatError>
    decreases types.len() - i,
{
    if i < 0 || i >= types.len() {
        Ok(Seq::empty())
    } else {
        let n = types[i].spec_len();
        if pos + n > s.len() {
            Err(FormatError::TruncatedRecord)
        } else {
            match value_of(types[i], s.subrange(pos, pos + n), text_encoding) {
                Err(e) => Err(e),
                Ok(v) => then_all(seq![v], values_from(s, types, i + 1, pos + n, text_encoding)),
            }
        }
    }
}

/// The header of a record: its length in bytes, the length's own varint
/// included, and the kinds of the record's values in order.
#[derive(Debug, Clone, PartialEq, Eq)]
pub struct RecordHeader {
    pub len: u64,
    pub col_types: Vec<RecordSerialType>,
}

/// The header that the record `s` starts with.
pub open spec fn record_header_of(s: Seq<u8>) -> Result<(u64, Seq<RecordSerialType>), FormatError> {
    if !varint_complete(s) || varint_value(s) > s.len() {
        Err(FormatError::TruncatedRecord)
    } else {
        match col_types_from(s.subrange(0, varint_value(s) as int), varint_len(s)) {
            Err(e) => Err(e),
            Ok(types) => Ok((varint_value(s) as u64, types)),
        }
    }
}

impl RecordHeader {
    /// Decodes the header at the front of the record `buf`.
    pub fn new(buf: &[u8]) -> (r: Result<RecordHeader, FormatError>)
        ensures
            match r {
                Ok(h) => record_header_of(buf@) == Ok::<_, FormatError>((h.len, h.col_types@)),
                Err(e) => record_header_of(buf@) == Err::<(u64, Seq<RecordSerialType>), _>(e),
            },
    {
        let ghost s = buf@;
        assert(s.subrange(0, s.len() as int) =~= s);
        let (len, len_len) = match read_varint(buf, 0, buf.len()) {
            Some(r) => r,
            None => {
                return Err(FormatError::TruncatedRecord);
            },
        };
        if len > buf.len() as u64 {
            return Err(FormatError::TruncatedRecord);
        }
        let end: usize = len as usize;
        let ghost header = s.subrange(0, end as int);
        let mut col_types: Vec<RecordSerialType> = Vec::new();
        let mut idx: usize = len_len;
        proof {
            lemma_varint_range(s);
        }
        while idx != end
            invariant
                s == buf@,
                end <= s.len(),
                header == s.subrange(0, end as int),
                varint_complete(s),
                len == varint_value(s),
                len_len == varint_len(s),
                end == len,
                then_all(col_types@, col_types_from(header, idx as int)) == col_types_from(
                    header,
                    len_len as int,
                ),
            ensures
                idx == end,
                col_types_from(header, len_len as int) == Ok::<_, FormatError>(col_types@),
            decreases
                    if idx <= end {
                        end - idx
                    } else {
                        0
                    },
        {
            if idx > end {
                return Err(FormatError::TruncatedRecord);
            }
            let ghost rest = header.subrange(idx as int, end as int);
            assert(rest =~= s.subrange(idx as int, end as int));
            proof {
                lemma_varint_range(rest);
            }
            let (type_id, n) = match read_varint(buf, idx, end) {
                Some(r) => r,
                None => {
                    return Err(FormatError::TruncatedRecord);
                },
            };
            let t = match RecordSerialType::from(type_id) {
                Ok(t) => t,
                Err(e) => {
                    return Err(e);
                },
            };
            proof {
                let tail = col_types_from(header, idx + n);
                assert(col_types_from(header, idx as int) == then_all(seq![t], tail));
                if let Ok(r) = tail {
                    assert(col_types@.push(t) + r =~= col_types@ + (seq![t] + r));
                }
            }
            col_types.push(t);
            idx += n;
        }
        assert(col_types@ + Seq::<RecordSerialType>::empty() =~= col_types@);
        Ok(RecordHeader { len, col_types })
    }
}

/// A decoded record.
#[derive(Debug, Clone, PartialEq, Eq)]
pub struct Record {
    pub header: RecordHeader,
    pub values: Vec<RecordValue>,
}

/// What a [`Record`] holds.
pub struct RecordView {
    pub header_len: u64,
    pub col_types: Seq<RecordSerialType>,
    pub values: Seq<RecordValueView>,
}

impl View for Record {
    type V = RecordView;

    open spec fn view(&self) -> RecordView {
        RecordView {
            header_len: self.header.len,
            col_types: self.header.col_types@,
            values: values_view(self.values@),
        }
    }
}

/// The record that the bytes `s` encode: the header, and then one value for
/// each serial type of the header, in the header's order, starting right after
/// the header.
pub open spec fn record_of(s: Seq<u8>, text_encoding: TextEncoding) -> Result<RecordView, FormatError> {
    match record_header_of(s) {
        Err(e) => Err(e),
        Ok((len, types)) => match values_from(s, types, 0, len as int, text_encoding) {
            Err(e) => Err(e),
            Ok(values) => Ok(RecordView { header_len: len, col_types: types, values }),
        },
    }
}

/// Whether the value `v` is of the kind `t`, and as long as `t` says.
pub open spec fn value_has_type(v: RecordValueView, t: RecordSerialType) -> bool {
    match t {
        RecordSerialType::Null => v is Null,
        RecordSerialType::I8 => v is I8,
        RecordSerialType::I16 => v is I16,
        RecordSerialType::I24 => v is I24,
        RecordSerialType::I32 => v is I32,
        RecordSerialType::I48 => v is I48,
        RecordSerialType::I64 => v is I64,
        RecordSerialType::F64 => v is F64,
        RecordSerialType::Zero => v is Zero,
        RecordSerialType::One => v is One,
        RecordSerialType::Blob(n) => v matches RecordValueView::Blob(b) && b.len() == n,
        RecordSerialType::String(_) => v is String,
    }
}

/// The number of bytes that values of the kinds `types[i..]` occupy.
pub open spec fn values_size(types: Seq<RecordSerialType>, i: int) -> nat
    decreases types.len() - i,
{
    if i < 0 || i >= types.len() {
        0
    } else {
        types[i].spec_len() + values_size(types, i + 1)
    }
}

impl RecordView {
    /// A record has one value for each serial type of its header, each of
    /// the kind that its serial type names.
    pub open spec fn wf(self) -> bool {
        &&& self.values.len() == self.col_types.len()
        &&& forall|i: int|
            0 <= i < self.values.len() ==> value_has_type(#[trigger] self.values[i], self.col_types[i])
    }
}

/// The values that are decoded for `types[i..]` are as many as those types,
/// each of its type's kind, and they lie within the bytes.
pub proof fn lemma_values_match_types(
    s: Seq<u8>,
    types: Seq<RecordSerialType>,
    i: int,
    pos: int,
    text_encoding: TextEncoding,
)
    requires
        0 <= i <= types.len(),
        0 <= pos <= s.len(),
        values_from(s, types, i, pos, text_encoding) is Ok,
    ensures
        values_from(s, types, i, pos, text_encoding)->Ok_0.len() == types.len() - i,
        forall|j: int|
            0 <= j < types.len() - i ==> value_has_type(
                #[trigger] values_from(s, types, i, pos, text_encoding)->Ok_0[j],
                types[i + j],
            ),
        pos + values_size(types, i) <= s.len(),
    decreases types.len() - i,
{
    if i < types.len() {
        let n = types[i].spec_len();
        let v = value_of(types[i], s.subrange(pos, pos + n), text_encoding)->Ok_0;
        let rest = values_from(s, types, i + 1, pos + n, text_encoding);
        lemma_values_match_types(s, types, i + 1, pos + n, text_encoding);
        let all = values_from(s, types, i, pos, text_encoding)->Ok_0;
        assert(all == seq![v] + rest->Ok_0);
        assert forall|j: int| 0 <= j < types.len() - i implies value_has_type(#[trigger] all[j], types[i + j]) by {
            if j > 0 {
                assert(all[j] == rest->Ok_0[j - 1]);
                assert(value_has_type(rest->Ok_0[j - 1], types[i + 1 + (j - 1)]));
            } else {
                assert(all[0] == v);
                assert(s.subrange(pos, pos + n).len() == n);
            }
        }
    }
}

/// A record that decodes is well formed, and its values lie within the bytes
/// that were decoded: the header and the values together are no longer than
/// the buffer.
pub proof fn lemma_record_wf(s: Seq<u8>, text_encoding: TextEncoding)
    requires
        record_of(s, text_encoding) is Ok,
    ensures
        record_of(s, text_encoding)->Ok_0.wf(),
        record_of(s, text_encoding)->Ok_0.header_len + values_size(
            record_of(s, text_encoding)->Ok_0.col_types,
            0,
        ) <= s.len(),
{
    let (len, types) = record_header_of(s)->Ok_0;
    lemma_values_match_types(s, types, 0, len as int, text_encoding);
}

/// Decoding is a function of the bytes and the text encoding: two outcomes of
/// decoding the same record either both fail, with the same error, or both
/// give records that hold the same header and the same values.
pub proof fn lemma_record_decoding_repeats(
    s: Seq<u8>,
    text_encoding: TextEncoding,
    first: Result<Record, FormatError>,
    second: Result<Record, FormatError>,
)
    requires
        decodes_record(s, text_encoding, first),
        decodes_record(s, text_encoding, second),
    ensures
        first is Ok <==> second is Ok,
        first is Ok ==> first->Ok_0@ == second->Ok_0@,
        first is Ok ==> values_view(first->Ok_0.values@) == values_view(second->Ok_0.values@),
        first is Err ==> first->Err_0 == second->Err_0,
{
}

/// Whether `r` is the outcome of decoding the record `s`.
pub open spec fn decodes_record(s: Seq<u8>, text_encoding: TextEncoding, r: Result<Record, FormatError>) -> bool {
    match r {
        Ok(record) => record_of(s, text_encoding) == Ok::<_, FormatError>(record@),
        Err(e) => record_of(s, text_encoding) == Err::<RecordView, _>(e),
    }
}

/// Decodes the value of kind `t` that starts at byte `pos` of `buf`.
pub fn read_value(buf: &[u8], pos: usize, t: RecordSerialType, text_encoding: TextEncoding) -> (r: Result<
    RecordValue,
    FormatError,
>)
    requires
        pos + t.spec_len() <= buf@.len(),
    ensures
        match r {
            Ok(v) => value_of(t, buf@.subrange(pos as int, pos + t.spec_len()), text_encoding) == Ok::<
                _,
                FormatError,
            >(v@),
            Err(e) => value_of(t, buf@.subrange(pos as int, pos + t.spec_len()), text_encoding) == Err::<
                RecordValueView,
                _,
            >(e),
        },
{
    let total: usize = buf.len();
    proof {
        lemma_pow256_values();
        lemma_be_uint_bound(buf@.subrange(pos as int, pos + t.spec_len()));
    }
    match t {
        RecordSerialType::Null => Ok(RecordValue::Null),
        RecordSerialType::I8 => Ok(RecordValue::I8(read_be_signed(buf, pos, 1) as i8)),
        RecordSerialType::I16 => Ok(RecordValue::I16(read_be_signed(buf, pos, 2) as i16)),
        RecordSerialType::I24 => Ok(RecordValue::I24(read_be_signed(buf, pos, 3) as i32)),
        RecordSerialType::I32 => Ok(RecordValue::I32(read_be_signed(buf, pos, 4) as i32)),
        RecordSerialType::I48 => Ok(RecordValue::I48(read_be_signed(buf, pos, 6))),
        RecordSerialType::I64 => Ok(RecordValue::I64(read_be_signed(buf, pos, 8))),
        RecordSerialType::F64 => Ok(RecordValue::F64(read_be(buf, pos, 8))),
        RecordSerialType::Zero => Ok(RecordValue::Zero),
        RecordSerialType::One => Ok(RecordValue::One),
        RecordSerialType::Blob(len) => {
            let bytes = slice_subrange(buf, pos, pos + len as usize);
            Ok(RecordValue::Blob(slice_to_vec(bytes)))
        },
        RecordSerialType::String(len) => match text_encoding {
            TextEncoding::Utf8 => {
                let bytes = slice_subrange(buf, pos, pos + len as usize);
                match decode_text(bytes) {
                    Some(text) => Ok(RecordValue::String(text)),
                    None => Err(FormatError::InvalidText),
                }
            },
            _ => Err(FormatError::UnsupportedTextEncoding),
        },
    }
}

impl Record {
    /// Decodes the record that `buf` holds. Text values are decoded as
    /// `text_encoding` says. Bytes of `buf` behind the last value are not read.
    pub fn new(buf: &[u8], text_encoding: &TextEncoding) -> (r: Result<Record, FormatError>)
        ensures
            decodes_record(buf@, *text_encoding, r),
            r matches Ok(record) ==> record@.wf(),
    {
        proof {
            if record_of(buf@, *text_encoding) is Ok {
                lemma_record_wf(buf@, *text_encoding);
            }
        }
        let header = match RecordHeader::new(buf) {
            Ok(h) => h,
            Err(e) => {
                return Err(e);
            },
        };
        let ghost s = buf@;
        let ghost types = header.col_types@;
        let ghost start = header.len as int;
        let total: usize = buf.len();
        let mut values: Vec<RecordValue> = Vec::new();
        let mut idx: usize = header.len as usize;
        let mut i: usize = 0;
        assert(values_view(values@) =~= Seq::<RecordValueView>::empty());
        while i < header.col_types.len()
            invariant
                s == buf@,
                total == s.len(),
                types == header.col_types@,
                start == header.len,
                record_header_of(s) == Ok::<_, FormatError>((header.len, types)),
                i <= types.len(),
                idx <= total,
                then_all(values_view(values@), values_from(s, types, i as int, idx as int, *text_encoding))
                    == values_from(s, types, 0, start, *text_encoding),
            decreases types.len() - i,
        {
            let t = header.col_types[i];
            let n = t.len();
            if n > (total - idx) as u64 {
                return Err(FormatError::TruncatedRecord);
            }
            let value = match read_value(buf, idx, t, *text_encoding) {
                Ok(v) => v,
                Err(e) => {
                    return Err(e);
                },
            };
            proof {
                let tail = values_from(s, types, i + 1, idx + n, *text_encoding);
                assert(values_from(s, types, i as int, idx as int, *text_encoding) == then_all(
                    seq![value@],
                    tail,
                ));
                assert(values_view(values@.push(value)) =~= values_view(values@).push(value@));
                if let Ok(r) = tail {
                    assert(values_view(values@).push(value@) + r =~= values_view(values@) + (seq![
                        value@,
                    ] + r));
                }
            }
            values.push(value);
            idx += n as usize;
            i += 1;
        }
        assert(values_view(values@) + Seq::<RecordValueView>::empty() =~= values_view(values@));
        Ok(Record { header, values })
    }
}

} // verus!
