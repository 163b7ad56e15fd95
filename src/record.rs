use vstd::prelude::*;

use crate::codec::lemma_number_value_nonneg;
use crate::layout::{
    after, decode_field, decode_fields, kind_of, next_offset, read_fields, values_of, CharSet,
    Field, FieldValue, MessageKind, ParseError, Value,
};

verus! {

/// Offset of the type code, right after the timestamp.
pub const CODE_OFFSET: usize = 8;

/// Offset of the first field after the type code.
pub const BODY_OFFSET: usize = 9;

/// The fields that start every record of `kind`: the timestamp, then a type
/// code of that kind.
pub open spec fn header(kind: MessageKind) -> Seq<Field> {
    seq![
        Field::Decimal { width: 8, max: u32::MAX as u64 },
        Field::CharIn { set: CharSet::Codes(kind) },
    ]
}

/// The fields that follow the type code `code`, in wire order.
pub open spec fn body(code: char) -> Seq<Field> {
    let u32_max = u32::MAX as u64;
    let u64_max = u64::MAX;
    if code == 'A' || code == 'd' {
        seq![
            Field::Base36 { width: 12 },
            Field::AnyChar,
            Field::Decimal { width: 6, max: u32_max },
            Field::Text { width: 6 },
            Field::Decimal { width: 10, max: u64_max },
            Field::AnyChar,
            Field::Trailing { width: 4 },
        ]
    } else if code == 'J' {
        seq![
            Field::Text { width: 8 },
            Field::AnyChar,
            Field::Decimal { width: 10, max: u64_max },
            Field::Decimal { width: 10, max: u32_max },
        ]
    } else if code == 'I' {
        seq![
            Field::Text { width: 8 },
            Field::CharIn { set: CharSet::AuctionType },
            Field::Decimal { width: 10, max: u64_max },
            Field::Decimal { width: 10, max: u32_max },
            Field::Decimal { width: 10, max: u32_max },
            Field::Decimal { width: 10, max: u64_max },
            Field::Decimal { width: 10, max: u64_max },
        ]
    } else if code == 'X' {
        seq![Field::Base36 { width: 12 }, Field::Decimal { width: 6, max: u32_max }]
    } else if code == 'E' {
        seq![
            Field::Base36 { width: 12 },
            Field::Decimal { width: 6, max: u32_max },
            Field::Base36 { width: 12 },
        ]
    } else if code == 'R' {
        seq![Field::Text { width: 8 }, Field::CharIn { set: CharSet::RetailPriceImprove }]
    } else if code == 'B' {
        seq![Field::Base36 { width: 12 }]
    } else if code == 'P' || code == 'r' {
        seq![
            Field::Base36 { width: 12 },
            Field::CharIn { set: CharSet::Side },
            Field::Decimal { width: 6, max: u32_max },
            Field::Text { width: if code == 'P' { 6 } else { 8 } },
            Field::Decimal { width: 10, max: u64_max },
            Field::Base36 { width: 12 },
        ]
    } else if code == 'H' {
        seq![
            Field::Text { width: 8 },
            Field::CharIn { set: CharSet::HaltStatus },
            Field::Decimal { width: 1, max: u8::MAX as u64 },
            Field::AnyChar,
            Field::AnyChar,
        ]
    } else {
        Seq::empty()
    }
}

/// The whole layout of a record whose type code is `code`.
pub open spec fn layout(code: char) -> Seq<Field> {
    header(kind_of(code).unwrap()) + body(code)
}

/// What a record `s` decodes to when read as a message of `kind`: the header
/// first, then the fields that its type code selects.
pub open spec fn decode_as(kind: MessageKind, s: Seq<char>) -> Result<Seq<Value>, ParseError> {
    match decode_fields(s, 0, header(kind)) {
        Err(e) => Err(e),
        Ok(h) => after(h, decode_fields(s, BODY_OFFSET as int, body(s[CODE_OFFSET as int]))),
    }
}

/// What a record `s` decodes to, its kind chosen by its type code.
pub open spec fn decode_record(s: Seq<char>) -> Result<(MessageKind, Seq<Value>), ParseError> {
    if s.len() <= CODE_OFFSET {
        Err(ParseError::IncompleteMessage)
    } else {
        match kind_of(s[CODE_OFFSET as int]) {
            None => Err(ParseError::UnknownMessageType),
            Some(k) => match decode_as(k, s) {
                Ok(vs) => Ok((k, vs)),
                Err(e) => Err(e),
            },
        }
    }
}

/// The value `v` is one that the field `f` can decode to.
pub open spec fn fits(f: Field, v: Value) -> bool {
    match f {
        Field::Decimal { max, .. } => v is Number && 0 <= v->Number_0 <= max,
        Field::Base36 { .. } => v is Number && 0 <= v->Number_0 <= u64::MAX,
        Field::Text { width } => v is Text && v->Text_0.len() == width,
        Field::AnyChar => v is Character,
        Field::CharIn { set } => v is Character && set.has(v->Character_0),
        Field::Trailing { .. } => v is Text,
    }
}

/// The values `vs` match the fields `fs` one for one.
pub open spec fn fits_all(fs: Seq<Field>, vs: Seq<Value>) -> bool {
    &&& vs.len() == fs.len()
    &&& forall|i: int| 0 <= i < fs.len() ==> #[trigger] fits(fs[i], vs[i])
}

/// Whatever a field decodes to fits the field.
pub proof fn lemma_decode_field_fits(s: Seq<char>, off: int, f: Field)
    requires
        0 <= off,
    ensures
        decode_field(s, off, f) is Ok ==> fits(f, decode_field(s, off, f)->Ok_0),
{
    if off + f.width() <= s.len() {
        let t = s.subrange(off, off + f.width());
        lemma_number_value_nonneg(t, 10);
        lemma_number_value_nonneg(t, 36);
    }
}

/// Whatever a sequence of fields decodes to fits the fields one for one.
pub proof fn lemma_decode_fields_fit(s: Seq<char>, off: int, fs: Seq<Field>)
    requires
        0 <= off,
    ensures
        decode_fields(s, off, fs) is Ok ==> fits_all(fs, decode_fields(s, off, fs)->Ok_0),
    decreases fs.len(),
{
    if fs.len() > 0 {
        lemma_decode_field_fits(s, off, fs[0]);
        lemma_decode_fields_fit(s, next_offset(s, off, fs[0]), fs.drop_first());
        if let Ok(vs) = decode_fields(s, off, fs) {
            assert forall|i: int| 0 <= i < fs.len() implies #[trigger] fits(fs[i], vs[i]) by {
                if i > 0 {
                    assert(fs[i] == fs.drop_first()[i - 1]);
                }
            }
        }
    }
}

/// A header decodes only where the record reaches past its type code, and
/// then to the timestamp and that code, which belongs to `kind`.
pub proof fn lemma_header(kind: MessageKind, s: Seq<char>)
    ensures
        decode_fields(s, 0, header(kind)) is Ok ==> {
            let h = decode_fields(s, 0, header(kind))->Ok_0;
            &&& s.len() > CODE_OFFSET
            &&& kind_of(s[CODE_OFFSET as int]) == Some(kind)
            &&& h.len() == 2
            &&& h[0] is Number
            &&& h[1] == Value::Character(s[CODE_OFFSET as int])
        },
{
    let fs = header(kind);
    reveal_with_fuel(decode_fields, 3);
    assert(fs.drop_first() =~= seq![Field::CharIn { set: CharSet::Codes(kind) }]);
    assert(fs.drop_first().drop_first() =~= Seq::<Field>::empty());
    lemma_decode_fields_fit(s, 0, fs);
    if let Ok(h) = decode_fields(s, 0, fs) {
        assert(fits(fs[0], h[0]));
        assert(fits(fs[1], h[1]));
    }
}

/// A record that decodes as `kind` reaches past its type code, which belongs
/// to `kind`, and its values fit the layout that the code selects.
pub proof fn lemma_decode_as_fits(kind: MessageKind, s: Seq<char>)
    ensures
        decode_as(kind, s) is Ok ==> {
            &&& s.len() > CODE_OFFSET
            &&& kind_of(s[CODE_OFFSET as int]) == Some(kind)
            &&& fits_all(layout(s[CODE_OFFSET as int]), decode_as(kind, s)->Ok_0)
            &&& decode_as(kind, s)->Ok_0[1] == Value::Character(s[CODE_OFFSET as int])
        },
{
    lemma_header(kind, s);
    if let Ok(vs) = decode_as(kind, s) {
        let code = s[CODE_OFFSET as int];
        let h = decode_fields(s, 0, header(kind))->Ok_0;
        let b = decode_fields(s, BODY_OFFSET as int, body(code))->Ok_0;
        lemma_decode_fields_fit(s, 0, header(kind));
        lemma_decode_fields_fit(s, BODY_OFFSET as int, body(code));
        let fs = layout(code);
        assert(fs =~= header(kind) + body(code));
        assert(vs =~= h + b);
        assert forall|i: int| 0 <= i < fs.len() implies #[trigger] fits(fs[i], vs[i]) by {
            if i >= 2 {
                assert(fs[i] == body(code)[i - 2]);
                assert(vs[i] == b[i - 2]);
            } else {
                assert(fs[i] == header(kind)[i]);
                assert(vs[i] == h[i]);
            }
        }
    }
}

/// The header of a record of `kind`, as a vector.
pub fn header_of(kind: MessageKind) -> (r: Vec<Field>)
    ensures
        r@ == header(kind),
{
    vec![
        Field::Decimal { width: 8, max: u32::MAX as u64 },
        Field::CharIn { set: CharSet::Codes(kind) },
    ]
}

/// The fields that follow the type code `code`, as a vector.
pub fn body_of(code: char) -> (r: Vec<Field>)
    ensures
        r@ == body(code),
{
    let u32_max = u32::MAX as u64;
    let u64_max = u64::MAX;
    if code == 'A' || code == 'd' {
        vec![
            Field::Base36 { width: 12 },
            Field::AnyChar,
            Field::Decimal { width: 6, max: u32_max },
            Field::Text { width: 6 },
            Field::Decimal { width: 10, max: u64_max },
            Field::AnyChar,
            Field::Trailing { width: 4 },
        ]
    } else if code == 'J' {
        vec![
            Field::Text { width: 8 },
            Field::AnyChar,
            Field::Decimal { width: 10, max: u64_max },
            Field::Decimal { width: 10, max: u32_max },
        ]
    } else if code == 'I' {
        vec![
            Field::Text { width: 8 },
            Field::CharIn { set: CharSet::AuctionType },
            Field::Decimal { width: 10, max: u64_max },
            Field::Decimal { width: 10, max: u32_max },
            Field::Decimal { width: 10, max: u32_max },
            Field::Decimal { width: 10, max: u64_max },
            Field::Decimal { width: 10, max: u64_max },
        ]
    } else if code == 'X' {
        vec![Field::Base36 { width: 12 }, Field::Decimal { width: 6, max: u32_max }]
    } else if code == 'E' {
        vec![
            Field::Base36 { width: 12 },
            Field::Decimal { width: 6, max: u32_max },
            Field::Base36 { width: 12 },
        ]
    } else if code == 'R' {
        vec![Field::Text { width: 8 }, Field::CharIn { set: CharSet::RetailPriceImprove }]
    } else if code == 'B' {
        vec![Field::Base36 { width: 12 }]
    } else if code == 'P' || code == 'r' {
        let symbol_width: usize = if code == 'P' {
            6
        } else {
            8
        };
        vec![
            Field::Base36 { width: 12 },
            Field::CharIn { set: CharSet::Side },
            Field::Decimal { width: 6, max: u32_max },
            Field::Text { width: symbol_width },
            Field::Decimal { width: 10, max: u64_max },
            Field::Base36 { width: 12 },
        ]
    } else if code == 'H' {
        vec![
            Field::Text { width: 8 },
            Field::CharIn { set: CharSet::HaltStatus },
            Field::Decimal { width: 1, max: u8::MAX as u64 },
            Field::AnyChar,
            Field::AnyChar,
        ]
    } else {
        Vec::new()
    }
}

/// Decodes `msg` as a message of `kind`: its header, then the fields that its
/// type code selects.
pub fn read_message(msg: &str, kind: MessageKind) -> (r: Result<Vec<FieldValue>, ParseError>)
    ensures
        match r {
            Ok(v) => decode_as(kind, msg@) == Ok::<Seq<Value>, ParseError>(values_of(v@)),
            Err(e) => decode_as(kind, msg@) == Err::<Seq<Value>, ParseError>(e),
        },
{
    let mut values = match read_fields(msg, 0, &header_of(kind)) {
        Ok(h) => h,
        Err(e) => return Err(e),
    };
    proof {
        lemma_header(kind, msg@);
    }
    let code = msg.get_char(CODE_OFFSET);
    match read_fields(msg, BODY_OFFSET, &body_of(code)) {
        Ok(mut rest) => {
            let ghost h = values_of(values@);
            let ghost b = values_of(rest@);
            values.append(&mut rest);
            assert(values_of(values@) =~= h + b);
            Ok(values)
        },
        Err(e) => Err(e),
    }
}

} // verus!
