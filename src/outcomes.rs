use vstd::prelude::*;

use crate::layout::{
    after, decode_field, decode_fields, kind_of, next_offset, Field, MessageKind, ParseError,
    Value,
};
use crate::record::{body, decode_record, header, BODY_OFFSET, CODE_OFFSET};

verus! {

/// Characters that the fields `fs` need at least: a trailing field may be
/// absent and counts for nothing.
pub open spec fn required_width(fs: Seq<Field>) -> int
    decreases fs.len(),
{
    if fs.len() == 0 {
        0
    } else {
        (if fs[0] is Trailing {
            0
        } else {
            fs[0].width() as int
        }) + required_width(fs.drop_first())
    }
}

/// Characters that a record of type code `code` needs at least.
pub open spec fn required_record_width(code: char) -> int {
    BODY_OFFSET + required_width(body(code))
}

/// Every field of `fs`, laid out from `off`, that `s` holds in full decodes;
/// a trailing field always counts as held.
pub open spec fn complete_fields_valid(s: Seq<char>, off: int, fs: Seq<Field>) -> bool
    decreases fs.len(),
{
    if fs.len() == 0 {
        true
    } else if !(fs[0] is Trailing) && off + fs[0].width() > s.len() {
        true
    } else {
        decode_field(s, off, fs[0]) is Ok && complete_fields_valid(
            s,
            next_offset(s, off, fs[0]),
            fs.drop_first(),
        )
    }
}

/// Decoding two runs of fields, the first without a trailing field, is
/// decoding the first and then the second right after it.
pub proof fn lemma_decode_fields_split(s: Seq<char>, off: int, a: Seq<Field>, b: Seq<Field>)
    requires
        0 <= off,
        forall|i: int| 0 <= i < a.len() ==> !(#[trigger] a[i] is Trailing),
    ensures
        decode_fields(s, off, a + b) == match decode_fields(s, off, a) {
            Err(e) => Err(e),
            Ok(va) => after(va, decode_fields(s, off + required_width(a), b)),
        },
    decreases a.len(),
{
    if a.len() == 0 {
        assert(a + b =~= b);
        if let Ok(vb) = decode_fields(s, off, b) {
            assert(Seq::<Value>::empty() + vb =~= vb);
        }
    } else {
        let f = a[0];
        assert((a + b)[0] == f);
        assert((a + b).drop_first() =~= a.drop_first() + b);
        assert(!(f is Trailing));
        lemma_decode_fields_split(s, off + f.width(), a.drop_first(), b);
        if let Ok(v) = decode_field(s, off, f) {
            if let Ok(va) = decode_fields(s, off + f.width(), a.drop_first()) {
                if let Ok(vb) = decode_fields(s, off + required_width(a), b) {
                    assert(seq![v] + (va + vb) =~= (seq![v] + va) + vb);
                }
            }
        }
    }
}

/// A code that names no kind makes any record that holds it fail as of
/// unknown type, whatever the rest holds.
pub proof fn lemma_unknown_code(s: Seq<char>)
    requires
        s.len() > CODE_OFFSET,
        kind_of(s[CODE_OFFSET as int]) is None,
    ensures
        decode_record(s) == Err::<(MessageKind, Seq<Value>), ParseError>(
            ParseError::UnknownMessageType,
        ),
{
}

/// A decoded record's type field holds its type code, and that code selects
/// the kind that the record was decoded as.
pub proof fn lemma_kind_matches_code(s: Seq<char>)
    requires
        decode_record(s) is Ok,
    ensures
        decode_record(s)->Ok_0.1[1] == Value::Character(s[CODE_OFFSET as int]),
        kind_of(s[CODE_OFFSET as int]) == Some(decode_record(s)->Ok_0.0),
{
    crate::record::lemma_decode_as_fits(decode_record(s)->Ok_0.0, s);
}

/// Fields that run past the end of the record, all held ones being well
/// formed, fail as incomplete.
pub proof fn lemma_short_fields_incomplete(s: Seq<char>, off: int, fs: Seq<Field>)
    requires
        0 <= off <= s.len(),
        s.len() < off + required_width(fs),
        complete_fields_valid(s, off, fs),
    ensures
        decode_fields(s, off, fs) == Err::<Seq<Value>, ParseError>(ParseError::IncompleteMessage),
    decreases fs.len(),
{
    let f = fs[0];
    if !(f is Trailing) && off + f.width() > s.len() {
    } else {
        lemma_short_fields_incomplete(s, next_offset(s, off, f), fs.drop_first());
    }
}

/// A record shorter than its type code's layout needs fails as incomplete,
/// as long as every field that it holds in full is well formed; so does one
/// too short to hold a type code.
pub proof fn lemma_short_record_incomplete(s: Seq<char>)
    requires
        s.len() > CODE_OFFSET ==> {
            let code = s[CODE_OFFSET as int];
            &&& kind_of(code) is Some
            &&& s.len() < required_record_width(code)
            &&& complete_fields_valid(s, 0, header(kind_of(code).unwrap()))
            &&& complete_fields_valid(s, BODY_OFFSET as int, body(code))
        },
    ensures
        decode_record(s) == Err::<(MessageKind, Seq<Value>), ParseError>(
            ParseError::IncompleteMessage,
        ),
{
    if s.len() > CODE_OFFSET {
        let code = s[CODE_OFFSET as int];
        let kind = kind_of(code).unwrap();
        let h = header(kind);
        reveal_with_fuel(decode_fields, 3);
        reveal_with_fuel(complete_fields_valid, 3);
        assert(h.drop_first().drop_first() =~= Seq::<Field>::empty());
        assert(decode_fields(s, 0, h) is Ok);
        lemma_short_fields_incomplete(s, BODY_OFFSET as int, body(code));
    }
}

/// Width of the fixed fields of an add order, where its partition id starts.
pub const ADD_ORDER_WIDTH: usize = 45;

/// Width of the partition id of an add order, when present.
pub const PART_ID_WIDTH: usize = 4;

/// An add order's partition id is exactly what follows its fixed fields, and a
/// record that decodes as an add order holds either nothing or exactly four
/// characters there: other lengths are rejected, never cut.
pub proof fn lemma_add_order_part_id(s: Seq<char>)
    requires
        decode_record(s) is Ok,
        decode_record(s)->Ok_0.0 == MessageKind::AddOrder,
    ensures
        s.len() == ADD_ORDER_WIDTH || s.len() == ADD_ORDER_WIDTH + PART_ID_WIDTH,
        decode_record(s)->Ok_0.1[8] == Value::Text(s.subrange(ADD_ORDER_WIDTH as int, s.len() as int)),
{
    let code = s[CODE_OFFSET as int];
    let b = body(code);
    let fixed = b.drop_last();
    let tail = seq![b.last()];
    assert(b =~= fixed + tail);
    assert(forall|i: int| 0 <= i < fixed.len() ==> !(#[trigger] fixed[i] is Trailing));
    lemma_decode_fields_split(s, BODY_OFFSET as int, fixed, tail);
    reveal_with_fuel(required_width, 7);
    assert(required_width(fixed) == 36);
    reveal_with_fuel(decode_fields, 2);
    assert(tail.drop_first() =~= Seq::<Field>::empty());
    crate::record::lemma_decode_as_fits(MessageKind::AddOrder, s);
    crate::record::lemma_header(MessageKind::AddOrder, s);
    let hv = decode_fields(s, 0, header(MessageKind::AddOrder))->Ok_0;
    let fv = decode_fields(s, BODY_OFFSET as int, fixed)->Ok_0;
    let tv = decode_fields(s, ADD_ORDER_WIDTH as int, tail)->Ok_0;
    crate::record::lemma_decode_fields_fit(s, BODY_OFFSET as int, fixed);
    let vs = decode_record(s)->Ok_0.1;
    assert(vs == hv + (fv + tv));
    assert(vs[8] == tv[0]);
    if s.len() == ADD_ORDER_WIDTH {
        assert(s.subrange(ADD_ORDER_WIDTH as int, s.len() as int) =~= Seq::<char>::empty());
    }
}

} // verus!
