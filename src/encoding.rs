use vstd::arithmetic::power::pow;
use vstd::prelude::*;

use crate::codec::{all_digits, digit_value, number_value};
use crate::layout::{decode_chars, decode_fields, kind_of, Field, MessageKind, ParseError, Value};
use crate::record::{body, decode_record, header, layout, BODY_OFFSET, CODE_OFFSET};

verus! {

/// The character that writes the digit `d` (0 to 35).
pub open spec fn digit_char(d: int) -> char {
    if d < 10 {
        ((d + 48) as u8) as char
    } else {
        ((d - 10 + 65) as u8) as char
    }
}

/// `n` written with exactly `width` digits of `radix`, padded with zeros on
/// the left.
pub open spec fn digits_of(n: int, width: nat, radix: int) -> Seq<char>
    decreases width,
{
    if width == 0 {
        Seq::empty()
    } else {
        digits_of(n / radix, (width - 1) as nat, radix).push(digit_char(n % radix))
    }
}

/// The characters that write the value `v` in the field `f`.
pub open spec fn encode_field(f: Field, v: Value) -> Seq<char> {
    match f {
        Field::Decimal { width, .. } => digits_of(v->Number_0, width as nat, 10),
        Field::Base36 { width } => digits_of(v->Number_0, width as nat, 36),
        Field::AnyChar => seq![v->Character_0],
        Field::CharIn { .. } => seq![v->Character_0],
        _ => v->Text_0,
    }
}

/// The values `vs` written one after another in the fields `fs`.
pub open spec fn encode_fields(fs: Seq<Field>, vs: Seq<Value>) -> Seq<char>
    decreases fs.len(),
{
    if fs.len() == 0 {
        Seq::empty()
    } else {
        encode_field(fs[0], vs[0]) + encode_fields(fs.drop_first(), vs.drop_first())
    }
}

/// The value `v` can be written in the field `f` and stands for itself there:
/// a number within the field's digits and bound, a text of the field's width
/// (a trailing one may also be empty), a character of the field's set.
pub open spec fn encodable(f: Field, v: Value) -> bool {
    match f {
        Field::Decimal { width, max } => v is Number && 0 <= v->Number_0 <= max && v->Number_0
            < pow(10, width as nat),
        Field::Base36 { width } => v is Number && 0 <= v->Number_0 <= u64::MAX && v->Number_0
            < pow(36, width as nat),
        Field::Text { width } => v is Text && v->Text_0.len() == width,
        Field::AnyChar => v is Character,
        Field::CharIn { set } => v is Character && set.has(v->Character_0),
        Field::Trailing { width } => v is Text && (v->Text_0.len() == 0 || v->Text_0.len()
            == width),
    }
}

/// The values `vs` can be written in the fields `fs`, one for one.
pub open spec fn encodable_all(fs: Seq<Field>, vs: Seq<Value>) -> bool {
    &&& vs.len() == fs.len()
    &&& forall|i: int| 0 <= i < fs.len() ==> #[trigger] encodable(fs[i], vs[i])
}

/// No field of `fs` but the last is a trailing one.
pub open spec fn trailing_last(fs: Seq<Field>) -> bool {
    forall|i: int| 0 <= i < fs.len() - 1 ==> !(#[trigger] fs[i] is Trailing)
}

proof fn lemma_digit_char(d: int)
    requires
        0 <= d < 36,
    ensures
        digit_value(digit_char(d)) == d,
{
}

/// Digits written for a number that they can hold read back as that number.
pub proof fn lemma_digits_round_trip(n: int, width: nat, radix: int)
    requires
        2 <= radix <= 36,
        0 <= n < pow(radix, width),
    ensures
        digits_of(n, width, radix).len() == width,
        all_digits(digits_of(n, width, radix), radix),
        number_value(digits_of(n, width, radix), radix) == n,
    decreases width,
{
    if width > 0 {
        let q = n / radix;
        let m = n % radix;
        let p = pow(radix, (width - 1) as nat);
        assert(pow(radix, width) == radix * p) by {
            vstd::arithmetic::power::lemma_pow_adds(radix, 1, (width - 1) as nat);
            vstd::arithmetic::power::lemma_pow1(radix);
        }
        assert(0 <= q < p && 0 <= m < radix && n == q * radix + m) by (nonlinear_arith)
            requires
                q == n / radix,
                m == n % radix,
                0 <= n < radix * p,
                radix >= 2,
        ;
        lemma_digits_round_trip(q, (width - 1) as nat, radix);
        lemma_digit_char(m);
        let d = digits_of(n, width, radix);
        let prev = digits_of(q, (width - 1) as nat, radix);
        assert(d.drop_last() =~= prev);
        assert forall|i: int| 0 <= i < d.len() implies #[trigger] digit_value(d[i]) < radix by {
            if i < d.len() - 1 {
                assert(d[i] == prev[i]);
            }
        }
        assert(d.last() == digit_char(m));
        assert(number_value(d, radix) == number_value(prev, radix) * radix + m);
    } else {
        vstd::arithmetic::power::lemma_pow0(radix);
    }
}

/// A value written in its field decodes back to itself.
pub proof fn lemma_field_round_trip(f: Field, v: Value)
    requires
        encodable(f, v),
        !(f is Trailing),
    ensures
        encode_field(f, v).len() == f.width(),
        decode_chars(encode_field(f, v), f) == Ok::<Value, ParseError>(v),
{
    match f {
        Field::Decimal { width, max } => {
            lemma_digits_round_trip(v->Number_0, width as nat, 10);
        },
        Field::Base36 { width } => {
            lemma_digits_round_trip(v->Number_0, width as nat, 36);
        },
        _ => {},
    }
}

/// Values written one after another in their fields decode back to
/// themselves, wherever in a record the fields start.
pub proof fn lemma_fields_round_trip(s: Seq<char>, off: int, fs: Seq<Field>, vs: Seq<Value>)
    requires
        0 <= off,
        encodable_all(fs, vs),
        trailing_last(fs),
        off + encode_fields(fs, vs).len() <= s.len(),
        s.subrange(off, off + encode_fields(fs, vs).len()) == encode_fields(fs, vs),
        fs.len() > 0 && fs.last() is Trailing ==> s.len() == off + encode_fields(fs, vs).len(),
    ensures
        decode_fields(s, off, fs) == Ok::<Seq<Value>, ParseError>(vs),
    decreases fs.len(),
{
    if fs.len() == 0 {
        assert(vs =~= Seq::<Value>::empty());
    } else {
        let f = fs[0];
        let v = vs[0];
        let e0 = encode_field(f, v);
        let rest = encode_fields(fs.drop_first(), vs.drop_first());
        let all = encode_fields(fs, vs);
        assert(all == e0 + rest);
        assert(encodable(f, v));
        assert forall|i: int| 0 <= i < fs.drop_first().len() implies #[trigger] encodable(
            fs.drop_first()[i],
            vs.drop_first()[i],
        ) by {
            assert(encodable(fs[i + 1], vs[i + 1]));
        }
        assert(trailing_last(fs.drop_first())) by {
            assert forall|i: int| 0 <= i < fs.drop_first().len() - 1 implies !(
            #[trigger] fs.drop_first()[i] is Trailing) by {
                assert(!(fs[i + 1] is Trailing));
            }
        }
        if f is Trailing {
            assert(fs.len() == 1);
            assert(fs.last() == f);
            assert(fs.drop_first() =~= Seq::<Field>::empty());
            assert(vs.drop_first() =~= Seq::<Value>::empty());
            assert(rest =~= Seq::<char>::empty());
            assert(all =~= e0);
            let t = v->Text_0;
            if t.len() == 0 {
                assert(t =~= Seq::<char>::empty());
            } else {
                assert(s.subrange(off, s.len() as int) =~= t);
            }
            assert(vs =~= seq![v]);
        } else {
            lemma_field_round_trip(f, v);
            let w = f.width() as int;
            assert(s.subrange(off, off + w) =~= e0) by {
                assert forall|i: int| 0 <= i < w implies s.subrange(off, off + w)[i] == e0[i] by {
                    assert(all[i] == e0[i]);
                    assert(s.subrange(off, off + all.len())[i] == all[i]);
                }
            }
            assert(s.subrange(off + w, off + w + rest.len()) =~= rest) by {
                assert forall|i: int| 0 <= i < rest.len() implies s.subrange(
                    off + w,
                    off + w + rest.len(),
                )[i] == rest[i] by {
                    assert(all[w + i] == rest[i]);
                    assert(s.subrange(off, off + all.len())[w + i] == all[w + i]);
                }
            }
            if fs.drop_first().len() > 0 {
                assert(fs.drop_first().last() == fs.last());
            }
            lemma_fields_round_trip(s, off + w, fs.drop_first(), vs.drop_first());
            assert(seq![v] + vs.drop_first() =~= vs);
        }
    }
}

/// Writing values in two runs of fields is writing them in the joined run.
pub proof fn lemma_encode_split(a: Seq<Field>, b: Seq<Field>, va: Seq<Value>, vb: Seq<Value>)
    requires
        va.len() == a.len(),
    ensures
        encode_fields(a + b, va + vb) == encode_fields(a, va) + encode_fields(b, vb),
    decreases a.len(),
{
    if a.len() == 0 {
        assert(a + b =~= b);
        assert(va + vb =~= vb);
        assert(encode_fields(a, va) + encode_fields(b, vb) =~= encode_fields(b, vb));
    } else {
        lemma_encode_split(a.drop_first(), b, va.drop_first(), vb);
        assert((a + b).drop_first() =~= a.drop_first() + b);
        assert((va + vb).drop_first() =~= va.drop_first() + vb);
        assert((a + b)[0] == a[0]);
        assert((va + vb)[0] == va[0]);
        assert(encode_field(a[0], va[0]) + (encode_fields(a.drop_first(), va.drop_first())
            + encode_fields(b, vb)) =~= encode_fields(a, va) + encode_fields(b, vb));
    }
}

/// The record that writes the values `vs` in the layout of type code `code`.
pub open spec fn encode_record(code: char, vs: Seq<Value>) -> Seq<char> {
    encode_fields(layout(code), vs)
}

/// Decoding inverts writing: a record made by writing, in the layout of a known
/// type code, values that fit that layout, with the code itself in the type
/// field, decodes to that code's kind and exactly those values.
pub proof fn lemma_decode_encoded_record(code: char, vs: Seq<Value>)
    requires
        kind_of(code) is Some,
        encodable_all(layout(code), vs),
        vs[1] == Value::Character(code),
    ensures
        decode_record(encode_record(code, vs)) == Ok::<(MessageKind, Seq<Value>), ParseError>(
            (kind_of(code).unwrap(), vs),
        ),
{
    let kind = kind_of(code).unwrap();
    let h = header(kind);
    let b = body(code);
    let vh = vs.take(2);
    let vb = vs.skip(2);
    assert(layout(code) == h + b);
    assert(vs =~= vh + vb);
    lemma_encode_split(h, b, vh, vb);
    let s = encode_record(code, vs);
    let eh = encode_fields(h, vh);
    let eb = encode_fields(b, vb);
    assert(s == eh + eb);
    assert(encodable_all(h, vh)) by {
        assert forall|i: int| 0 <= i < h.len() implies #[trigger] encodable(h[i], vh[i]) by {
            assert(encodable(layout(code)[i], vs[i]));
            assert(layout(code)[i] == h[i]);
        }
    }
    assert(encodable_all(b, vb)) by {
        assert forall|i: int| 0 <= i < b.len() implies #[trigger] encodable(b[i], vb[i]) by {
            assert(encodable(layout(code)[i + 2], vs[i + 2]));
            assert(layout(code)[i + 2] == b[i]);
        }
    }
    assert(trailing_last(h));
    assert(trailing_last(b));
    reveal_with_fuel(encode_fields, 3);
    assert(h.drop_first().drop_first() =~= Seq::<Field>::empty());
    lemma_field_round_trip(h[0], vh[0]);
    lemma_field_round_trip(h[1], vh[1]);
    assert(eh.len() == 9);
    assert(eh[8] == code);
    assert(s.subrange(0, 9) =~= eh);
    assert(s.subrange(9, s.len() as int) =~= eb);
    lemma_fields_round_trip(s, 0, h, vh);
    lemma_fields_round_trip(s, BODY_OFFSET as int, b, vb);
    assert(s[CODE_OFFSET as int] == code);
}

} // verus!
