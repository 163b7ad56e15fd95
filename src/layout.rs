use vstd::prelude::*;
use vstd::string::*;

use crate::codec::{from_base36, from_decimal, number_in};

verus! {

/// Why a record could not be decoded.
#[derive(Clone, Copy, Debug, PartialEq, Eq, Structural)]
pub enum ParseError {
    /// Fewer characters remain than the current field requires.
    IncompleteMessage,
    /// A field holds a character outside its alphabet or set, or a number too
    /// large for its integer type, or unexpected trailing characters.
    MalformedField,
    /// The type code at offset 8 names no message kind.
    UnknownMessageType,
}

/// The nine kinds of message on the feed.
#[derive(Clone, Copy, Debug, PartialEq, Eq, Structural)]
pub enum MessageKind {
    AuctionSummary,
    AddOrder,
    AuctionUpdate,
    OrderCancel,
    OrderExecuted,
    RetailPriceImprove,
    TradeBreak,
    Trade,
    TradingStatus,
}

/// The kind that a type code selects, if any.
pub open spec fn kind_of(code: char) -> Option<MessageKind> {
    if code == 'A' || code == 'd' {
        Some(MessageKind::AddOrder)
    } else if code == 'J' {
        Some(MessageKind::AuctionSummary)
    } else if code == 'I' {
        Some(MessageKind::AuctionUpdate)
    } else if code == 'X' {
        Some(MessageKind::OrderCancel)
    } else if code == 'E' {
        Some(MessageKind::OrderExecuted)
    } else if code == 'R' {
        Some(MessageKind::RetailPriceImprove)
    } else if code == 'B' {
        Some(MessageKind::TradeBreak)
    } else if code == 'P' || code == 'r' {
        Some(MessageKind::Trade)
    } else if code == 'H' {
        Some(MessageKind::TradingStatus)
    } else {
        None
    }
}

/// Looks up the kind that a type code selects.
pub fn kind_of_code(code: char) -> (r: Option<MessageKind>)
    ensures
        r == kind_of(code),
{
    if code == 'A' || code == 'd' {
        Some(MessageKind::AddOrder)
    } else if code == 'J' {
        Some(MessageKind::AuctionSummary)
    } else if code == 'I' {
        Some(MessageKind::AuctionUpdate)
    } else if code == 'X' {
        Some(MessageKind::OrderCancel)
    } else if code == 'E' {
        Some(MessageKind::OrderExecuted)
    } else if code == 'R' {
        Some(MessageKind::RetailPriceImprove)
    } else if code == 'B' {
        Some(MessageKind::TradeBreak)
    } else if code == 'P' || code == 'r' {
        Some(MessageKind::Trade)
    } else if code == 'H' {
        Some(MessageKind::TradingStatus)
    } else {
        None
    }
}

/// A closed set of characters that a one-character field may hold.
#[derive(Clone, Copy, Debug, PartialEq, Eq, Structural)]
pub enum CharSet {
    /// The type codes of one message kind.
    Codes(MessageKind),
    /// `B` or `S`.
    Side,
    /// `O`, `C`, `H` or `I`.
    AuctionType,
    /// `B`, `A`, `S` or `N`.
    RetailPriceImprove,
    /// `H`, `Q` or `T`.
    HaltStatus,
}

impl CharSet {
    pub open spec fn has(self, c: char) -> bool {
        match self {
            CharSet::Codes(k) => kind_of(c) == Some(k),
            CharSet::Side => c == 'B' || c == 'S',
            CharSet::AuctionType => c == 'O' || c == 'C' || c == 'H' || c == 'I',
            CharSet::RetailPriceImprove => c == 'B' || c == 'A' || c == 'S' || c == 'N',
            CharSet::HaltStatus => c == 'H' || c == 'Q' || c == 'T',
        }
    }

    /// Whether `c` belongs to the set.
    pub fn contains(self, c: char) -> (r: bool)
        ensures
            r == self.has(c),
    {
        match self {
            CharSet::Codes(k) => {
                match kind_of_code(c) {
                    Some(kc) => kc == k,
                    None => false,
                }
            },
            CharSet::Side => c == 'B' || c == 'S',
            CharSet::AuctionType => c == 'O' || c == 'C' || c == 'H' || c == 'I',
            CharSet::RetailPriceImprove => c == 'B' || c == 'A' || c == 'S' || c == 'N',
            CharSet::HaltStatus => c == 'H' || c == 'Q' || c == 'T',
        }
    }
}

/// One fixed-width field of a record layout, with how it is decoded.
#[derive(Clone, Copy, Debug, PartialEq, Eq, Structural)]
pub enum Field {
    /// `width` decimal digits spelling a number of at most `max`.
    Decimal { width: usize, max: u64 },
    /// `width` base-36 digits (`0`-`9`, `A`-`Z`) spelling a `u64`.
    Base36 { width: usize },
    /// `width` characters taken as they are.
    Text { width: usize },
    /// One character of any kind.
    AnyChar,
    /// One character of a closed set.
    CharIn { set: CharSet },
    /// The rest of the record, which is either empty or exactly `width`
    /// characters long.
    Trailing { width: usize },
}

impl Field {
    pub open spec fn spec_width(self) -> usize {
        match self {
            Field::Decimal { width, .. } => width,
            Field::Base36 { width } => width,
            Field::Text { width } => width,
            Field::AnyChar => 1,
            Field::CharIn { .. } => 1,
            Field::Trailing { width } => width,
        }
    }

    /// Characters that the field takes when it is present.
    #[verifier::when_used_as_spec(spec_width)]
    pub fn width(self) -> (r: usize)
        ensures
            r == self.spec_width(),
    {
        match self {
            Field::Decimal { width, .. } => width,
            Field::Base36 { width } => width,
            Field::Text { width } => width,
            Field::AnyChar => 1,
            Field::CharIn { .. } => 1,
            Field::Trailing { width } => width,
        }
    }
}

/// A decoded field.
pub ghost enum Value {
    Number(int),
    Text(Seq<char>),
    Character(char),
}

/// A decoded field, as the decoder hands it out.
pub enum FieldValue {
    Number(u64),
    Text(String),
    Character(char),
}

impl View for FieldValue {
    type V = Value;

    open spec fn view(&self) -> Value {
        match self {
            FieldValue::Number(n) => Value::Number(*n as int),
            FieldValue::Text(s) => Value::Text(s@),
            FieldValue::Character(c) => Value::Character(*c),
        }
    }
}

/// The values of a decoded sequence of fields.
pub open spec fn values_of(v: Seq<FieldValue>) -> Seq<Value> {
    v.map_values(|x: FieldValue| x@)
}

/// What the field `f` starting at offset `off` of the record `s` decodes to.
pub open spec fn decode_field(s: Seq<char>, off: int, f: Field) -> Result<Value, ParseError> {
    match f {
        Field::Trailing { width } => {
            let rest = s.len() - off;
            if rest == 0 {
                Ok(Value::Text(Seq::empty()))
            } else if rest < width {
                Err(ParseError::IncompleteMessage)
            } else if rest > width {
                Err(ParseError::MalformedField)
            } else {
                Ok(Value::Text(s.subrange(off, s.len() as int)))
            }
        },
        _ => {
            if s.len() < off + f.width() {
                Err(ParseError::IncompleteMessage)
            } else {
                decode_chars(s.subrange(off, off + f.width()), f)
            }
        },
    }
}

/// What the characters `t`, exactly as many as `f` takes, decode to.
pub open spec fn decode_chars(t: Seq<char>, f: Field) -> Result<Value, ParseError> {
    match f {
        Field::Decimal { max, .. } => match number_in(t, 10, max as int) {
            Some(n) => Ok(Value::Number(n as int)),
            None => Err(ParseError::MalformedField),
        },
        Field::Base36 { .. } => match number_in(t, 36, u64::MAX as int) {
            Some(n) => Ok(Value::Number(n as int)),
            None => Err(ParseError::MalformedField),
        },
        Field::CharIn { set } => if set.has(t[0]) {
            Ok(Value::Character(t[0]))
        } else {
            Err(ParseError::MalformedField)
        },
        Field::AnyChar => Ok(Value::Character(t[0])),
        _ => Ok(Value::Text(t)),
    }
}

/// Where the field after `f` starts: a trailing field takes the rest.
pub open spec fn next_offset(s: Seq<char>, off: int, f: Field) -> int {
    match f {
        Field::Trailing { .. } => s.len() as int,
        _ => off + f.width(),
    }
}

/// What the fields `fs`, laid out one after another from offset `off` of `s`,
/// decode to; the first field that fails gives the error.
pub open spec fn decode_fields(s: Seq<char>, off: int, fs: Seq<Field>) -> Result<
    Seq<Value>,
    ParseError,
>
    decreases fs.len(),
{
    if fs.len() == 0 {
        Ok(Seq::empty())
    } else {
        match decode_field(s, off, fs[0]) {
            Err(e) => Err(e),
            Ok(v) => match decode_fields(s, next_offset(s, off, fs[0]), fs.drop_first()) {
                Err(e) => Err(e),
                Ok(vs) => Ok(seq![v] + vs),
            },
        }
    }
}

/// `acc` followed by what `r` decoded, or the error of `r`.
pub open spec fn after(acc: Seq<Value>, r: Result<Seq<Value>, ParseError>) -> Result<
    Seq<Value>,
    ParseError,
> {
    match r {
        Ok(vs) => Ok(acc + vs),
        Err(e) => Err(e),
    }
}

/// Decodes the field `f` at offset `off` of `msg`, whose length is `len`.
pub fn read_field(msg: &str, len: usize, off: usize, f: Field) -> (r: Result<
    FieldValue,
    ParseError,
>)
    requires
        len == msg@.len(),
        off <= len,
    ensures
        match r {
            Ok(v) => decode_field(msg@, off as int, f) == Ok::<Value, ParseError>(v@),
            Err(e) => decode_field(msg@, off as int, f) == Err::<Value, ParseError>(e),
        },
{
    let rest = len - off;
    match f {
        Field::Trailing { width } => {
            if rest == 0 {
                Ok(FieldValue::Text(String::new()))
            } else if rest < width {
                Err(ParseError::IncompleteMessage)
            } else if rest > width {
                Err(ParseError::MalformedField)
            } else {
                Ok(FieldValue::Text(String::from_str(msg.substring_char(off, len))))
            }
        },
        Field::Decimal { width, max } => {
            if rest < width {
                return Err(ParseError::IncompleteMessage);
            }
            match from_decimal(msg.substring_char(off, off + width), max) {
                Some(n) => Ok(FieldValue::Number(n)),
                None => Err(ParseError::MalformedField),
            }
        },
        Field::Base36 { width } => {
            if rest < width {
                return Err(ParseError::IncompleteMessage);
            }
            match from_base36(msg.substring_char(off, off + width)) {
                Some(n) => Ok(FieldValue::Number(n)),
                None => Err(ParseError::MalformedField),
            }
        },
        Field::Text { width } => {
            if rest < width {
                return Err(ParseError::IncompleteMessage);
            }
            Ok(FieldValue::Text(String::from_str(msg.substring_char(off, off + width))))
        },
        Field::AnyChar => {
            if rest < 1 {
                return Err(ParseError::IncompleteMessage);
            }
            Ok(FieldValue::Character(msg.get_char(off)))
        },
        Field::CharIn { set } => {
            if rest < 1 {
                return Err(ParseError::IncompleteMessage);
            }
            let c = msg.get_char(off);
            if set.contains(c) {
                Ok(FieldValue::Character(c))
            } else {
                Err(ParseError::MalformedField)
            }
        },
    }
}

/// Decodes the fields `fs` one after another from offset `start` of `msg`,
/// stopping at the first that fails.
pub fn read_fields(msg: &str, start: usize, fs: &Vec<Field>) -> (r: Result<
    Vec<FieldValue>,
    ParseError,
>)
    requires
        start <= msg@.len(),
    ensures
        match r {
            Ok(v) => decode_fields(msg@, start as int, fs@) == Ok::<Seq<Value>, ParseError>(values_of(v@)),
            Err(e) => decode_fields(msg@, start as int, fs@) == Err::<Seq<Value>, ParseError>(e),
        },
{
    let len = msg.unicode_len();
    let mut out: Vec<FieldValue> = Vec::new();
    let mut off = start;
    let mut i: usize = 0;
    proof {
        assert(fs@.skip(0) =~= fs@);
        assert(values_of(out@) =~= Seq::<Value>::empty());
        if let Ok(vs) = decode_fields(msg@, start as int, fs@) {
            assert(Seq::<Value>::empty() + vs =~= vs);
        }
    }
    while i < fs.len()
        invariant
            len == msg@.len(),
            start <= off <= len,
            0 <= i <= fs@.len(),
            decode_fields(msg@, start as int, fs@) == after(
                values_of(out@),
                decode_fields(msg@, off as int, fs@.skip(i as int)),
            ),
        decreases fs@.len() - i,
    {
        let f = fs[i];
        let ghost rest = fs@.skip(i as int);
        assert(rest[0] == f);
        assert(rest.drop_first() =~= fs@.skip(i + 1));
        match read_field(msg, len, off, f) {
            Err(e) => {
                return Err(e);
            },
            Ok(v) => {
                let ghost before = values_of(out@);
                let ghost vv = v@;
                out.push(v);
                assert(values_of(out@) =~= before.push(vv));
                off = match f {
                    Field::Trailing { .. } => len,
                    _ => off + f.width(),
                };
                i = i + 1;
                assert(forall|t: Seq<Value>| before + (seq![vv] + t) =~= before.push(vv) + t);
            },
        }
    }
    assert(fs@.skip(i as int) =~= Seq::<Field>::empty());
    assert(values_of(out@) + Seq::<Value>::empty() =~= values_of(out@));
    Ok(out)
}

} // verus!
