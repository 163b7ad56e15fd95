use vstd::prelude::*;
use vstd::string::*;

verus! {

/// Value of a character read as a digit: `0`-`9` are 0 to 9, `A`-`Z` are 10
/// to 35. Any other character is 36, which is a digit in no radix.
pub open spec fn digit_value(c: char) -> int {
    if '0' <= c && c <= '9' {
        c as int - '0' as int
    } else if 'A' <= c && c <= 'Z' {
        c as int - 'A' as int + 10
    } else {
        36
    }
}

/// Every character of `t` is a digit of `radix`.
pub open spec fn all_digits(t: Seq<char>, radix: int) -> bool {
    forall|i: int| 0 <= i < t.len() ==> #[trigger] digit_value(t[i]) < radix
}

/// The number that the digits `t` spell in `radix`, most significant first.
pub open spec fn number_value(t: Seq<char>, radix: int) -> int
    decreases t.len(),
{
    if t.len() == 0 {
        0
    } else {
        number_value(t.drop_last(), radix) * radix + digit_value(t.last())
    }
}

fn digit_of(c: char) -> (r: u64)
    ensures
        r == digit_value(c),
{
    if '0' <= c && c <= '9' {
        (c as u32 - '0' as u32) as u64
    } else if 'A' <= c && c <= 'Z' {
        (c as u32 - 'A' as u32 + 10) as u64
    } else {
        36
    }
}

/// A number never shrinks when digits are added after it.
pub proof fn lemma_number_value_prefix(t: Seq<char>, radix: int, j: int)
    requires
        radix >= 1,
        0 <= j <= t.len(),
    ensures
        number_value(t.take(j), radix) <= number_value(t, radix),
    decreases t.len(),
{
    if j == t.len() {
        assert(t.take(j) =~= t);
    } else {
        let u = t.drop_last();
        lemma_number_value_prefix(u, radix, j);
        assert(u.take(j) =~= t.take(j));
        lemma_number_value_nonneg(u, radix);
        let a = number_value(u, radix);
        assert(a * radix >= a) by (nonlinear_arith)
            requires
                a >= 0,
                radix >= 1,
        ;
    }
}

/// Digits always spell a number of at least zero.
pub proof fn lemma_number_value_nonneg(t: Seq<char>, radix: int)
    requires
        radix >= 1,
    ensures
        number_value(t, radix) >= 0,
    decreases t.len(),
{
    if t.len() > 0 {
        lemma_number_value_nonneg(t.drop_last(), radix);
        let a = number_value(t.drop_last(), radix);
        assert(a * radix >= 0) by (nonlinear_arith)
            requires
                a >= 0,
                radix >= 1,
        ;
    }
}

/// What reading `t` in `radix` with an upper bound `max` gives: the number, or
/// `None` where a character is not a digit or the number exceeds `max`.
pub open spec fn number_in(t: Seq<char>, radix: int, max: int) -> Option<u64> {
    if all_digits(t, radix) && number_value(t, radix) <= max {
        Some(number_value(t, radix) as u64)
    } else {
        None
    }
}

/// Reads all of `t` as an unsigned number in `radix`, at most `max`.
pub fn parse_number(t: &str, radix: u64, max: u64) -> (r: Option<u64>)
    requires
        2 <= radix <= 36,
    ensures
        r == number_in(t@, radix as int, max as int),
{
    let n = t.unicode_len();
    let mut acc: u64 = 0;
    let mut i: usize = 0;
    while i < n
        invariant
            n == t@.len(),
            2 <= radix <= 36,
            0 <= i <= n,
            all_digits(t@.take(i as int), radix as int),
            acc as int == number_value(t@.take(i as int), radix as int),
            acc <= max,
        decreases n - i,
    {
        let c = t.get_char(i);
        let d = digit_of(c);
        let ghost prefix = t@.take(i as int);
        let ghost next = t@.take(i + 1);
        assert(next.drop_last() =~= prefix);
        if d >= radix {
            assert(!all_digits(t@, radix as int)) by {
                assert(digit_value(t@[i as int]) >= radix);
            }
            return None;
        }
        let grown = match acc.checked_mul(radix) {
            Some(x) => x.checked_add(d),
            None => None,
        };
        let fits = match grown {
            Some(x) => x <= max,
            None => false,
        };
        if !fits {
            proof {
                lemma_number_value_prefix(t@, radix as int, i + 1);
            }
            return None;
        }
        acc = grown.unwrap();
        i = i + 1;
        assert(all_digits(next, radix as int)) by {
            assert forall|k: int| 0 <= k < next.len() implies #[trigger] digit_value(next[k])
                < radix by {
                if k < i - 1 {
                    assert(next[k] == prefix[k]);
                }
            }
        }
    }
    assert(t@.take(n as int) =~= t@);
    Some(acc)
}

/// Reads an identifier written in base 36 (`0`-`9`, then `A`-`Z` for 10 to 35).
pub fn from_base36(input: &str) -> (r: Option<u64>)
    ensures
        r == number_in(input@, 36, u64::MAX as int),
{
    parse_number(input, 36, u64::MAX)
}

/// Reads a decimal number that must not exceed `max`.
pub fn from_decimal(input: &str, max: u64) -> (r: Option<u64>)
    ensures
        r == number_in(input@, 10, max as int),
{
    parse_number(input, 10, max)
}

} // verus!
