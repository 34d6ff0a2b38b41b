//! Unsigned decimal numbers: reading them from text the way `str::parse` does for
//! unsigned integer types, and writing them the way `to_string` does.
use vstd::prelude::*;

verus! {

broadcast use vstd::string::group_string_axioms;

/// `c` is one of the ASCII digits `0` to `9`.
pub open spec fn is_digit(c: char) -> bool {
    '0' <= c && c <= '9'
}

/// The numeric value of the digit `c`.
pub open spec fn digit_value(c: char) -> nat {
    (c as int - '0' as int) as nat
}

/// The digit whose value is `d` (for `d < 10`).
pub open spec fn digit_char(d: nat) -> char {
    ('0' as nat + d) as char
}

/// Every character of `s` is a digit.
pub open spec fn all_digits(s: Seq<char>) -> bool {
    forall|i: int| 0 <= i < s.len() ==> is_digit(#[trigger] s[i])
}

/// The number that the digit string `s` denotes, most significant digit first.
pub open spec fn digits_value(s: Seq<char>) -> nat
    decreases s.len(),
{
    if s.len() == 0 {
        0
    } else {
        digits_value(s.drop_last()) * 10 + digit_value(s.last())
    }
}

/// `s` without one leading `+`, the only sign an unsigned number may carry.
pub open spec fn unsigned_digits(s: Seq<char>) -> Seq<char> {
    if s.len() > 0 && s[0] == '+' {
        s.drop_first()
    } else {
        s
    }
}

/// What reading `s` as an unsigned number no larger than `max` gives: the number when,
/// after one optional leading `+`, `s` is a non-empty string of ASCII digits whose value
/// is at most `max`; otherwise nothing (empty text, a stray character, or overflow).
pub open spec fn parse_unsigned(s: Seq<char>, max: nat) -> Option<nat> {
    let d = unsigned_digits(s);
    if d.len() > 0 && all_digits(d) && digits_value(d) <= max {
        Some(digits_value(d))
    } else {
        None
    }
}

/// The shortest decimal representation of `n`.
pub open spec fn decimal(n: nat) -> Seq<char>
    decreases n,
{
    if n < 10 {
        seq![digit_char(n)]
    } else {
        decimal(n / 10).push(digit_char(n % 10))
    }
}

/// The value of a digit string never decreases when digits are appended.
proof fn lemma_prefix_value_le(s: Seq<char>, k: int)
    requires
        all_digits(s),
        0 <= k <= s.len(),
    ensures
        digits_value(s.take(k)) <= digits_value(s),
    decreases s.len(),
{
    if k < s.len() {
        assert(s.drop_last().take(k) =~= s.take(k));
        lemma_prefix_value_le(s.drop_last(), k);
    } else {
        assert(s.take(k) =~= s);
    }
}

/// Reading the decimal representation of `n` gives `n` back whenever `n` fits under `max`.
pub proof fn lemma_decimal_roundtrip(n: nat, max: nat)
    requires
        n <= max,
    ensures
        parse_unsigned(decimal(n), max) == Some(n),
{
    lemma_decimal_digits(n);
}

/// `digit_char` and `digit_value` are inverse on the ten digits.
proof fn lemma_digit_char_value(d: nat)
    requires
        d < 10,
    ensures
        is_digit(digit_char(d)),
        digit_value(digit_char(d)) == d,
{
}

/// The decimal representation of `n` is a non-empty digit string that starts with a digit
/// and denotes `n`.
pub proof fn lemma_decimal_digits(n: nat)
    ensures
        decimal(n).len() > 0,
        all_digits(decimal(n)),
        is_digit(decimal(n)[0]),
        digits_value(decimal(n)) == n,
    decreases n,
{
    lemma_digit_char_value(n % 10);
    if n >= 10 {
        lemma_decimal_digits(n / 10);
        let s = decimal(n);
        assert(s.drop_last() =~= decimal(n / 10));
        assert(s[0] == decimal(n / 10)[0]);
        assert(s.last() == digit_char(n % 10));
        assert(digits_value(s) == digits_value(decimal(n / 10)) * 10 + n % 10);
        assert((n / 10) * 10 + n % 10 == n) by (nonlinear_arith);
    } else {
        assert(decimal(n).drop_last() =~= Seq::<char>::empty());
        assert(digits_value(decimal(n).drop_last()) == 0);
    }
}

/// The decimal representation of a number other than zero never starts with `0`.
pub proof fn lemma_decimal_no_leading_zero(n: nat)
    ensures
        decimal(n)[0] == '0' ==> n == 0,
    decreases n,
{
    lemma_digit_char_value(n % 10);
    if n >= 10 {
        lemma_decimal_no_leading_zero(n / 10);
        lemma_decimal_digits(n / 10);
        assert(decimal(n)[0] == decimal(n / 10)[0]);
    } else {
        lemma_digit_char_value(n);
    }
}

/// A single ASCII digit reads as its value.
pub proof fn lemma_parse_single_digit(c: char, max: nat)
    requires
        '0' <= c <= '9',
        9 <= max,
    ensures
        parse_unsigned(seq![c], max) == Some((c as int - 48) as nat),
{
    assert(seq![c].drop_last() =~= Seq::<char>::empty());
    assert(unsigned_digits(seq![c]) =~= seq![c]);
    assert(seq![c].last() == c);
    assert(all_digits(seq![c]));
    assert(digits_value(seq![c]) == digits_value(Seq::<char>::empty()) * 10 + digit_value(c));
    assert('0' as int == 48);
}

/// Appending a digit to a readable number multiplies it by ten and adds the digit, as long
/// as the result stays within `max`; beyond `max` the text is refused.
pub proof fn lemma_parse_append_digit(s: Seq<char>, c: char, max: nat)
    requires
        parse_unsigned(s, max) is Some,
        '0' <= c <= '9',
    ensures
        parse_unsigned(s, max)->0 * 10 + (c as int - 48) <= max ==> parse_unsigned(s.push(c), max)
            == Some((parse_unsigned(s, max)->0 * 10 + (c as int - 48)) as nat),
        parse_unsigned(s, max)->0 * 10 + (c as int - 48) > max ==> parse_unsigned(s.push(c), max)
            is None,
{
    let d = unsigned_digits(s);
    assert(unsigned_digits(s.push(c)) =~= d.push(c));
    assert(d.push(c).drop_last() =~= d);
    assert(all_digits(d.push(c)));
}

/// One leading `+` is ignored; any other character that is not a digit, anywhere, makes
/// the text unreadable, and so does an empty digit string.
pub proof fn lemma_parse_sign_and_stray_characters(s: Seq<char>, max: nat)
    ensures
        !(s.len() > 0 && s[0] == '+') ==> parse_unsigned(seq!['+'] + s, max) == parse_unsigned(
            s,
            max,
        ),
        parse_unsigned(Seq::<char>::empty(), max) is None,
        parse_unsigned(seq!['+'], max) is None,
        (exists|i: int| 0 <= i < s.len() && !('0' <= #[trigger] s[i] <= '9') && !(i == 0 && s[i]
            == '+')) ==> parse_unsigned(s, max) is None,
{
    assert((seq!['+'] + s).drop_first() =~= s);
    assert(seq!['+'].drop_first() =~= Seq::<char>::empty());
    if exists|i: int| 0 <= i < s.len() && !('0' <= #[trigger] s[i] <= '9') && !(i == 0 && s[i]
        == '+') {
        let i = choose|i: int| 0 <= i < s.len() && !('0' <= #[trigger] s[i] <= '9') && !(i == 0
            && s[i] == '+');
        let d = unsigned_digits(s);
        if s.len() > 0 && s[0] == '+' {
            assert(d[i - 1] == s[i]);
        } else {
            assert(d[i] == s[i]);
        }
    }
}

/// The text of a single digit.
fn digit_text(d: u64) -> (r: &'static str)
    requires
        d < 10,
    ensures
        r@ == seq![digit_char(d as nat)],
{
    if d == 0 {
        proof { reveal_strlit("0"); }
        "0"
    } else if d == 1 {
        proof { reveal_strlit("1"); }
        "1"
    } else if d == 2 {
        proof { reveal_strlit("2"); }
        "2"
    } else if d == 3 {
        proof { reveal_strlit("3"); }
        "3"
    } else if d == 4 {
        proof { reveal_strlit("4"); }
        "4"
    } else if d == 5 {
        proof { reveal_strlit("5"); }
        "5"
    } else if d == 6 {
        proof { reveal_strlit("6"); }
        "6"
    } else if d == 7 {
        proof { reveal_strlit("7"); }
        "7"
    } else if d == 8 {
        proof { reveal_strlit("8"); }
        "8"
    } else {
        proof { reveal_strlit("9"); }
        "9"
    }
}

/// The decimal representation of `n`, as `n.to_string()` writes it.
pub fn u64_to_decimal(n: u64) -> (r: String)
    ensures
        r@ == decimal(n as nat),
    decreases n,
{
    if n < 10 {
        String::from_str(digit_text(n))
    } else {
        let mut s = u64_to_decimal(n / 10);
        s.append(digit_text(n % 10));
        s
    }
}

/// Reads `s` as an unsigned number no larger than `max`.
fn parse_bounded(s: &str, max: u64) -> (r: Option<u64>)
    requires
        9 <= max,
    ensures
        match r {
            Some(v) => parse_unsigned(s@, max as nat) == Some(v as nat),
            None => parse_unsigned(s@, max as nat) is None,
        },
{
    let len = s.unicode_len();
    let digits: &str = if len > 0 && s.get_char(0) == '+' {
        s.substring_char(1, len)
    } else {
        s
    };
    assert(digits@ =~= unsigned_digits(s@));
    if digits.is_empty() {
        return None;
    }
    let ghost d = digits@;
    let mut acc: u64 = 0;
    for c in iter: digits.chars()
        invariant
            d == digits@,
            d == unsigned_digits(s@),
            9 <= max,
            iter.seq() == d,
            all_digits(d.take(iter.index())),
            acc as nat == digits_value(d.take(iter.index())),
            acc <= max,
    {
        let ghost i = iter.index();
        assert(c == d[i]);
        if c < '0' || c > '9' {
            assert(!all_digits(d));
            return None;
        }
        let v: u64 = (c as u32 - '0' as u32) as u64;
        assert(d.take(i + 1).drop_last() =~= d.take(i));
        if acc > (max - v) / 10 {
            proof {
                assert(acc * 10 + v > max) by (nonlinear_arith)
                    requires
                        acc > (max - v) / 10,
                        v <= 9,
                        9 <= max,
                ;
                if all_digits(d) {
                    lemma_prefix_value_le(d, i + 1);
                }
            }
            return None;
        }
        assert(acc * 10 + v <= max) by (nonlinear_arith)
            requires
                acc <= (max - v) / 10,
                v <= 9,
                9 <= max,
        ;
        acc = acc * 10 + v;
        assert(all_digits(d.take(i + 1)));
    }
    assert(d.take(d.len() as int) =~= d);
    Some(acc)
}

/// Reads `s` as a `u16`, as `s.parse::<u16>()` does.
pub fn parse_u16(s: &str) -> (r: Option<u16>)
    ensures
        match r {
            Some(v) => parse_unsigned(s@, u16::MAX as nat) == Some(v as nat),
            None => parse_unsigned(s@, u16::MAX as nat) is None,
        },
{
    match parse_bounded(s, 0xffff) {
        Some(v) => Some(v as u16),
        None => None,
    }
}

/// Reads `s` as a `u64`, as `s.parse::<u64>()` does.
pub fn parse_u64(s: &str) -> (r: Option<u64>)
    ensures
        match r {
            Some(v) => parse_unsigned(s@, u64::MAX as nat) == Some(v as nat),
            None => parse_unsigned(s@, u64::MAX as nat) is None,
        },
{
    parse_bounded(s, 0xffff_ffff_ffff_ffff)
}

} // verus!
