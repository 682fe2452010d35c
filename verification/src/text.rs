//! Decimal numerals: rendering a number and reading one back.

use vstd::prelude::*;

verus! {

/// The character of a decimal digit `d < 10`.
pub open spec fn digit_char(d: nat) -> char {
    if d == 0 {
        '0'
    } else if d == 1 {
        '1'
    } else if d == 2 {
        '2'
    } else if d == 3 {
        '3'
    } else if d == 4 {
        '4'
    } else if d == 5 {
        '5'
    } else if d == 6 {
        '6'
    } else if d == 7 {
        '7'
    } else if d == 8 {
        '8'
    } else {
        '9'
    }
}

/// The decimal numeral of `n`, without sign or leading zeros.
pub open spec fn decimal(n: nat) -> Seq<char>
    decreases n,
{
    if n < 10 {
        seq![digit_char(n)]
    } else {
        decimal(n / 10) + seq![digit_char(n % 10)]
    }
}

/// Whether `c` is one of the ASCII digits `0` to `9`.
pub open spec fn is_digit(c: char) -> bool {
    '0' <= c && c <= '9'
}

/// The value of an ASCII digit.
pub open spec fn digit_value(c: char) -> nat {
    (c as nat - '0' as nat) as nat
}

pub open spec fn all_digits(s: Seq<char>) -> bool {
    forall|i: int| 0 <= i < s.len() ==> is_digit(#[trigger] s[i])
}

/// The number that a sequence of ASCII digits denotes, most significant
/// digit first; `0` for the empty sequence.
pub open spec fn digits_value(s: Seq<char>) -> nat
    decreases s.len(),
{
    if s.len() == 0 {
        0
    } else {
        digits_value(s.drop_last()) * 10 + digit_value(s.last())
    }
}

/// What is left of a numeral once an optional leading `+` is taken off.
pub open spec fn unsigned_part(s: Seq<char>) -> Seq<char> {
    if s.len() > 0 && s[0] == '+' {
        s.subrange(1, s.len() as int)
    } else {
        s
    }
}

/// The number that `s` denotes as an unsigned 64-bit decimal numeral: an
/// optional `+`, then at least one ASCII digit, the whole within range.
pub open spec fn parse_u64_spec(s: Seq<char>) -> Option<u64> {
    let body = unsigned_part(s);
    if body.len() > 0 && all_digits(body) && digits_value(body) <= u64::MAX {
        Some(digits_value(body) as u64)
    } else {
        None
    }
}

/// An identifier read from text: the number that the text denotes, and `0`
/// for text that denotes none.
pub open spec fn parse_id_spec(s: Seq<char>) -> u64 {
    match parse_u64_spec(s) {
        Some(n) => n,
        None => 0,
    }
}

fn digit_str(d: u64) -> (r: &'static str)
    requires
        d < 10,
    ensures
        r@ == seq![digit_char(d as nat)],
{
    proof {
        reveal_strlit("0");
        reveal_strlit("1");
        reveal_strlit("2");
        reveal_strlit("3");
        reveal_strlit("4");
        reveal_strlit("5");
        reveal_strlit("6");
        reveal_strlit("7");
        reveal_strlit("8");
        reveal_strlit("9");
    }
    let r = if d == 0 {
        "0"
    } else if d == 1 {
        "1"
    } else if d == 2 {
        "2"
    } else if d == 3 {
        "3"
    } else if d == 4 {
        "4"
    } else if d == 5 {
        "5"
    } else if d == 6 {
        "6"
    } else if d == 7 {
        "7"
    } else if d == 8 {
        "8"
    } else {
        "9"
    };
    assert(r@ =~= seq![digit_char(d as nat)]);
    r
}

/// Renders `n` as its decimal numeral.
pub fn u64_to_string(n: u64) -> (r: String)
    ensures
        r@ == decimal(n as nat),
{
    let mut acc = String::from_str(digit_str(n % 10));
    let mut rest: u64 = n / 10;
    assert(n >= 10 ==> decimal(n as nat) == decimal(rest as nat) + acc@);
    while rest > 0
        invariant
            rest > 0 ==> decimal(n as nat) == decimal(rest as nat) + acc@,
            rest == 0 ==> decimal(n as nat) == acc@,
        decreases rest,
    {
        let mut next = String::from_str(digit_str(rest % 10));
        next.append(acc.as_str());
        proof {
            let d = seq![digit_char((rest % 10) as nat)];
            assert(next@ == d + acc@);
            if rest >= 10 {
                assert(decimal(rest as nat) == decimal((rest / 10) as nat) + d);
                assert((decimal((rest / 10) as nat) + d) + acc@ =~= decimal((rest / 10) as nat)
                    + (d + acc@));
            } else {
                assert(decimal(rest as nat) == d);
            }
        }
        acc = next;
        rest = rest / 10;
    }
    acc
}

/// A prefix of a numeral denotes no more than the whole.
proof fn lemma_prefix_value(s: Seq<char>, k: int)
    requires
        0 <= k <= s.len(),
    ensures
        digits_value(s.subrange(0, k)) <= digits_value(s),
    decreases s.len() - k,
{
    if k == s.len() {
        assert(s.subrange(0, k) =~= s);
    } else {
        lemma_prefix_value(s.drop_last(), k);
        assert(s.drop_last().subrange(0, k) =~= s.subrange(0, k));
    }
}

/// Reads an unsigned 64-bit decimal numeral; `None` for text that is no such
/// numeral or is out of range.
pub fn parse_u64(s: &str) -> (r: Option<u64>)
    ensures
        r == parse_u64_spec(s@),
{
    let n: usize = s.unicode_len();
    let start: usize = if n > 0 && s.get_char(0) == '+' {
        1
    } else {
        0
    };
    let ghost body = unsigned_part(s@);
    if start == n {
        return None;
    }
    let mut acc: u64 = 0;
    let mut i: usize = start;
    assert(body.subrange(0, 0) =~= Seq::<char>::empty());
    while i < n
        invariant
            start <= i <= n,
            n == s@.len(),
            body == unsigned_part(s@),
            body.len() == n - start,
            forall|j: int| 0 <= j < body.len() ==> body[j] == s@[j + start],
            all_digits(body.subrange(0, i - start)),
            acc == digits_value(body.subrange(0, i - start)),
        decreases n - i,
    {
        let c = s.get_char(i);
        if !('0' <= c && c <= '9') {
            assert(!is_digit(body[i - start]));
            return None;
        }
        let d: u64 = (c as u64) - ('0' as u64);
        let ghost prefix = body.subrange(0, i - start + 1);
        proof {
            assert(prefix.drop_last() =~= body.subrange(0, i - start));
            assert(prefix.last() == c);
            assert(digits_value(prefix) == acc * 10 + d);
            lemma_prefix_value(body, i - start + 1);
        }
        if acc > (u64::MAX - d) / 10 {
            return None;
        }
        acc = acc * 10 + d;
        i = i + 1;
        assert(all_digits(prefix));
    }
    assert(body.subrange(0, n - start) =~= body);
    Some(acc)
}

/// Reads an identifier: the number that the text denotes, `0` where it
/// denotes none.
pub fn parse_id(s: &str) -> (r: u64)
    ensures
        r == parse_id_spec(s@),
{
    match parse_u64(s) {
        Some(n) => n,
        None => 0,
    }
}

proof fn lemma_digit_char(d: nat)
    requires
        d < 10,
    ensures
        is_digit(digit_char(d)),
        digit_value(digit_char(d)) == d,
        digit_char(d) != '+',
{
}

proof fn lemma_decimal_digits(n: nat)
    ensures
        decimal(n).len() > 0,
        all_digits(decimal(n)),
        digits_value(decimal(n)) == n,
    decreases n,
{
    lemma_digit_char(n % 10);
    let numeral = decimal(n);
    if n < 10 {
        assert(numeral.drop_last() =~= Seq::<char>::empty());
        assert(digits_value(numeral.drop_last()) == 0);
        assert(numeral.last() == digit_char(n));
        assert(digits_value(numeral) == digits_value(numeral.drop_last()) * 10 + digit_value(
            numeral.last(),
        ));
    } else {
        lemma_decimal_digits(n / 10);
        assert(numeral.drop_last() =~= decimal(n / 10));
        assert(numeral.last() == digit_char(n % 10));
        assert(digits_value(numeral) == digits_value(numeral.drop_last()) * 10 + digit_value(
            numeral.last(),
        ));
        assert(n == (n / 10) * 10 + n % 10);
    }
}

/// A number that is rendered and read back is the number that it was.
pub proof fn lemma_render_then_parse(n: u64)
    ensures
        parse_u64_spec(decimal(n as nat)) == Some(n),
        parse_id_spec(decimal(n as nat)) == n,
{
    lemma_decimal_digits(n as nat);
    let numeral = decimal(n as nat);
    assert(is_digit(numeral[0]));
    assert(unsigned_part(numeral) == numeral);
}

} // verus!
