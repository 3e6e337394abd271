//! Decimal encoding and decoding of item ids. The renderer writes each id
//! into a checkbox attribute as a decimal string; the toggle handler reads it
//! back. Both directions are verified against the same specification, and a
//! round-trip law ties them together.

use vstd::prelude::*;
use vstd::arithmetic::div_mod::lemma_fundamental_div_mod;

verus! {

/// A decimal digit character.
pub open spec fn is_digit(c: char) -> bool {
    48 <= c as int && c as int <= 57
}

/// The numeric value of a digit character.
pub open spec fn digit_val(c: char) -> nat
    recommends
        is_digit(c),
{
    (c as int - 48) as nat
}

/// The digit character for a value below ten.
pub open spec fn digit_char(d: nat) -> char
    recommends
        d < 10,
{
    if d == 0 {
        '0'
    } else if d == 1 {
        '1'
    } else if d == 2 {
        '2'
    } else if d == 3 {
        '3'
    } else if d == 4 {
        '4'
    } else if d == 5 {
        '5'
    } else if d == 6 {
        '6'
    } else if d == 7 {
        '7'
    } else if d == 8 {
        '8'
    } else {
        '9'
    }
}

/// The decimal representation of a number, most significant digit first,
/// with no sign and no leading zeros (a single `'0'` for zero).
pub open spec fn decimal_of(n: nat) -> Seq<char>
    decreases n,
{
    if n < 10 {
        seq![digit_char(n)]
    } else {
        decimal_of(n / 10).push(digit_char(n % 10))
    }
}

/// The numeric value of a sequence of digit characters.
pub open spec fn decimal_val(s: Seq<char>) -> nat
    decreases s.len(),
{
    if s.len() == 0 {
        0
    } else {
        decimal_val(s.drop_last()) * 10 + digit_val(s.last())
    }
}

/// Every character of the sequence is a decimal digit.
pub open spec fn all_digits(s: Seq<char>) -> bool {
    forall|i: int| 0 <= i < s.len() ==> is_digit(s[i])
}

/// What parsing an id attribute yields: the value of a non-empty, all-digit
/// string that fits in `usize`; everything else is rejected.
pub open spec fn parse_decimal(s: Seq<char>) -> Option<usize> {
    if s.len() > 0 && all_digits(s) && decimal_val(s) <= usize::MAX {
        Some(decimal_val(s) as usize)
    } else {
        None
    }
}

fn digit_str(d: usize) -> (r: &'static str)
    requires
        d < 10,
    ensures
        r@ =~= seq![digit_char(d as nat)],
{
    proof {
        reveal_strlit("0");
        reveal_strlit("1");
        reveal_strlit("2");
        reveal_strlit("3");
        reveal_strlit("4");
        reveal_strlit("5");
        reveal_strlit("6");
        reveal_strlit("7");
        reveal_strlit("8");
        reveal_strlit("9");
    }
    match d {
        0 => "0",
        1 => "1",
        2 => "2",
        3 => "3",
        4 => "4",
        5 => "5",
        6 => "6",
        7 => "7",
        8 => "8",
        _ => "9",
    }
}

/// Writes an id as its decimal string, for the checkbox id attribute.
pub fn format_id(n: usize) -> (r: String)
    ensures
        r@ == decimal_of(n as nat),
    decreases n,
{
    if n < 10 {
        String::from_str(digit_str(n))
    } else {
        proof {
            lemma_fundamental_div_mod(n as int, 10);
        }
        let mut r = format_id(n / 10);
        r.append(digit_str(n % 10));
        proof {
            assert(r@ =~= decimal_of(n as nat / 10).push(digit_char(n as nat % 10)));
        }
        r
    }
}

proof fn lemma_decimal_prefix_le(s: Seq<char>, i: int)
    requires
        0 <= i <= s.len(),
    ensures
        decimal_val(s.subrange(0, i)) <= decimal_val(s),
    decreases s.len() - i,
{
    if i == s.len() {
        assert(s.subrange(0, i) =~= s);
    } else {
        let t = s.subrange(0, i + 1);
        assert(t.drop_last() =~= s.subrange(0, i));
        assert(decimal_val(s.subrange(0, i)) <= decimal_val(t));
        lemma_decimal_prefix_le(s, i + 1);
    }
}

/// The decimal representation of a number is non-empty, consists of digits
/// alone, and evaluates back to the number.
pub proof fn lemma_decimal_of_val(n: nat)
    ensures
        decimal_of(n).len() > 0,
        all_digits(decimal_of(n)),
        decimal_val(decimal_of(n)) == n,
    decreases n,
{
    if n < 10 {
        let s = seq![digit_char(n)];
        assert(s.drop_last() =~= Seq::<char>::empty());
        assert(decimal_val(Seq::<char>::empty()) == 0);
        assert(s.last() == digit_char(n));
        assert(decimal_val(s) == digit_val(digit_char(n)));
    } else {
        lemma_decimal_of_val(n / 10);
        let p = decimal_of(n / 10);
        let s = p.push(digit_char(n % 10));
        assert(s.drop_last() =~= p);
        assert(s.last() == digit_char(n % 10));
        assert(decimal_val(s) == decimal_val(p) * 10 + digit_val(digit_char(n % 10)));
        lemma_fundamental_div_mod(n as int, 10);
        assert(forall|i: int| 0 <= i < s.len() ==> is_digit(s[i]));
    }
}

/// Round trip: the id written by the renderer parses back to the same id.
pub proof fn lemma_id_round_trip(n: usize)
    ensures
        parse_decimal(decimal_of(n as nat)) == Some(n),
{
    lemma_decimal_of_val(n as nat);
}

/// Reads a decimal id back from an attribute string: `Some` exactly for a
/// non-empty string of digits whose value fits in `usize`.
pub fn parse_id(s: &str) -> (r: Option<usize>)
    ensures
        r == parse_decimal(s@),
{
    let n = s.unicode_len();
    if n == 0 {
        return None;
    }
    let mut acc: usize = 0;
    let mut i: usize = 0;
    while i < n
        invariant
            0 <= i <= n,
            n == s@.len(),
            forall|m: int| 0 <= m < i ==> is_digit(s@[m]),
            acc == decimal_val(s@.subrange(0, i as int)),
        decreases n - i,
    {
        let c = s.get_char(i);
        let v = c as u32;
        if v < 48 || v > 57 {
            assert(!is_digit(s@[i as int]));
            return None;
        }
        let d = (v - 48) as usize;
        assert(d == digit_val(s@[i as int]));
        assert(s@.subrange(0, i + 1).drop_last() =~= s@.subrange(0, i as int));
        assert(decimal_val(s@.subrange(0, i + 1)) == acc * 10 + d);
        if acc > (usize::MAX - d) / 10 {
            proof {
                assert(acc * 10 + d > usize::MAX) by (nonlinear_arith)
                    requires
                        acc > (usize::MAX - d) / 10,
                        d <= usize::MAX,
                ;
                lemma_decimal_prefix_le(s@, i + 1);
            }
            return None;
        }
        proof {
            assert(acc * 10 + d <= usize::MAX) by (nonlinear_arith)
                requires
                    acc <= (usize::MAX - d) / 10,
                    d <= 9,
            ;
        }
        acc = acc * 10 + d;
        i = i + 1;
    }
    proof {
        assert(s@.subrange(0, n as int) =~= s@);
    }
    Some(acc)
}

} // verus!
