//! Decimal numerals: the mathematical reading and rendering of non-negative
//! integers as digit sequences, an executable parser and renderer, and the
//! lemmas that make parsing and rendering inverse to each other on canonical
//! numerals.

use vstd::prelude::*;
use vstd::arithmetic::div_mod::lemma_fundamental_div_mod_converse;
use vstd::string::{StrSliceExecFns, StringExecFns};

verus! {

/// `c` is one of the ten decimal digit characters.
pub open spec fn is_digit_char(c: char) -> bool {
    c == '0' || c == '1' || c == '2' || c == '3' || c == '4' || c == '5' || c == '6' || c == '7'
        || c == '8' || c == '9'
}

/// Numeric value of a digit character.
pub open spec fn digit_of(c: char) -> nat {
    if c == '0' {
        0
    } else if c == '1' {
        1
    } else if c == '2' {
        2
    } else if c == '3' {
        3
    } else if c == '4' {
        4
    } else if c == '5' {
        5
    } else if c == '6' {
        6
    } else if c == '7' {
        7
    } else if c == '8' {
        8
    } else {
        9
    }
}

/// Digit character of a value below ten.
pub open spec fn char_of_digit(d: nat) -> char {
    if d == 0 {
        '0'
    } else if d == 1 {
        '1'
    } else if d == 2 {
        '2'
    } else if d == 3 {
        '3'
    } else if d == 4 {
        '4'
    } else if d == 5 {
        '5'
    } else if d == 6 {
        '6'
    } else if d == 7 {
        '7'
    } else if d == 8 {
        '8'
    } else {
        '9'
    }
}

/// Every character of `s` is a decimal digit.
pub open spec fn all_digits(s: Seq<char>) -> bool {
    forall|i: int| 0 <= i < s.len() ==> is_digit_char(#[trigger] s[i])
}

/// `s` is a non-empty digit sequence.
pub open spec fn is_numeral(s: Seq<char>) -> bool {
    s.len() > 0 && all_digits(s)
}

/// Value of a digit sequence read in base ten.
pub open spec fn numeral_val(s: Seq<char>) -> nat
    decreases s.len(),
{
    if s.len() == 0 {
        0
    } else {
        numeral_val(s.drop_last()) * 10 + digit_of(s.last())
    }
}

/// `s` is a numeral without a superfluous leading zero.
pub open spec fn is_canonical_numeral(s: Seq<char>) -> bool {
    is_numeral(s) && (s.len() == 1 || s[0] != '0')
}

/// The canonical decimal rendering of `n`.
pub open spec fn dec_rep(n: nat) -> Seq<char>
    decreases n,
{
    if n < 10 {
        seq![char_of_digit(n)]
    } else {
        dec_rep(n / 10).push(char_of_digit(n % 10))
    }
}

/// A rendered number is a canonical numeral.
pub proof fn lemma_dec_rep_canonical(n: nat)
    ensures
        is_canonical_numeral(dec_rep(n)),
    decreases n,
{
    if n < 10 {
        assert(dec_rep(n) == seq![char_of_digit(n)]);
    } else {
        lemma_dec_rep_canonical(n / 10);
        let pre = dec_rep(n / 10);
        assert(dec_rep(n) == pre.push(char_of_digit(n % 10)));
        assert(n / 10 >= 1);
        if pre.len() == 1 {
            assert(pre[0] == char_of_digit(n / 10)) by {
                if n / 10 >= 10 {
                    lemma_dec_rep_canonical(n / 10 / 10);
                    assert(dec_rep(n / 10).len() >= 2);
                }
            }
            assert(pre[0] != '0');
        }
        assert(forall|i: int|
            0 <= i < dec_rep(n).len() ==> is_digit_char(#[trigger] dec_rep(n)[i]));
    }
}

/// Reading back a rendered number gives the number.
pub proof fn lemma_dec_rep_val(n: nat)
    ensures
        numeral_val(dec_rep(n)) == n,
    decreases n,
{
    if n < 10 {
        let s = dec_rep(n);
        assert(s.drop_last() =~= Seq::<char>::empty());
        assert(numeral_val(Seq::<char>::empty()) == 0);
        assert(s.last() == char_of_digit(n));
        assert(numeral_val(s) == digit_of(char_of_digit(n)));
    } else {
        lemma_dec_rep_val(n / 10);
        let s = dec_rep(n);
        assert(s.drop_last() =~= dec_rep(n / 10));
        assert(numeral_val(s) == (n / 10) * 10 + digit_of(char_of_digit(n % 10)));
        assert(digit_of(char_of_digit(n % 10)) == n % 10);
        assert((n / 10) * 10 + n % 10 == n) by {
            vstd::arithmetic::div_mod::lemma_fundamental_div_mod(n as int, 10);
        }
    }
}

/// A numeral of two or more digits without a leading zero is at least ten.
proof fn lemma_numeral_lower_bound(s: Seq<char>)
    requires
        all_digits(s),
        s.len() >= 2,
        s[0] != '0',
    ensures
        numeral_val(s) >= 10,
    decreases s.len(),
{
    let pre = s.drop_last();
    if s.len() == 2 {
        assert(pre.drop_last() =~= Seq::<char>::empty());
        assert(numeral_val(Seq::<char>::empty()) == 0);
        assert(pre.last() == s[0]);
        assert(numeral_val(pre) == digit_of(s[0]));
        assert(digit_of(s[0]) >= 1);
    } else {
        lemma_numeral_lower_bound(pre);
    }
    assert(numeral_val(s) == numeral_val(pre) * 10 + digit_of(s.last()));
}

/// Rendering the value of a canonical numeral restores the numeral.
pub proof fn lemma_canonical_round_trip(s: Seq<char>)
    requires
        is_canonical_numeral(s),
    ensures
        dec_rep(numeral_val(s)) == s,
    decreases s.len(),
{
    if s.len() == 1 {
        assert(s.drop_last() =~= Seq::<char>::empty());
        assert(numeral_val(s) == digit_of(s[0]));
        assert(dec_rep(numeral_val(s)) =~= s);
    } else {
        let pre = s.drop_last();
        let d = digit_of(s.last());
        assert(is_canonical_numeral(pre)) by {
            assert(forall|i: int| 0 <= i < pre.len() ==> is_digit_char(#[trigger] pre[i]));
        }
        lemma_canonical_round_trip(pre);
        lemma_numeral_lower_bound(s);
        let v = numeral_val(s);
        assert(v == numeral_val(pre) * 10 + d);
        assert(v / 10 == numeral_val(pre) && v % 10 == d as int) by {
            lemma_fundamental_div_mod_converse(v as int, 10, numeral_val(pre) as int, d as int);
        }
        assert(dec_rep(v) == dec_rep(numeral_val(pre)).push(char_of_digit(d)));
        assert(char_of_digit(d) == s.last());
        assert(dec_rep(v) =~= s);
    }
}

/// The value of a numeral never drops when more digits follow.
proof fn lemma_numeral_prefix_le(s: Seq<char>, i: int)
    requires
        0 <= i <= s.len(),
    ensures
        numeral_val(s.subrange(0, i)) <= numeral_val(s),
    decreases s.len() - i,
{
    if i == s.len() {
        assert(s.subrange(0, i) =~= s);
    } else {
        lemma_numeral_prefix_le(s, i + 1);
        let shorter = s.subrange(0, i);
        let longer = s.subrange(0, i + 1);
        assert(longer.drop_last() =~= shorter);
        assert(numeral_val(longer) == numeral_val(shorter) * 10 + digit_of(longer.last()));
    }
}

/// What parsing a digit string yields: its value, when `s` is a numeral whose
/// value fits in a `u64`; nothing otherwise.
pub open spec fn spec_parse_u64(s: Seq<char>) -> Option<u64> {
    if is_numeral(s) && numeral_val(s) <= u64::MAX {
        Some(numeral_val(s) as u64)
    } else {
        Option::<u64>::None
    }
}

/// Value of one digit character, or nothing for a non-digit.
fn digit_value(c: char) -> (r: Option<u64>)
    ensures
        match r {
            Some(d) => is_digit_char(c) && d as nat == digit_of(c) && d < 10,
            None => !is_digit_char(c),
        },
{
    match c {
        '0' => Some(0),
        '1' => Some(1),
        '2' => Some(2),
        '3' => Some(3),
        '4' => Some(4),
        '5' => Some(5),
        '6' => Some(6),
        '7' => Some(7),
        '8' => Some(8),
        '9' => Some(9),
        _ => None,
    }
}

/// Parse a base-ten numeral; fails on an empty string, a non-digit character,
/// or a value above `u64::MAX`.
pub fn parse_u64(s: &str) -> (r: Option<u64>)
    ensures
        r == spec_parse_u64(s@),
{
    let n = s.unicode_len();
    if n == 0 {
        return None;
    }
    let mut acc: u64 = 0;
    let mut i: usize = 0;
    while i < n
        invariant
            0 < n == s@.len(),
            0 <= i <= n,
            all_digits(s@.subrange(0, i as int)),
            acc as nat == numeral_val(s@.subrange(0, i as int)),
        decreases n - i,
    {
        let ghost pre = s@.subrange(0, i as int);
        let ghost post = s@.subrange(0, i + 1);
        proof {
            assert(post.drop_last() =~= pre);
            assert(post.last() == s@[i as int]);
        }
        let c = s.get_char(i);
        let d = match digit_value(c) {
            Some(d) => d,
            None => {
                return None;
            },
        };
        if acc > (u64::MAX - d) / 10 {
            proof {
                let q = ((u64::MAX - d) / 10) as int;
                let rr = ((u64::MAX - d) % 10) as int;
                vstd::arithmetic::div_mod::lemma_fundamental_div_mod(u64::MAX - d, 10);
                assert(acc as int * 10 >= (q + 1) * 10) by (nonlinear_arith)
                    requires
                        acc as int >= q + 1,
                ;
                assert(numeral_val(post) > u64::MAX);
                lemma_numeral_prefix_le(s@, i + 1);
                assert(post =~= s@.subrange(0, i + 1));
                assert(numeral_val(s@) > u64::MAX);
            }
            return None;
        }
        proof {
            let q = ((u64::MAX - d) / 10) as int;
            vstd::arithmetic::div_mod::lemma_fundamental_div_mod(u64::MAX - d, 10);
            assert(acc as int * 10 <= q * 10) by (nonlinear_arith)
                requires
                    acc as int <= q,
            ;
        }
        acc = acc * 10 + d;
        i = i + 1;
    }
    proof {
        assert(s@.subrange(0, n as int) =~= s@);
    }
    Some(acc)
}

/// One-character string for a digit value.
fn digit_str(d: u64) -> (r: &'static str)
    requires
        d < 10,
    ensures
        r@ == seq![char_of_digit(d as nat)],
{
    proof {
        reveal_strlit("0");
        reveal_strlit("1");
        reveal_strlit("2");
        reveal_strlit("3");
        reveal_strlit("4");
        reveal_strlit("5");
        reveal_strlit("6");
        reveal_strlit("7");
        reveal_strlit("8");
        reveal_strlit("9");
    }
    let r = if d == 0 {
        "0"
    } else if d == 1 {
        "1"
    } else if d == 2 {
        "2"
    } else if d == 3 {
        "3"
    } else if d == 4 {
        "4"
    } else if d == 5 {
        "5"
    } else if d == 6 {
        "6"
    } else if d == 7 {
        "7"
    } else if d == 8 {
        "8"
    } else {
        "9"
    };
    proof {
        assert(r@ =~= seq![char_of_digit(d as nat)]);
    }
    r
}

/// Render `n` in base ten without leading zeros.
pub fn render_u64(n: u64) -> (s: String)
    ensures
        s@ == dec_rep(n as nat),
    decreases n,
{
    if n < 10 {
        String::from_str(digit_str(n))
    } else {
        let mut s = render_u64(n / 10);
        s.append(digit_str(n % 10));
        proof {
            assert(dec_rep(n as nat) == dec_rep(n as nat / 10).push(char_of_digit(n as nat % 10)));
            assert(s@ =~= dec_rep(n as nat));
        }
        s
    }
}

} // verus!
