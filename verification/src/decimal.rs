//! Decimal rendering and parsing of chunk indices and other counters carried
//! as text frames on the internal bus.

use vstd::prelude::*;

verus! {

/// The character for one decimal digit value.
pub open spec fn digit_char(d: nat) -> char {
    if d == 0 {
        '0'
    } else if d == 1 {
        '1'
    } else if d == 2 {
        '2'
    } else if d == 3 {
        '3'
    } else if d == 4 {
        '4'
    } else if d == 5 {
        '5'
    } else if d == 6 {
        '6'
    } else if d == 7 {
        '7'
    } else if d == 8 {
        '8'
    } else {
        '9'
    }
}

/// The decimal digit characters of `n`, most significant first, with no sign
/// and no leading zero (`0` itself is the single character `'0'`).
pub open spec fn dec_chars(n: nat) -> Seq<char>
    decreases n,
{
    if n < 10 {
        seq![digit_char(n)]
    } else {
        dec_chars(n / 10).push(digit_char(n % 10))
    }
}

pub open spec fn is_digit(c: char) -> bool {
    '0' <= c <= '9'
}

/// A non-empty, all-digit character sequence: what the parser accepts.
pub open spec fn is_dec_digits(s: Seq<char>) -> bool {
    s.len() > 0 && forall|i: int| 0 <= i < s.len() ==> is_digit(#[trigger] s[i])
}

pub open spec fn digit_val(c: char) -> nat {
    (c as int - '0' as int) as nat
}

/// The value of a digit sequence read most-significant-first.
pub open spec fn dec_val(s: Seq<char>) -> nat
    decreases s.len(),
{
    if s.len() == 0 {
        0
    } else {
        dec_val(s.drop_last()) * 10 + digit_val(s.last())
    }
}

/// The digit characters evaluate back to their digit values.
proof fn lemma_digit_char_val(d: nat)
    requires
        d < 10,
    ensures
        is_digit(digit_char(d)),
        digit_val(digit_char(d)) == d,
{
}

/// Rendering then parsing a number gives it back: `dec_chars` always produces
/// digits, and they evaluate to the rendered number.
pub proof fn lemma_dec_round_trip(n: nat)
    ensures
        is_dec_digits(dec_chars(n)),
        dec_val(dec_chars(n)) == n,
    decreases n,
{
    if n < 10 {
        lemma_digit_char_val(n);
        assert(dec_chars(n) =~= seq![digit_char(n)]);
        assert(dec_chars(n).drop_last() =~= Seq::<char>::empty());
        assert(dec_val(Seq::<char>::empty()) == 0);
        assert(dec_val(dec_chars(n)) == dec_val(dec_chars(n).drop_last()) * 10 + digit_val(
            dec_chars(n).last()));
        assert(dec_chars(n).last() == digit_char(n));
    } else {
        lemma_dec_round_trip(n / 10);
        lemma_digit_char_val(n % 10);
        assert(dec_chars(n) == dec_chars(n / 10).push(digit_char(n % 10)));
        assert(dec_chars(n).drop_last() =~= dec_chars(n / 10));
        assert(dec_chars(n).last() == digit_char(n % 10));
        assert(dec_val(dec_chars(n)) == dec_val(dec_chars(n / 10)) * 10 + (n % 10));
        assert((n / 10) * 10 + n % 10 == n) by (nonlinear_arith);
    }
}

/// Appending a digit multiplies the value by ten and adds the digit.
proof fn lemma_dec_val_push(s: Seq<char>, c: char)
    ensures
        dec_val(s.push(c)) == dec_val(s) * 10 + digit_val(c),
{
    assert(s.push(c).drop_last() =~= s);
}

/// A prefix never evaluates above the whole digit string.
proof fn lemma_dec_val_prefix(s: Seq<char>, i: int)
    requires
        0 <= i <= s.len(),
    ensures
        dec_val(s.take(i)) <= dec_val(s),
    decreases s.len() - i,
{
    if i < s.len() {
        lemma_dec_val_prefix(s, i + 1);
        lemma_dec_val_push(s.take(i), s[i]);
        assert(s.take(i + 1) =~= s.take(i).push(s[i]));
        assert(dec_val(s.take(i)) <= dec_val(s.take(i)) * 10 + digit_val(s[i]))
            by (nonlinear_arith);
    } else {
        assert(s.take(i) =~= s);
    }
}

/// One digit as a string slice.
fn digit_str(d: u8) -> (r: &'static str)
    requires
        d < 10,
    ensures
        r@ =~= seq![digit_char(d as nat)],
{
    proof {
        reveal_strlit("0");
        reveal_strlit("1");
        reveal_strlit("2");
        reveal_strlit("3");
        reveal_strlit("4");
        reveal_strlit("5");
        reveal_strlit("6");
        reveal_strlit("7");
        reveal_strlit("8");
        reveal_strlit("9");
    }
    match d {
        0 => "0",
        1 => "1",
        2 => "2",
        3 => "3",
        4 => "4",
        5 => "5",
        6 => "6",
        7 => "7",
        8 => "8",
        _ => "9",
    }
}

/// The digit characters of a low-to-high digit-value list, read back
/// high-to-low.
spec fn chars_of_rev(digits: Seq<u8>) -> Seq<char> {
    Seq::new(digits.len(), |i: int| digit_char(digits[digits.len() - 1 - i] as nat))
}

/// Splitting off the low digit of a positive number peels one character off
/// the decimal rendering.
proof fn lemma_dec_chars_split(m: nat, d: nat)
    requires
        d < 10,
    ensures
        m > 0 ==> dec_chars(m * 10 + d) =~= dec_chars(m).push(digit_char(d)),
        m == 0 ==> dec_chars(m * 10 + d) =~= seq![digit_char(d)],
{
    if m > 0 {
        assert(m * 10 + d >= 10 && (m * 10 + d) / 10 == m && (m * 10 + d) % 10 == d)
            by (nonlinear_arith)
            requires
                m > 0 && d < 10,
        ;
    }
}

/// Render `n` in decimal, most significant digit first.
pub fn u64_to_dec(n: u64) -> (r: String)
    ensures
        r@ == dec_chars(n as nat),
{
    let mut digits: Vec<u8> = Vec::new();
    digits.push((n % 10) as u8);
    proof {
        lemma_dec_chars_split((n / 10) as nat, (n % 10) as nat);
        assert((n / 10) * 10 + n % 10 == n) by (nonlinear_arith);
        assert(chars_of_rev(digits@) =~= seq![digit_char((n % 10) as nat)]);
    }
    let mut m: u64 = n / 10;
    while m > 0
        invariant
            forall|i: int| 0 <= i < digits@.len() ==> digits@[i] < 10,
            digits@.len() > 0,
            m > 0 ==> dec_chars(n as nat) =~= dec_chars(m as nat) + chars_of_rev(digits@),
            m == 0 ==> dec_chars(n as nat) =~= chars_of_rev(digits@),
        decreases m,
    {
        let d = (m % 10) as u8;
        let ghost old_digits = digits@;
        digits.push(d);
        let next = m / 10;
        proof {
            assert(chars_of_rev(old_digits.push(d)) =~= seq![digit_char(d as nat)]
                + chars_of_rev(old_digits));
            lemma_dec_chars_split(next as nat, (m % 10) as nat);
            assert(next * 10 + m % 10 == m) by (nonlinear_arith)
                requires
                    next == m / 10,
            ;
            if next > 0 {
                assert(dec_chars(n as nat) =~= dec_chars(next as nat)
                    + chars_of_rev(digits@));
            } else {
                assert(dec_chars(m as nat) =~= seq![digit_char(d as nat)]);
                assert(dec_chars(n as nat) =~= chars_of_rev(digits@));
            }
        }
        m = next;
    }
    let mut s = String::new();
    let mut i: usize = digits.len();
    while i > 0
        invariant
            i <= digits@.len(),
            forall|k: int| 0 <= k < digits@.len() ==> digits@[k] < 10,
            s@ =~= chars_of_rev(digits@).take(digits@.len() - i),
        decreases i,
    {
        i = i - 1;
        s.append(digit_str(digits[i]));
        proof {
            assert(chars_of_rev(digits@)[digits@.len() - 1 - i] == digit_char(
                digits@[i as int] as nat));
            assert(s@ =~= chars_of_rev(digits@).take(digits@.len() - i));
        }
    }
    proof {
        assert(chars_of_rev(digits@).take(digits@.len() as int) =~= chars_of_rev(digits@));
    }
    s
}

/// Parse a decimal `u64`. Returns the value exactly when the string is one or
/// more decimal digits whose value fits in a `u64`.
pub fn parse_u64(s: &str) -> (r: Option<u64>)
    ensures
        match r {
            Some(n) => is_dec_digits(s@) && n as nat == dec_val(s@),
            None => !is_dec_digits(s@) || dec_val(s@) > u64::MAX,
        },
{
    broadcast use vstd::string::is_ascii_spec_bytes;

    if !s.is_ascii() {
        proof {
            let j = choose|j: int| 0 <= j < s@.len() && !('\0' <= #[trigger] s@[j] <= '\u{7f}');
            if s@.len() > 0 && is_dec_digits(s@) {
                assert(is_digit(s@[j]));
            }
        }
        return None;
    }
    let bytes = s.as_bytes_vec();
    if bytes.len() == 0 {
        return None;
    }
    let mut acc: u64 = 0;
    let mut i: usize = 0;
    while i < bytes.len()
        invariant
            s.is_ascii(),
            bytes@ =~= Seq::new(s@.len(), |k: int| s@[k] as u8),
            i <= bytes@.len(),
            bytes@.len() == s@.len(),
            forall|k: int| 0 <= k < i ==> is_digit(#[trigger] s@[k]),
            acc as nat == dec_val(s@.take(i as int)),
        decreases bytes@.len() - i,
    {
        let b = bytes[i];
        proof {
            assert(s@[i as int] as u8 == b);
        }
        if b < 48 || b > 57 {
            proof {
                assert(!is_digit(s@[i as int]));
            }
            return None;
        }
        let d = (b - 48) as u64;
        proof {
            assert(is_digit(s@[i as int]));
            assert(digit_val(s@[i as int]) == d as nat);
            lemma_dec_val_push(s@.take(i as int), s@[i as int]);
            assert(s@.take(i + 1) =~= s@.take(i as int).push(s@[i as int]));
        }
        let scaled = match acc.checked_mul(10) {
            Some(v) => v,
            None => {
                proof {
                    lemma_dec_val_prefix(s@, i + 1);
                }
                return None;
            },
        };
        acc = match scaled.checked_add(d) {
            Some(v) => v,
            None => {
                proof {
                    lemma_dec_val_prefix(s@, i + 1);
                }
                return None;
            },
        };
        i = i + 1;
    }
    proof {
        assert(s@.take(s@.len() as int) =~= s@);
    }
    Some(acc)
}

} // verus!
