//! Directory names: every subdirectory is named by a fixed `pit` prefix
//! followed by its directory number as a zero-padded decimal of at least
//! three digits, and such names parse back to the number they were made
//! from.

use vstd::prelude::*;
use vstd::string::StrSliceExecFns;
use vstd::string::StringExecFns;

verus! {

/// Whether `c` is a decimal digit.
pub open spec fn is_digit(c: char) -> bool {
    48 <= c as u32 <= 57
}

/// The numeric value of the decimal digit `c`.
pub open spec fn digit_val(c: char) -> int {
    c as u32 - 48
}

/// The decimal digit character for a value `d` in `0 .. 10`.
pub open spec fn digit_char(d: int) -> char {
    if d == 0 {
        '0'
    } else if d == 1 {
        '1'
    } else if d == 2 {
        '2'
    } else if d == 3 {
        '3'
    } else if d == 4 {
        '4'
    } else if d == 5 {
        '5'
    } else if d == 6 {
        '6'
    } else if d == 7 {
        '7'
    } else if d == 8 {
        '8'
    } else {
        '9'
    }
}

/// The decimal digits of `n`, most significant first, with no leading zeros
/// (a single `'0'` for zero itself).
pub open spec fn dec_digits(n: int) -> Seq<char>
    decreases n,
{
    if n < 10 {
        seq![digit_char(n)]
    } else {
        dec_digits(n / 10).push(digit_char(n % 10))
    }
}

/// The decimal digits of `n` padded with leading zeros to at least three
/// characters, as the `{:03}` format width produces.
pub open spec fn padded_digits(n: int) -> Seq<char> {
    if n < 10 {
        seq!['0', '0'] + dec_digits(n)
    } else if n < 100 {
        seq!['0'] + dec_digits(n)
    } else {
        dec_digits(n)
    }
}

/// The name of directory number `n`: the fixed prefix followed by the
/// zero-padded decimal digits of `n`.
pub open spec fn dir_name_spec(n: int) -> Seq<char> {
    seq!['p', 'i', 't'] + padded_digits(n)
}

/// The numeric value of a sequence of decimal digits, most significant
/// first; leading zeros carry no weight.
pub open spec fn digits_value(s: Seq<char>) -> int
    decreases s.len(),
{
    if s.len() == 0 {
        0
    } else {
        digits_value(s.drop_last()) * 10 + digit_val(s.last())
    }
}

/// Whether every character of `s` is a decimal digit.
pub open spec fn all_digits(s: Seq<char>) -> bool {
    forall|i: int| 0 <= i < s.len() ==> is_digit(s[i])
}

/// What a name parses to: `Some(v)` exactly when the name is the fixed
/// prefix followed by one or more decimal digits whose value `v` fits in
/// 64 bits, and `None` for every other string.
pub open spec fn parsed_dir_num(name: Seq<char>) -> Option<int> {
    if name.len() >= 4 && name[0] == 'p' && name[1] == 'i' && name[2] == 't' && all_digits(
        name.skip(3),
    ) && digits_value(name.skip(3)) <= u64::MAX {
        Some(digits_value(name.skip(3)))
    } else {
        None
    }
}

/// Ten to the power `k`.
pub open spec fn pow10(k: nat) -> int
    decreases k,
{
    if k == 0 {
        1
    } else {
        10 * pow10((k - 1) as nat)
    }
}

pub proof fn lemma_pow10_pos(k: nat)
    ensures
        pow10(k) >= 1,
    decreases k,
{
    if k > 0 {
        lemma_pow10_pos((k - 1) as nat);
    }
}

pub proof fn lemma_digits_value_nonneg(s: Seq<char>)
    requires
        all_digits(s),
    ensures
        digits_value(s) >= 0,
    decreases s.len(),
{
    if s.len() > 0 {
        assert(forall|i: int| 0 <= i < s.drop_last().len() ==> is_digit(#[trigger] s.drop_last()[i]));
        lemma_digits_value_nonneg(s.drop_last());
    }
}

/// The value of a concatenation of digit strings: the left part is shifted
/// by one decimal place for each right-hand digit.
pub proof fn lemma_digits_value_concat(s: Seq<char>, t: Seq<char>)
    ensures
        digits_value(s + t) == digits_value(s) * pow10(t.len()) + digits_value(t),
    decreases t.len(),
{
    if t.len() == 0 {
        assert(s + t =~= s);
    } else {
        lemma_digits_value_concat(s, t.drop_last());
        assert((s + t).drop_last() =~= s + t.drop_last());
        assert((s + t).last() == t.last());
        assert((digits_value(s) * pow10((t.len() - 1) as nat) + digits_value(t.drop_last())) * 10
            == digits_value(s) * pow10(t.len()) + digits_value(t.drop_last()) * 10)
            by (nonlinear_arith)
            requires
                pow10(t.len()) == 10 * pow10((t.len() - 1) as nat),
        ;
    }
}

/// Reading more digits never decreases the value: the value of a digit
/// string bounds the value of each of its prefixes.
pub proof fn lemma_digits_value_prefix_le(s: Seq<char>, i: int)
    requires
        all_digits(s),
        0 <= i <= s.len(),
    ensures
        digits_value(s.take(i)) <= digits_value(s),
{
    let a = s.take(i);
    let b = s.skip(i);
    assert(s =~= a + b);
    assert(forall|j: int| 0 <= j < a.len() ==> is_digit(#[trigger] a[j]));
    assert(forall|j: int| 0 <= j < b.len() ==> is_digit(#[trigger] b[j]));
    lemma_digits_value_concat(a, b);
    lemma_digits_value_nonneg(a);
    lemma_digits_value_nonneg(b);
    lemma_pow10_pos(b.len());
    assert(digits_value(a) * pow10(b.len()) >= digits_value(a)) by (nonlinear_arith)
        requires
            digits_value(a) >= 0,
            pow10(b.len()) >= 1,
    ;
}

pub proof fn lemma_dec_digits_wf(n: int)
    requires
        n >= 0,
    ensures
        all_digits(dec_digits(n)),
        digits_value(dec_digits(n)) == n,
        dec_digits(n).len() >= 1,
    decreases n,
{
    if n < 10 {
        reveal_with_fuel(digits_value, 2);
        assert(dec_digits(n) == seq![digit_char(n)]);
        assert(seq![digit_char(n)].drop_last() =~= Seq::<char>::empty());
        assert(digits_value(seq![digit_char(n)]) == digit_val(digit_char(n)));
    } else {
        lemma_dec_digits_wf(n / 10);
        assert(dec_digits(n).drop_last() =~= dec_digits(n / 10));
        assert(dec_digits(n).last() == digit_char(n % 10));
        assert(digits_value(dec_digits(n)) == digits_value(dec_digits(n / 10)) * 10 + digit_val(
            digit_char(n % 10),
        ));
    }
}

/// A name generated for a directory number parses back to that number.
pub proof fn lemma_name_round_trip(n: u64)
    ensures
        parsed_dir_num(dir_name_spec(n as int)) == Some(n as int),
{
    let m = n as int;
    let name = dir_name_spec(m);
    lemma_dec_digits_wf(m);
    assert(name.skip(3) =~= padded_digits(m));
    if m < 100 {
        let zeros: Seq<char> = if m < 10 {
            seq!['0', '0']
        } else {
            seq!['0']
        };
        assert(padded_digits(m) == zeros + dec_digits(m));
        lemma_digits_value_concat(zeros, dec_digits(m));
        reveal_with_fuel(digits_value, 3);
        assert(seq!['0', '0'].drop_last() =~= seq!['0']);
        assert(seq!['0'].drop_last() =~= Seq::<char>::empty());
        assert(digits_value(seq!['0']) == digit_val('0'));
        assert(digits_value(zeros) == 0);
        assert(digits_value(zeros) * pow10(dec_digits(m).len()) == 0) by (nonlinear_arith)
            requires
                digits_value(zeros) == 0,
        ;
    }
    assert(all_digits(padded_digits(m)));
    assert(digits_value(padded_digits(m)) == m);
}

/// The one-character string for the decimal digit `d`.
fn digit_str(d: u64) -> (r: &'static str)
    requires
        d < 10,
    ensures
        r@ =~= seq![digit_char(d as int)],
{
    proof {
        reveal_strlit("0");
        reveal_strlit("1");
        reveal_strlit("2");
        reveal_strlit("3");
        reveal_strlit("4");
        reveal_strlit("5");
        reveal_strlit("6");
        reveal_strlit("7");
        reveal_strlit("8");
        reveal_strlit("9");
    }
    match d {
        0 => "0",
        1 => "1",
        2 => "2",
        3 => "3",
        4 => "4",
        5 => "5",
        6 => "6",
        7 => "7",
        8 => "8",
        _ => "9",
    }
}

/// Append the decimal digits of `n`, most significant first, to `s`.
fn push_dec(s: &mut String, n: u64)
    ensures
        final(s)@ == old(s)@ + dec_digits(n as int),
    decreases n,
{
    if n < 10 {
        s.append(digit_str(n));
    } else {
        push_dec(s, n / 10);
        s.append(digit_str(n % 10));
    }
    proof {
        assert(s@ =~= old(s)@ + dec_digits(n as int));
    }
}

/// The name of directory number `num`: `pit` followed by the number as a
/// zero-padded decimal of at least three digits.
pub fn dir_name(num: u64) -> (r: String)
    ensures
        r@ == dir_name_spec(num as int),
{
    let mut s = String::from_str("pit");
    proof {
        reveal_strlit("pit");
        assert(s@ =~= seq!['p', 'i', 't']);
    }
    if num < 10 {
        proof {
            reveal_strlit("00");
        }
        s.append("00");
    } else if num < 100 {
        proof {
            reveal_strlit("0");
        }
        s.append("0");
    }
    push_dec(&mut s, num);
    proof {
        assert(s@ =~= dir_name_spec(num as int));
    }
    s
}

/// Parse a directory name back to its number: `Some(v)` exactly when the
/// name is the fixed prefix followed by decimal digits of value `v`, and
/// the value fits in 64 bits.
pub fn name_to_dir_num(name: &str) -> (r: Option<u64>)
    ensures
        match r {
            Some(v) => parsed_dir_num(name@) == Some(v as int),
            None => parsed_dir_num(name@) is None,
        },
{
    let len = name.unicode_len();
    if len < 4 {
        return None;
    }
    if !(name.get_char(0) == 'p' && name.get_char(1) == 'i' && name.get_char(2) == 't') {
        return None;
    }
    let ghost part = name@.skip(3);
    let mut acc: u64 = 0;
    let mut i: usize = 3;
    while i < len
        invariant
            3 <= i <= len,
            len == name@.len(),
            part == name@.skip(3),
            all_digits(part.take(i - 3)),
            acc as int == digits_value(part.take(i - 3)),
        decreases len - i,
    {
        let c = name.get_char(i);
        let cv = c as u32;
        proof {
            assert(part[i - 3] == name@[i as int]);
        }
        if cv < 48 || cv > 57 {
            proof {
                assert(!is_digit(part[i - 3]));
            }
            return None;
        }
        let d = (cv - 48) as u64;
        let ghost prev = part.take(i - 3);
        let ghost cur = part.take(i - 3 + 1);
        proof {
            assert(cur.drop_last() =~= prev);
            assert(cur.last() == part[i - 3]);
        }
        let next = match acc.checked_mul(10) {
            Some(m) => m.checked_add(d),
            None => None,
        };
        match next {
            Some(v) => {
                acc = v;
            },
            None => {
                // The digits read so far already exceed the 64-bit range,
                // and reading further digits never decreases the value.
                proof {
                    assert(digits_value(cur) > u64::MAX);
                    if all_digits(part) {
                        lemma_digits_value_prefix_le(part, i - 3 + 1);
                    }
                }
                return None;
            },
        }
        i = i + 1;
    }
    proof {
        assert(part.take(len - 3) =~= part);
    }
    Some(acc)
}

} // verus!
