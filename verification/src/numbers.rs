//! Decimal reading and writing of port numbers.
//!
//! The notification port is stored as decimal text in a small file; it is
//! read back with the exact acceptance rule of `u16::from_str` (an optional
//! leading `+`, then one or more ASCII digits, value at most 65535) applied
//! to the whitespace-trimmed content.

use vstd::prelude::*;
use vstd::string::*;
use crate::chars::{is_ws, trim, trim_start, is_whitespace_char};
use crate::chars::{lemma_trim_start_at, lemma_trim_end_at};

verus! {

/// `c` is an ASCII decimal digit.
pub open spec fn is_digit(c: char) -> bool {
    48 <= c as int <= 57
}

/// The numeric value of the digit `c`.
pub open spec fn digit_val(c: char) -> int {
    c as int - 48
}

/// The number that the digit string `s` denotes in base ten.
pub open spec fn dec_value(s: Seq<char>) -> int
    decreases s.len(),
{
    if s.len() == 0 {
        0
    } else {
        dec_value(s.drop_last()) * 10 + digit_val(s.last())
    }
}

/// Every character of `s` is a decimal digit.
pub open spec fn all_digits(s: Seq<char>) -> bool {
    forall|i: int| 0 <= i < s.len() ==> is_digit(s[i])
}

/// `s` with an optional leading `+` sign removed.
pub open spec fn digits_part(s: Seq<char>) -> Seq<char> {
    if s.len() > 0 && s[0] == '+' {
        s.drop_first()
    } else {
        s
    }
}

/// What `u16::from_str` accepts: an optional leading `+`, then one or more
/// digits denoting a value of at most 65535.
pub open spec fn parse_u16(s: Seq<char>) -> Option<u16> {
    if digits_part(s).len() > 0 && all_digits(digits_part(s)) && dec_value(digits_part(s))
        <= 65535 {
        Some(dec_value(digits_part(s)) as u16)
    } else {
        None
    }
}

/// A digit string denotes a non-negative number.
pub proof fn lemma_dec_value_nonneg(s: Seq<char>)
    requires
        forall|i: int| 0 <= i < s.len() ==> is_digit(s[i]),
    ensures
        dec_value(s) >= 0,
    decreases s.len(),
{
    if s.len() > 0 {
        lemma_dec_value_nonneg(s.drop_last());
    }
}

/// A prefix of a digit string denotes no more than the whole string.
pub proof fn lemma_dec_value_prefix_le(s: Seq<char>, i: int)
    requires
        forall|k: int| 0 <= k < s.len() ==> is_digit(s[k]),
        0 <= i <= s.len(),
    ensures
        dec_value(s.subrange(0, i)) <= dec_value(s),
    decreases s.len(),
{
    if i == s.len() {
        assert(s.subrange(0, i) =~= s);
    } else {
        assert(s.drop_last() =~= s.subrange(0, s.len() - 1));
        assert(s.subrange(0, i) =~= s.drop_last().subrange(0, i));
        lemma_dec_value_prefix_le(s.drop_last(), i);
        lemma_dec_value_nonneg(s.drop_last());
    }
}

/// The port value denoted by `content`, trimmed and read as `u16::from_str`
/// reads it; `None` when the trimmed text is not a well-formed port number.
pub fn parse_port_value(content: &str) -> (r: Option<u16>)
    ensures
        r == parse_u16(trim(content@)),
{
    let n = content.unicode_len();
    let mut j: usize = 0;
    while j < n && is_whitespace_char(content.get_char(j))
        invariant
            0 <= j <= n,
            n == content@.len(),
            forall|k: int| 0 <= k < j ==> is_ws(content@[k]),
        decreases n - j,
    {
        j = j + 1;
    }
    if j == n {
        proof {
            lemma_trim_start_at(content@, n as int);
            assert(trim_start(content@) =~= Seq::<char>::empty());
            assert(trim(content@) =~= Seq::<char>::empty());
        }
        return None;
    }
    let mut e: usize = n;
    while e > j + 1 && is_whitespace_char(content.get_char(e - 1))
        invariant
            j < n,
            j + 1 <= e <= n,
            n == content@.len(),
            forall|k: int| e <= k < n ==> is_ws(content@[k]),
        decreases e,
    {
        e = e - 1;
    }
    proof {
        // either the whitespace scan stopped at a non-whitespace character,
        // or e == j + 1 and position j is known not to be whitespace
        assert(!is_ws(content@[e - 1]));
    }
    let t = content.substring_char(j, e);
    proof {
        lemma_trim_start_at(content@, j as int);
        lemma_trim_end_at(content@.subrange(j as int, n as int), e - j);
        assert(content@.subrange(j as int, n as int).subrange(0, e - j) =~= content@.subrange(
            j as int,
            e as int,
        ));
        assert(trim(content@) =~= t@);
    }
    let tn = e - j;
    let start: usize = if t.get_char(0) == '+' {
        1
    } else {
        0
    };
    let ghost d: Seq<char> = if t@[0] == '+' {
        t@.drop_first()
    } else {
        t@
    };
    proof {
        assert(d =~= t@.subrange(start as int, tn as int));
    }
    if start == tn {
        return None;
    }
    let mut i: usize = start;
    let mut acc: u32 = 0;
    while i < tn
        invariant
            start <= i <= tn,
            tn == t@.len(),
            tn <= n,
            start <= 1,
            tn > 0,
            start < tn,
            trim(content@) == t@,
            (start == 1) == (t@[0] == '+'),
            d =~= t@.subrange(start as int, tn as int),
            forall|k: int| start <= k < i ==> is_digit(t@[k]),
            acc == dec_value(t@.subrange(start as int, i as int)),
            acc <= 65535,
        decreases tn - i,
    {
        let u = t.get_char(i) as u32;
        if u < 48 || u > 57 {
            proof {
                assert(digits_part(trim(content@)) =~= d);
                assert(!is_digit(d[i - start]));
                assert(!all_digits(d));
            }
            return None;
        }
        proof {
            let pre = t@.subrange(start as int, i as int);
            let ext = t@.subrange(start as int, i + 1);
            assert(ext.drop_last() =~= pre);
            assert(ext.last() == t@[i as int]);
        }
        acc = acc * 10 + (u - 48);
        if acc > 65535 {
            proof {
                assert(digits_part(trim(content@)) =~= d);
                if all_digits(d) {
                    lemma_dec_value_prefix_le(d, i + 1 - start);
                    assert(d.subrange(0, i + 1 - start) =~= t@.subrange(start as int, i + 1));
                    assert(dec_value(d) > 65535);
                }
            }
            return None;
        }
        i = i + 1;
    }
    proof {
        assert(digits_part(trim(content@)) =~= d);
        assert(t@.subrange(start as int, i as int) =~= d);
        lemma_dec_value_nonneg(d);
    }
    Some(acc as u16)
}

/// The digit character for the value `d`.
pub open spec fn digit_char(d: int) -> char {
    if d == 0 {
        '0'
    } else if d == 1 {
        '1'
    } else if d == 2 {
        '2'
    } else if d == 3 {
        '3'
    } else if d == 4 {
        '4'
    } else if d == 5 {
        '5'
    } else if d == 6 {
        '6'
    } else if d == 7 {
        '7'
    } else if d == 8 {
        '8'
    } else {
        '9'
    }
}

/// The shortest decimal digit string for the non-negative number `v`.
pub open spec fn dec_repr(v: int) -> Seq<char>
    decreases v,
{
    if v < 10 {
        seq![digit_char(v)]
    } else {
        dec_repr(v / 10).push(digit_char(v % 10))
    }
}

/// Appends one digit character to `out`.
fn push_digit_char(d: u16, out: &mut String)
    requires
        d < 10,
    ensures
        final(out)@ == old(out)@ + seq![digit_char(d as int)],
{
    match d {
        0 => {
            out.append("0");
            proof {
                reveal_strlit("0");
                assert(out@ =~= old(out)@ + seq![digit_char(d as int)]);
            }
        },
        1 => {
            out.append("1");
            proof {
                reveal_strlit("1");
                assert(out@ =~= old(out)@ + seq![digit_char(d as int)]);
            }
        },
        2 => {
            out.append("2");
            proof {
                reveal_strlit("2");
                assert(out@ =~= old(out)@ + seq![digit_char(d as int)]);
            }
        },
        3 => {
            out.append("3");
            proof {
                reveal_strlit("3");
                assert(out@ =~= old(out)@ + seq![digit_char(d as int)]);
            }
        },
        4 => {
            out.append("4");
            proof {
                reveal_strlit("4");
                assert(out@ =~= old(out)@ + seq![digit_char(d as int)]);
            }
        },
        5 => {
            out.append("5");
            proof {
                reveal_strlit("5");
                assert(out@ =~= old(out)@ + seq![digit_char(d as int)]);
            }
        },
        6 => {
            out.append("6");
            proof {
                reveal_strlit("6");
                assert(out@ =~= old(out)@ + seq![digit_char(d as int)]);
            }
        },
        7 => {
            out.append("7");
            proof {
                reveal_strlit("7");
                assert(out@ =~= old(out)@ + seq![digit_char(d as int)]);
            }
        },
        8 => {
            out.append("8");
            proof {
                reveal_strlit("8");
                assert(out@ =~= old(out)@ + seq![digit_char(d as int)]);
            }
        },
        _ => {
            out.append("9");
            proof {
                reveal_strlit("9");
                assert(out@ =~= old(out)@ + seq![digit_char(d as int)]);
            }
        },
    }
}

/// Appends the decimal digits of `v` to `out`.
fn push_decimal(v: u16, out: &mut String)
    ensures
        final(out)@ == old(out)@ + dec_repr(v as int),
    decreases v,
{
    if v >= 10 {
        push_decimal(v / 10, out);
    }
    push_digit_char(v % 10, out);
    proof {
        if v >= 10 {
            assert(out@ =~= old(out)@ + dec_repr((v / 10) as int).push(
                digit_char((v % 10) as int),
            ));
        } else {
            assert(v % 10 == v as int);
            assert(out@ =~= old(out)@ + dec_repr(v as int));
        }
    }
}

/// The decimal text of `v`, as `u16::to_string` writes it.
pub fn u16_to_string(v: u16) -> (r: String)
    ensures
        r@ == dec_repr(v as int),
{
    let mut s = String::new();
    push_decimal(v, &mut s);
    proof {
        assert(s@ =~= dec_repr(v as int));
    }
    s
}

} // verus!
