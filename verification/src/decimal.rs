//! Base-10 rendering and parsing of the integers the interpreter prints and
//! reads.

use vstd::prelude::*;
use vstd::std_specs::iter::IteratorSpec;

verus! {

/// The ASCII digits of a non-negative number, most significant first.
pub open spec fn decimal_digits(n: nat) -> Seq<u8>
    decreases n,
{
    if n < 10 {
        seq![(48 + n) as u8]
    } else {
        decimal_digits(n / 10).push((48 + n % 10) as u8)
    }
}

/// The ASCII rendering of an integer: a minus sign before the digits of its
/// magnitude when it is negative.
pub open spec fn decimal_repr(v: int) -> Seq<u8> {
    if v < 0 {
        seq![45u8] + decimal_digits((-v) as nat)
    } else {
        decimal_digits(v as nat)
    }
}

/// Whether a character is an ASCII digit.
pub open spec fn is_ascii_digit(c: char) -> bool {
    48 <= c as u32 <= 57
}

/// Whether every character of a sequence is an ASCII digit.
pub open spec fn all_digits(s: Seq<char>) -> bool {
    forall|i: int| 0 <= i < s.len() ==> is_ascii_digit(#[trigger] s[i])
}

/// The number a sequence of ASCII digits denotes.
pub open spec fn digits_value(s: Seq<char>) -> int
    decreases s.len(),
{
    if s.len() == 0 {
        0
    } else {
        digits_value(s.drop_last()) * 10 + (s.last() as u32 - 48)
    }
}

/// What a token parses to as a signed decimal: an optional sign, then one or
/// more digits; anything else is no number.
pub open spec fn parsed_decimal(s: Seq<char>) -> Option<int> {
    if s.len() == 0 {
        None
    } else if s[0] == '-' || s[0] == '+' {
        if s.len() >= 2 && all_digits(s.drop_first()) {
            if s[0] == '-' {
                Some(-digits_value(s.drop_first()))
            } else {
                Some(digits_value(s.drop_first()))
            }
        } else {
            None
        }
    } else {
        if all_digits(s) {
            Some(digits_value(s))
        } else {
            None
        }
    }
}

/// A digit string denotes a non-negative number.
pub proof fn lemma_digits_value_nonneg(s: Seq<char>)
    requires
        all_digits(s),
    ensures
        digits_value(s) >= 0,
    decreases s.len(),
{
    if s.len() > 0 {
        assert(all_digits(s.drop_last())) by {
            assert(forall|i: int| 0 <= i < s.len() - 1 ==> s.drop_last()[i] == s[i]);
        }
        lemma_digits_value_nonneg(s.drop_last());
    }
}

/// Appending digits never shrinks the number a digit string denotes.
pub proof fn lemma_digits_value_extend(s: Seq<char>, t: Seq<char>)
    requires
        all_digits(s),
        all_digits(t),
    ensures
        digits_value(s + t) >= digits_value(s),
    decreases t.len(),
{
    lemma_digits_value_nonneg(s);
    if t.len() == 0 {
        assert(s + t =~= s);
    } else {
        assert(all_digits(t.drop_last())) by {
            assert(forall|i: int| 0 <= i < t.len() - 1 ==> t.drop_last()[i] == t[i]);
        }
        assert(all_digits(s + t.drop_last()));
        lemma_digits_value_extend(s, t.drop_last());
        assert((s + t).drop_last() =~= s + t.drop_last());
        assert(all_digits(s + t));
        lemma_digits_value_nonneg(s + t.drop_last());
        assert(digits_value(s + t) == digits_value(s + t.drop_last()) * 10 + ((s + t).last()
            as u32 - 48));
        assert(digits_value(s + t.drop_last()) * 10 >= digits_value(s + t.drop_last()))
            by (nonlinear_arith)
            requires
                digits_value(s + t.drop_last()) >= 0,
        ;
    }
}

/// The digits of an integer, most significant first, with a leading minus
/// sign when it is negative.
pub fn int_to_decimal_digits(v: i64) -> (r: Vec<u8>)
    ensures
        r@ == decimal_repr(v as int),
{
    let negative = v < 0;
    let mut m: u64 = if v >= 0 {
        v as u64
    } else {
        (-(v + 1)) as u64 + 1
    };
    let ghost m0 = m as nat;
    proof {
        assert(m as int == if v >= 0 { v as int } else { -(v as int) });
    }
    let mut reversed: Vec<u8> = Vec::new();
    reversed.push(48 + (m % 10) as u8);
    m = m / 10;
    proof {
        if m == 0 {
            assert(decimal_digits(m0) =~= reversed@.reverse());
        } else {
            assert(decimal_digits(m0) =~= decimal_digits(m as nat) + reversed@.reverse());
        }
    }
    while m > 0
        invariant
            m == 0 ==> decimal_digits(m0) == reversed@.reverse(),
            m > 0 ==> decimal_digits(m0) == decimal_digits(m as nat) + reversed@.reverse(),
            reversed@.len() >= 1,
        decreases m,
    {
        let ghost before = reversed@;
        let ghost mb = m as nat;
        reversed.push(48 + (m % 10) as u8);
        m = m / 10;
        proof {
            assert(reversed@.reverse() =~= seq![(48 + mb % 10) as u8] + before.reverse());
            if m == 0 {
                assert(decimal_digits(mb) =~= seq![(48 + mb % 10) as u8]);
                assert(decimal_digits(m0) =~= reversed@.reverse());
            } else {
                assert(decimal_digits(mb) =~= decimal_digits(m as nat).push(
                    (48 + mb % 10) as u8,
                ));
                assert(decimal_digits(m as nat) + reversed@.reverse() =~= decimal_digits(mb)
                    + before.reverse());
            }
        }
    }
    let mut out: Vec<u8> = Vec::new();
    if negative {
        out.push(45);
    }
    let digit_count = reversed.len();
    for i in 0..digit_count
        invariant
            digit_count == reversed@.len(),
            out@.len() == i + (if negative { 1int } else { 0int }),
            negative ==> out@ == seq![45u8] + reversed@.reverse().take(i as int),
            !negative ==> out@ == reversed@.reverse().take(i as int),
    {
        let d = reversed[digit_count - 1 - i];
        out.push(d);
        proof {
            assert(reversed@.reverse().take(i + 1) =~= reversed@.reverse().take(i as int).push(
                d,
            ));
            if negative {
                assert(out@ =~= seq![45u8] + reversed@.reverse().take(i + 1));
            } else {
                assert(out@ =~= reversed@.reverse().take(i + 1));
            }
        }
    }
    proof {
        assert(reversed@.reverse().take(reversed@.len() as int) =~= reversed@.reverse());
        assert(decimal_digits(m0) == reversed@.reverse());
    }
    out
}

/// Parse a token as a signed decimal integer: `Some` exactly when the token
/// is an optional sign followed by digits and the value fits in 64 bits.
pub fn parse_int(s: &str) -> (r: Option<i64>)
    ensures
        r is Some <==> (parsed_decimal(s@) matches Some(v) && i64::MIN <= v <= i64::MAX),
        r matches Some(x) ==> parsed_decimal(s@) == Some(x as int),
{
    broadcast use vstd::string::next_postcondition;

    let mut it = s.chars();
    let ghost whole = s@;
    let first = it.next();
    match first {
        None => {
            proof {
                assert(whole.len() == 0);
                assert(parsed_decimal(whole) is None);
            }
            None
        },
        Some(c0) => {
            proof {
                assert(whole.len() > 0 && whole[0] == c0);
                assert(it.remaining() =~= whole.drop_first());
            }
            let negative = c0 == '-';
            let signed = negative || c0 == '+';
            // `acc` accumulates the negated magnitude, so that the most
            // negative value needs no special case.
            let mut acc: i64 = 0;
            let ghost mut digits: Seq<char> = if signed {
                Seq::<char>::empty()
            } else {
                seq![c0]
            };
            let mut seen_digit = false;
            if !signed {
                if !(('0' as u32) <= (c0 as u32) && (c0 as u32) <= ('9' as u32)) {
                    proof {
                        assert(!is_ascii_digit(whole[0]));
                        assert(parsed_decimal(whole) is None);
                    }
                    return None;
                }
                acc = -(((c0 as u32) - ('0' as u32)) as i64);
                seen_digit = true;
                proof {
                    assert(digits.drop_last() =~= Seq::<char>::empty());
                    assert(digits.last() == c0);
                    assert(digits_value(Seq::<char>::empty()) == 0);
                    assert(digits_value(digits) == (c0 as u32) - 48);
                    assert(acc as int == -digits_value(digits));
                }
            }
            let ghost sign_len: int = if signed { 1int } else { 0int };
            proof {
                assert(digits =~= whole.subrange(sign_len, sign_len + digits.len()));
                assert(it.remaining() =~= whole.skip(sign_len + digits.len()));
            }
            loop
                invariant
                    whole == s@,
                    it.remaining() =~= whole.skip(sign_len + digits.len()),
                    whole.len() >= sign_len + digits.len(),
                    digits =~= whole.subrange(sign_len, sign_len + digits.len()),
                    all_digits(digits),
                    acc as int == -digits_value(digits),
                    seen_digit <==> digits.len() > 0,
                    sign_len == (if signed { 1int } else { 0int }),
                    signed ==> whole.len() >= 1 && (whole[0] == '-' || whole[0] == '+'),
                    !signed ==> whole.len() >= 1 && is_ascii_digit(whole[0]),
                ensures
                    whole.len() == sign_len + digits.len(),
                    digits =~= whole.subrange(sign_len, sign_len + digits.len()),
                    all_digits(digits),
                    acc as int == -digits_value(digits),
                    seen_digit <==> digits.len() > 0,
                decreases whole.len() - sign_len - digits.len(),
            {
                broadcast use vstd::string::next_postcondition;

                let next = it.next();
                match next {
                    None => {
                        proof {
                            assert(whole.skip(sign_len + digits.len()).len() == 0);
                        }
                        break;
                    },
                    Some(c) => {
                        proof {
                            assert(whole.skip(sign_len + digits.len())[0] == whole[sign_len
                                + digits.len()]);
                            assert(whole[sign_len + digits.len()] == c);
                            assert(it.remaining() =~= whole.skip(sign_len + digits.len() + 1));
                        }
                        if !(('0' as u32) <= (c as u32) && (c as u32) <= ('9' as u32)) {
                            proof {
                                let k = sign_len + digits.len();
                                assert(!is_ascii_digit(whole[k]));
                                if signed {
                                    assert(!is_ascii_digit(whole.drop_first()[k - 1]));
                                    assert(!all_digits(whole.drop_first()));
                                } else {
                                    assert(!all_digits(whole));
                                }
                                assert(parsed_decimal(whole) is None);
                            }
                            return None;
                        }
                        let d = ((c as u32) - ('0' as u32)) as i64;
                        let ghost digits_before = digits;
                        proof {
                            digits = digits.push(c);
                            assert(digits.drop_last() =~= digits_before);
                            assert(digits =~= whole.subrange(sign_len, sign_len + digits.len()));
                            assert(whole.skip(sign_len + digits.len()) =~= whole.skip(sign_len
                                + digits_before.len() + 1));
                        }
                        let scaled = match acc.checked_mul(10) {
                            Some(x) => x,
                            None => {
                                proof {
                                    lemma_digits_value_nonneg(digits_before);
                                    assert((acc as int) * 10 < i64::MIN);
                                    assert(digits_value(digits) == digits_value(digits_before)
                                        * 10 + (c as u32 - 48));
                                    assert(digits_value(digits) > -(i64::MIN as int));
                                    lemma_parse_overflow(whole, sign_len, digits, signed);
                                }
                                return None;
                            },
                        };
                        acc = match scaled.checked_sub(d) {
                            Some(x) => x,
                            None => {
                                proof {
                                    assert((scaled as int) - (d as int) < i64::MIN);
                                    assert(digits_value(digits) == digits_value(digits_before)
                                        * 10 + (c as u32 - 48));
                                    assert(digits_value(digits) > -(i64::MIN as int));
                                    lemma_parse_overflow(whole, sign_len, digits, signed);
                                }
                                return None;
                            },
                        };
                        seen_digit = true;
                    },
                }
            }
            if !seen_digit {
                proof {
                    assert(whole.len() == 1);
                    assert(parsed_decimal(whole) is None);
                }
                return None;
            }
            proof {
                if signed {
                    assert(whole.drop_first() =~= digits);
                } else {
                    assert(whole =~= digits);
                }
                lemma_digits_value_nonneg(digits);
            }
            if negative {
                Some(acc)
            } else {
                if acc == i64::MIN {
                    proof {
                        assert(parsed_decimal(whole) == Some(digits_value(digits)));
                        assert(digits_value(digits) > i64::MAX);
                    }
                    None
                } else {
                    Some(-acc)
                }
            }
        },
    }
}

/// When the accumulated magnitude of the parsed digits has outgrown the
/// 64-bit range, the value of the whole token lies outside it too.
proof fn lemma_parse_overflow(whole: Seq<char>, sign_len: int, digits: Seq<char>, signed: bool)
    requires
        0 <= sign_len <= 1,
        signed <==> sign_len == 1,
        sign_len + digits.len() <= whole.len(),
        digits =~= whole.subrange(sign_len, sign_len + digits.len()),
        all_digits(digits),
        digits_value(digits) > -(i64::MIN as int),
        signed ==> whole.len() >= 1 && (whole[0] == '-' || whole[0] == '+'),
        !signed ==> whole.len() >= 1 && is_ascii_digit(whole[0]),
    ensures
        !(parsed_decimal(whole) matches Some(v) && i64::MIN <= v <= i64::MAX),
{
    match parsed_decimal(whole) {
        Some(v) => {
            let body = if signed {
                whole.drop_first()
            } else {
                whole
            };
            assert(all_digits(body));
            let rest = body.skip(digits.len() as int);
            assert(all_digits(rest)) by {
                assert(forall|i: int| 0 <= i < rest.len() ==> rest[i] == body[i + digits.len()]);
            }
            assert(body =~= digits + rest);
            lemma_digits_value_extend(digits, rest);
            assert(digits_value(body) > i64::MAX);
            if signed && whole[0] == '-' {
                assert(v == -digits_value(body));
                assert(v < i64::MIN);
            } else {
                assert(v == digits_value(body));
                assert(v > i64::MAX);
            }
        },
        None => {},
    }
}

} // verus!
