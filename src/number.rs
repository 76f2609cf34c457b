use vstd::prelude::*;
use vstd::string::*;

verus! {

/// Whether `c` is an ASCII decimal digit.
pub open spec fn is_digit(c: char) -> bool {
    '0' <= c && c <= '9'
}

/// Value of an ASCII decimal digit.
pub open spec fn digit_value(c: char) -> nat {
    (c as u32 - '0' as u32) as nat
}

/// Whether every character of `s` is a decimal digit.
pub open spec fn all_digits(s: Seq<char>) -> bool {
    forall|i: int| 0 <= i < s.len() ==> is_digit(#[trigger] s[i])
}

/// The number that the decimal digits `s` write.
pub open spec fn decimal_value(s: Seq<char>) -> nat
    decreases s.len(),
{
    if s.len() == 0 {
        0
    } else {
        decimal_value(s.drop_last()) * 10 + digit_value(s.last())
    }
}

/// The digits after an optional leading sign character `sign`.
pub open spec fn unsigned_part(s: Seq<char>, sign: char) -> Seq<char> {
    if s.len() > 0 && s[0] == sign {
        s.drop_first()
    } else {
        s
    }
}

/// Whether `d` is a non-empty run of digits whose value is at most `limit`.
pub open spec fn digits_within(d: Seq<char>, limit: nat) -> bool {
    d.len() > 0 && all_digits(d) && decimal_value(d) <= limit
}

/// The value of an unsigned integer text, as std's `from_str` for unsigned
/// integers reads it: an optional `+`, then one or more digits, the value at
/// most `limit`.
pub open spec fn unsigned_value(s: Seq<char>, limit: nat) -> Option<nat> {
    let d = unsigned_part(s, '+');
    if digits_within(d, limit) {
        Some(decimal_value(d))
    } else {
        None
    }
}

/// The value of a signed 64-bit integer text, as `i64::from_str` reads it: an
/// optional `+` or `-`, then one or more digits, the value in range.
pub open spec fn i64_value(s: Seq<char>) -> Option<int> {
    if s.len() > 0 && s[0] == '-' {
        if digits_within(s.drop_first(), 0x8000_0000_0000_0000) {
            Some(-decimal_value(s.drop_first()))
        } else {
            None
        }
    } else {
        match unsigned_value(s, i64::MAX as nat) {
            Some(v) => Some(v as int),
            None => None,
        }
    }
}

proof fn lemma_prefix_value_le(s: Seq<char>, k: int)
    requires
        0 <= k <= s.len(),
        all_digits(s),
    ensures
        decimal_value(s.take(k)) <= decimal_value(s),
    decreases s.len(),
{
    if k < s.len() {
        let d = s.drop_last();
        assert(all_digits(d)) by {
            assert forall|i: int| 0 <= i < d.len() implies is_digit(#[trigger] d[i]) by {
                assert(d[i] == s[i]);
            }
        }
        lemma_prefix_value_le(d, k);
        assert(d.take(k) =~= s.take(k));
    } else {
        assert(s.take(k) =~= s);
    }
}

/// The value of the digits `s[from..]`, if they are all digits, there is at
/// least one, and the value is at most `limit`.
fn digits_value(s: &str, from: usize, limit: u64) -> (r: Option<u64>)
    requires
        from <= s@.len(),
    ensures
        match r {
            Some(v) => digits_within(s@.subrange(from as int, s@.len() as int), limit as nat) && v
                == decimal_value(s@.subrange(from as int, s@.len() as int)),
            None => !digits_within(s@.subrange(from as int, s@.len() as int), limit as nat),
        },
{
    let n = s.unicode_len();
    let ghost full = s@.subrange(from as int, n as int);
    if from == n {
        return None;
    }
    let mut v: u64 = 0;
    let mut i: usize = from;
    assert(s@.subrange(from as int, from as int) =~= Seq::<char>::empty());
    while i < n
        invariant
            from <= i <= n,
            n == s@.len(),
            full == s@.subrange(from as int, n as int),
            v <= limit,
            all_digits(s@.subrange(from as int, i as int)),
            v == decimal_value(s@.subrange(from as int, i as int)),
        decreases n - i,
    {
        let c = s.get_char(i);
        if !('0' <= c && c <= '9') {
            assert(full[i - from] == c);
            return None;
        }
        let d = (c as u32 - '0' as u32) as u64;
        let ghost next = s@.subrange(from as int, i + 1);
        assert(next.drop_last() =~= s@.subrange(from as int, i as int));
        assert(next.last() == c);
        assert(all_digits(next)) by {
            assert forall|k: int| 0 <= k < next.len() implies is_digit(#[trigger] next[k]) by {
                if k < next.len() - 1 {
                    assert(next[k] == s@.subrange(from as int, i as int)[k]);
                }
            }
        }
        assert(d <= 9);
        if d > limit || v > (limit - d) / 10 {
            proof {
                assert(decimal_value(next) > limit) by (nonlinear_arith)
                    requires
                        decimal_value(next) == v * 10 + d,
                        d > limit || v > (limit - d) / 10,
                        d <= 9,
                ;
                if all_digits(full) {
                    lemma_prefix_value_le(full, i + 1 - from);
                    assert(full.take(i + 1 - from) =~= next);
                }
            }
            return None;
        }
        proof {
            assert(v * 10 + d <= limit) by (nonlinear_arith)
                requires
                    v <= (limit - d) / 10,
                    d <= limit,
            ;
        }
        v = v * 10 + d;
        i = i + 1;
    }
    Some(v)
}

/// Reads an unsigned integer of at most `limit`, as std's `from_str` for
/// unsigned integers does.
pub fn parse_unsigned(s: &str, limit: u64) -> (r: Option<u64>)
    ensures
        match r {
            Some(v) => unsigned_value(s@, limit as nat) == Some(v as nat),
            None => unsigned_value(s@, limit as nat).is_none(),
        },
{
    let n = s.unicode_len();
    let from: usize = if n > 0 && s.get_char(0) == '+' {
        1
    } else {
        0
    };
    let r = digits_value(s, from, limit);
    proof {
        if from == 1 {
            assert(s@.subrange(1, n as int) =~= s@.drop_first());
        } else {
            assert(s@.subrange(0, n as int) =~= s@);
        }
    }
    r
}

/// Reads an `i64`, as `i64::from_str` does.
pub fn parse_i64(s: &str) -> (r: Option<i64>)
    ensures
        match r {
            Some(v) => i64_value(s@) == Some(v as int),
            None => i64_value(s@).is_none(),
        },
{
    let n = s.unicode_len();
    if n > 0 && s.get_char(0) == '-' {
        let r = digits_value(s, 1, 0x8000_0000_0000_0000);
        proof {
            assert(s@.subrange(1, n as int) =~= s@.drop_first());
        }
        match r {
            Some(m) => {
                if m == 0x8000_0000_0000_0000 {
                    Some(i64::MIN)
                } else {
                    Some(-(m as i64))
                }
            },
            None => None,
        }
    } else {
        match parse_unsigned(s, i64::MAX as u64) {
            Some(v) => Some(v as i64),
            None => None,
        }
    }
}

} // verus!
