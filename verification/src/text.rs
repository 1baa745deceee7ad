use vstd::prelude::*;

verus! {

/// ASCII whitespace: space, tab, line feed, vertical tab, form feed,
/// carriage return.
pub open spec fn is_ascii_space(b: u8) -> bool {
    b == 32 || (9 <= b <= 13)
}

/// The sequence with its leading ASCII whitespace removed.
pub open spec fn spec_trim_start(s: Seq<u8>) -> Seq<u8>
    decreases s.len(),
{
    if s.len() > 0 && is_ascii_space(s[0]) {
        spec_trim_start(s.skip(1))
    } else {
        s
    }
}

/// The sequence with its trailing ASCII whitespace removed.
pub open spec fn spec_trim_end(s: Seq<u8>) -> Seq<u8>
    decreases s.len(),
{
    if s.len() > 0 && is_ascii_space(s.last()) {
        spec_trim_end(s.drop_last())
    } else {
        s
    }
}

/// The sequence with whitespace removed from both ends.
pub open spec fn spec_trim(s: Seq<u8>) -> Seq<u8> {
    spec_trim_end(spec_trim_start(s))
}

proof fn lemma_trim_start_is_skip(s: Seq<u8>, lo: int)
    requires
        0 <= lo <= s.len(),
        forall|k: int| 0 <= k < lo ==> is_ascii_space(s[k]),
        lo < s.len() ==> !is_ascii_space(s[lo]),
    ensures
        spec_trim_start(s) =~= s.skip(lo),
    decreases lo,
{
    if lo == 0 {
        assert(s.skip(0) =~= s);
    } else {
        lemma_trim_start_is_skip(s.skip(1), lo - 1);
        assert(s.skip(1).skip(lo - 1) =~= s.skip(lo));
    }
}

proof fn lemma_trim_end_is_take(s: Seq<u8>, hi: int)
    requires
        0 <= hi <= s.len(),
        forall|k: int| hi <= k < s.len() ==> is_ascii_space(s[k]),
        hi > 0 ==> !is_ascii_space(s[hi - 1]),
    ensures
        spec_trim_end(s) =~= s.take(hi),
    decreases s.len() - hi,
{
    if hi == s.len() {
        assert(s.take(hi) =~= s);
    } else {
        lemma_trim_end_is_take(s.drop_last(), hi);
        assert(s.drop_last() =~= s.take(s.len() - 1));
        assert(s.take(s.len() - 1).take(hi) =~= s.take(hi));
    }
}

/// Removes ASCII whitespace from both ends of a byte string.
pub fn trim(s: &[u8]) -> (r: &[u8])
    ensures
        r@ =~= spec_trim(s@),
{
    let mut lo: usize = 0;
    while lo < s.len() && (s[lo] == 32 || (9 <= s[lo] && s[lo] <= 13))
        invariant
            0 <= lo <= s@.len(),
            forall|k: int| 0 <= k < lo ==> is_ascii_space(s@[k]),
        decreases s@.len() - lo,
    {
        lo += 1;
    }
    let mut hi: usize = s.len();
    while hi > lo && (s[hi - 1] == 32 || (9 <= s[hi - 1] && s[hi - 1] <= 13))
        invariant
            lo <= hi <= s@.len(),
            forall|k: int| 0 <= k < lo ==> is_ascii_space(s@[k]),
            forall|k: int| hi <= k < s@.len() ==> is_ascii_space(s@[k]),
        decreases hi,
    {
        hi -= 1;
    }
    proof {
        lemma_trim_start_is_skip(s@, lo as int);
        lemma_trim_end_is_take(s@.skip(lo as int), hi - lo);
        assert(s@.skip(lo as int).take(hi - lo) =~= s@.subrange(lo as int, hi as int));
    }
    vstd::slice::slice_subrange(s, lo, hi)
}

/// Index of the first occurrence of `b` in `s` at or after `from`;
/// `s.len()` when `b` does not occur there.
pub open spec fn spec_find_byte(s: Seq<u8>, b: u8, from: int) -> int
    decreases s.len() - from,
{
    if from < 0 || from >= s.len() {
        s.len() as int
    } else if s[from] == b {
        from
    } else {
        spec_find_byte(s, b, from + 1)
    }
}

proof fn lemma_find_byte_at(s: Seq<u8>, b: u8, from: int, at: int)
    requires
        0 <= from <= at <= s.len(),
        forall|k: int| from <= k < at ==> s[k] != b,
        at < s.len() ==> s[at] == b,
    ensures
        spec_find_byte(s, b, from) == if at < s.len() {
            at
        } else {
            s.len() as int
        },
    decreases at - from,
{
    if from < at {
        lemma_find_byte_at(s, b, from + 1, at);
    }
}

/// Finds the first occurrence of byte `b` in `s`, returning `s.len()` when
/// there is none.
pub fn find_byte(s: &[u8], b: u8) -> (r: usize)
    ensures
        r == spec_find_byte(s@, b, 0),
        r <= s@.len(),
{
    let mut i: usize = 0;
    while i < s.len()
        invariant
            0 <= i <= s@.len(),
            forall|k: int| 0 <= k < i ==> s@[k] != b,
        decreases s@.len() - i,
    {
        if s[i] == b {
            proof {
                lemma_find_byte_at(s@, b, 0, i as int);
            }
            return i;
        }
        i += 1;
    }
    proof {
        lemma_find_byte_at(s@, b, 0, s@.len() as int);
    }
    s.len()
}

/// Hexadecimal digits, upper or lower case.
pub open spec fn is_hex_digit(b: u8) -> bool {
    (48 <= b <= 57) || (97 <= b <= 102) || (65 <= b <= 70)
}

/// Numeric value of one hexadecimal digit.
pub open spec fn spec_hex_digit_value(b: u8) -> nat {
    if 48 <= b <= 57 {
        (b - 48) as nat
    } else if 97 <= b <= 102 {
        (b - 87) as nat
    } else if 65 <= b <= 70 {
        (b - 55) as nat
    } else {
        0
    }
}

/// Value of a sequence of hexadecimal digits, most significant first.
pub open spec fn spec_hex_value(d: Seq<u8>) -> nat
    decreases d.len(),
{
    if d.len() == 0 {
        0
    } else {
        16 * spec_hex_value(d.drop_last()) + spec_hex_digit_value(d.last())
    }
}

/// A byte string is a well-formed hexadecimal `u64`: nonempty, hex digits
/// only, and in range.
pub open spec fn spec_hex_ok(d: Seq<u8>) -> bool {
    d.len() > 0 && (forall|k: int| 0 <= k < d.len() ==> is_hex_digit(d[k])) && spec_hex_value(d)
        <= u64::MAX
}

/// Decimal digits.
pub open spec fn is_dec_digit(b: u8) -> bool {
    48 <= b <= 57
}

/// Value of a sequence of decimal digits, most significant first.
pub open spec fn spec_dec_value(d: Seq<u8>) -> nat
    decreases d.len(),
{
    if d.len() == 0 {
        0
    } else {
        10 * spec_dec_value(d.drop_last()) + (d.last() - 48) as nat
    }
}

proof fn lemma_hex_value_grows(d: Seq<u8>, i: int, j: int)
    requires
        0 <= i <= j <= d.len(),
    ensures
        spec_hex_value(d.take(i)) <= spec_hex_value(d.take(j)),
    decreases j - i,
{
    if i < j {
        lemma_hex_value_grows(d, i, j - 1);
        assert(d.take(j).drop_last() =~= d.take(j - 1));
    }
}

proof fn lemma_dec_value_grows(d: Seq<u8>, i: int, j: int)
    requires
        0 <= i <= j <= d.len(),
    ensures
        spec_dec_value(d.take(i)) <= spec_dec_value(d.take(j)),
    decreases j - i,
{
    if i < j {
        lemma_dec_value_grows(d, i, j - 1);
        assert(d.take(j).drop_last() =~= d.take(j - 1));
    }
}

/// Parses a nonempty string of hexadecimal digits into a `u64`. Rejects
/// exactly the inputs that are empty, hold a non-digit, or exceed the
/// `u64` range.
pub fn parse_hex_u64(d: &[u8]) -> (r: Option<u64>)
    ensures
        r is Some <==> spec_hex_ok(d@),
        r matches Some(v) ==> v == spec_hex_value(d@),
{
    if d.len() == 0 {
        return None;
    }
    let mut acc: u64 = 0;
    let mut i: usize = 0;
    while i < d.len()
        invariant
            0 <= i <= d@.len(),
            forall|k: int| 0 <= k < i ==> is_hex_digit(d@[k]),
            acc == spec_hex_value(d@.take(i as int)),
        decreases d@.len() - i,
    {
        let b = d[i];
        let v: u8 = if 48 <= b && b <= 57 {
            b - 48
        } else if 97 <= b && b <= 102 {
            b - 87
        } else if 65 <= b && b <= 70 {
            b - 55
        } else {
            return None;
        };
        proof {
            assert(d@.take(i + 1).drop_last() =~= d@.take(i as int));
            assert(d@.take(i + 1).last() == d@[i as int]);
        }
        if acc >= 0x1000_0000_0000_0000 {
            proof {
                lemma_hex_value_grows(d@, i + 1, d@.len() as int);
                assert(d@.take(d@.len() as int) =~= d@);
            }
            return None;
        }
        acc = acc * 16 + (v as u64);
        i += 1;
    }
    proof {
        assert(d@.take(d@.len() as int) =~= d@);
    }
    Some(acc)
}

/// The value of a digit string under an already-read sign, when it is
/// nonempty, all decimal digits, and in the `i64` range.
pub open spec fn spec_signed_digits_value(d: Seq<u8>, neg: bool) -> Option<i64> {
    if !(d.len() > 0 && forall|k: int| 0 <= k < d.len() ==> is_dec_digit(d[k])) {
        None
    } else if neg {
        if spec_dec_value(d) <= 0x8000_0000_0000_0000 {
            Some((-(spec_dec_value(d) as int)) as i64)
        } else {
            None
        }
    } else {
        if spec_dec_value(d) <= 0x7fff_ffff_ffff_ffff {
            Some(spec_dec_value(d) as i64)
        } else {
            None
        }
    }
}

/// A signed decimal string as `i64::from_str_radix` reads it: an optional
/// sign, then at least one decimal digit, within the `i64` range.
pub open spec fn spec_parse_i64(v: Seq<u8>) -> Option<i64> {
    let signed = v.len() > 0 && (v[0] == 45 || v[0] == 43);
    let neg = v.len() > 0 && v[0] == 45;
    spec_signed_digits_value(
        if signed {
            v.skip(1)
        } else {
            v
        },
        neg,
    )
}

/// Parses a signed decimal `i64`, accepting exactly the strings that
/// `spec_parse_i64` accepts.
pub fn parse_dec_i64(v: &[u8]) -> (r: Option<i64>)
    ensures
        r == spec_parse_i64(v@),
{
    let signed = v.len() > 0 && (v[0] == 45 || v[0] == 43);
    let neg = v.len() > 0 && v[0] == 45;
    let start: usize = if signed {
        1
    } else {
        0
    };
    let d = vstd::slice::slice_subrange(v, start, v.len());
    proof {
        if signed {
            assert(d@ =~= v@.skip(1));
        } else {
            assert(d@ =~= v@);
        }
    }
    if d.len() == 0 {
        return None;
    }
    let limit_rem: u8 = if neg {
        8
    } else {
        7
    };
    let mut acc: u64 = 0;
    let mut i: usize = 0;
    while i < d.len()
        invariant
            signed == (v@.len() > 0 && (v@[0] == 45 || v@[0] == 43)),
            neg == (v@.len() > 0 && v@[0] == 45),
            d@ == (if signed {
                v@.skip(1)
            } else {
                v@
            }),
            d@.len() > 0,
            0 <= i <= d@.len(),
            forall|k: int| 0 <= k < i ==> is_dec_digit(d@[k]),
            acc == spec_dec_value(d@.take(i as int)),
            neg ==> acc <= 0x8000_0000_0000_0000,
            !neg ==> acc <= 0x7fff_ffff_ffff_ffff,
            limit_rem == if neg {
                8u8
            } else {
                7u8
            },
        decreases d@.len() - i,
    {
        let b = d[i];
        if !(48 <= b && b <= 57) {
            proof {
                assert(!(forall|k: int| 0 <= k < d@.len() ==> is_dec_digit(d@[k]))) by {
                    assert(!is_dec_digit(d@[i as int]));
                }
                assert(spec_parse_i64(v@) == spec_signed_digits_value(d@, neg));
            }
            return None;
        }
        let dig: u8 = b - 48;
        proof {
            assert(d@.take(i + 1).drop_last() =~= d@.take(i as int));
            assert(d@.take(i + 1).last() == d@[i as int]);
        }
        if acc > 922_337_203_685_477_580 || (acc == 922_337_203_685_477_580 && dig > limit_rem) {
            proof {
                assert(spec_dec_value(d@.take(i + 1)) == 10 * (acc as nat) + (dig as nat));
                lemma_dec_value_grows(d@, i + 1, d@.len() as int);
                assert(d@.take(d@.len() as int) =~= d@);
                assert(spec_dec_value(d@) >= 10 * (acc as nat) + (dig as nat));
                assert(10 * (acc as nat) + (dig as nat) > 0x8000_0000_0000_0000 || (!neg && 10 * (
                acc as nat) + (dig as nat) > 0x7fff_ffff_ffff_ffff));
                assert(neg ==> spec_dec_value(d@) > 0x8000_0000_0000_0000);
                assert(!neg ==> spec_dec_value(d@) > 0x7fff_ffff_ffff_ffff);
                assert(spec_parse_i64(v@) == spec_signed_digits_value(d@, neg));
            }
            return None;
        }
        acc = acc * 10 + (dig as u64);
        i += 1;
    }
    proof {
        assert(d@.take(d@.len() as int) =~= d@);
        assert(spec_parse_i64(v@) == spec_signed_digits_value(d@, neg));
    }
    if neg {
        if acc == 0x8000_0000_0000_0000 {
            Some(i64::MIN)
        } else {
            Some(-(acc as i64))
        }
    } else {
        Some(acc as i64)
    }
}

} // verus!
