use vstd::prelude::*;

verus! {

/// ASCII whitespace, as trimmed from the ends of an input line.
pub open spec fn is_space(b: u8) -> bool {
    b == 32 || (9 <= b && b <= 13)
}

/// An ASCII decimal digit.
pub open spec fn is_digit(b: u8) -> bool {
    48 <= b && b <= 57
}

pub open spec fn all_digits(s: Seq<u8>) -> bool {
    forall|i: int| 0 <= i < s.len() ==> is_digit(#[trigger] s[i])
}

/// The bytes with leading whitespace removed.
pub open spec fn trim_front(s: Seq<u8>) -> Seq<u8>
    decreases s.len(),
{
    if s.len() > 0 && is_space(s[0]) {
        trim_front(s.drop_first())
    } else {
        s
    }
}

/// The bytes with trailing whitespace removed.
pub open spec fn trim_back(s: Seq<u8>) -> Seq<u8>
    decreases s.len(),
{
    if s.len() > 0 && is_space(s[s.len() - 1]) {
        trim_back(s.drop_last())
    } else {
        s
    }
}

/// The bytes with whitespace removed from both ends.
pub open spec fn trimmed(s: Seq<u8>) -> Seq<u8> {
    trim_back(trim_front(s))
}

/// The value of a digit string, most significant digit first.
pub open spec fn digits_val(s: Seq<u8>) -> int
    decreases s.len(),
{
    if s.len() == 0 {
        0
    } else {
        digits_val(s.drop_last()) * 10 + (s[s.len() - 1] - 48)
    }
}

/// The signed 32-bit number denoted by `t`: an optional sign followed by at
/// least one digit, with a value in range.  Anything else — an empty string,
/// a stray character, a value out of range — denotes zero, which is how the
/// runtime absorbs a malformed line.
pub open spec fn parse_i32_or_zero(t: Seq<u8>) -> int {
    if t.len() > 0 && (t[0] == 43 || t[0] == 45) {
        if t.len() > 1 && all_digits(t.drop_first()) {
            let v = digits_val(t.drop_first());
            if t[0] == 45 {
                if v <= 0x8000_0000 { -v } else { 0 }
            } else {
                if v <= 0x7fff_ffff { v } else { 0 }
            }
        } else {
            0
        }
    } else if t.len() > 0 && all_digits(t) {
        if digits_val(t) <= 0x7fff_ffff { digits_val(t) } else { 0 }
    } else {
        0
    }
}

/// The number a whole input line stands for: its trimmed content parsed as a
/// signed 32-bit decimal, with malformed content standing for zero.
pub open spec fn line_value(s: Seq<u8>) -> int {
    parse_i32_or_zero(trimmed(s))
}

proof fn lemma_digits_val_nonneg(s: Seq<u8>)
    requires
        all_digits(s),
    ensures
        digits_val(s) >= 0,
    decreases s.len(),
{
    if s.len() > 0 {
        assert(all_digits(s.drop_last())) by {
            assert(forall|i: int| 0 <= i < s.len() - 1 ==> is_digit(#[trigger] s.drop_last()[i]));
        }
        lemma_digits_val_nonneg(s.drop_last());
    }
}

fn space(b: u8) -> (r: bool)
    ensures
        r == is_space(b),
{
    b == 32 || (9 <= b && b <= 13)
}

/// Parse an input line as the runtime's input future does: trim ASCII
/// whitespace from both ends, then read an optional sign and a run of
/// decimal digits.  A malformed or out-of-range line parses as zero.
pub fn parse_line(v: &Vec<u8>) -> (n: i32)
    ensures
        n as int == line_value(v@),
{
    let len = v.len();
    let ghost s = v@;

    let mut lo: usize = 0;
    proof {
        assert(s.subrange(0, len as int) =~= s);
    }
    while lo < len && space(v[lo])
        invariant
            lo <= len,
            len == s.len(),
            s == v@,
            trim_front(s) == trim_front(s.subrange(lo as int, len as int)),
        decreases len - lo,
    {
        proof {
            let cur = s.subrange(lo as int, len as int);
            assert(cur.len() > 0 && is_space(cur[0]));
            assert(cur.drop_first() =~= s.subrange(lo as int + 1, len as int));
        }
        lo = lo + 1;
    }
    proof {
        let cur = s.subrange(lo as int, len as int);
        if lo < len {
            assert(!is_space(cur[0]));
        }
        assert(trim_front(s) == cur);
    }

    let mut hi: usize = len;
    while hi > lo && space(v[hi - 1])
        invariant
            lo <= hi <= len,
            len == s.len(),
            s == v@,
            trim_front(s) == s.subrange(lo as int, len as int),
            trim_back(s.subrange(lo as int, len as int)) == trim_back(
                s.subrange(lo as int, hi as int),
            ),
        decreases hi,
    {
        proof {
            let cur = s.subrange(lo as int, hi as int);
            assert(cur.len() > 0 && is_space(cur[cur.len() - 1]));
            assert(cur.drop_last() =~= s.subrange(lo as int, hi as int - 1));
        }
        hi = hi - 1;
    }
    let ghost t = s.subrange(lo as int, hi as int);
    proof {
        if hi > lo {
            assert(!is_space(t[t.len() - 1]));
        }
        assert(trimmed(s) == t);
    }

    if lo == hi {
        return 0;
    }

    let first = v[lo];
    let has_sign = first == 43 || first == 45;
    let start: usize = if has_sign { lo + 1 } else { lo };
    if start == hi {
        // A sign with no digits after it.
        return 0;
    }
    let ghost digits = s.subrange(start as int, hi as int);
    proof {
        if has_sign {
            assert(t.drop_first() =~= digits);
        } else {
            assert(t =~= digits);
        }
    }

    let mut acc: u64 = 0;
    let mut i: usize = start;
    while i < hi
        invariant
            start <= i <= hi <= len,
            lo < hi,
            len == s.len(),
            s == v@,
            t == s.subrange(lo as int, hi as int),
            trimmed(s) == t,
            digits == s.subrange(start as int, hi as int),
            first == t[0],
            has_sign == (first == 43 || first == 45),
            start == if has_sign { lo + 1 } else { lo as int },
            has_sign ==> digits == t.drop_first(),
            !has_sign ==> digits == t,
            all_digits(s.subrange(start as int, i as int)),
            digits_val(s.subrange(start as int, i as int)) <= 0x8000_0000 ==> acc == digits_val(
                s.subrange(start as int, i as int),
            ),
            digits_val(s.subrange(start as int, i as int)) > 0x8000_0000 ==> acc > 0x8000_0000,
            acc <= 0x8000_0000 * 10 + 9,
        decreases hi - i,
    {
        let b = v[i];
        if !(48 <= b && b <= 57) {
            // A stray character: the whole line stands for zero.
            proof {
                assert(!is_digit(digits[i - start]));
                assert(!all_digits(digits));
            }
            return 0;
        }
        proof {
            let pre = s.subrange(start as int, i as int);
            let ext = s.subrange(start as int, i as int + 1);
            assert(ext.drop_last() =~= pre);
            assert(ext[ext.len() - 1] == b);
            assert(digits_val(ext) == digits_val(pre) * 10 + (b - 48));
            assert(all_digits(ext)) by {
                assert(forall|j: int| 0 <= j < pre.len() ==> is_digit(#[trigger] ext[j]));
            }
            lemma_digits_val_nonneg(pre);
        }
        if acc <= 0x8000_0000 {
            acc = acc * 10 + ((b - 48) as u64);
        }
        i = i + 1;
    }
    proof {
        assert(s.subrange(start as int, i as int) == digits);
        lemma_digits_val_nonneg(digits);
    }

    if first == 45 {
        if acc <= 0x8000_0000 {
            (-(acc as i64)) as i32
        } else {
            0
        }
    } else {
        if acc <= 0x7fff_ffff {
            acc as i32
        } else {
            0
        }
    }
}

/// The value the input future reports for a line: the parsed number plus ten.
pub fn input_result(line: &Vec<u8>) -> (r: i64)
    ensures
        r == line_value(line@) + 10,
{
    let n = parse_line(line);
    (n as i64) + 10
}

} // verus!
