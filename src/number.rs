use vstd::prelude::*;

verus! {

pub open spec fn is_digit(c: u8) -> bool {
    48 <= c && c <= 57
}

pub open spec fn all_digits(s: Seq<u8>) -> bool {
    forall|k: int| 0 <= k < s.len() ==> is_digit(#[trigger] s[k])
}

/// The decimal value of a string of digits.
pub open spec fn decimal_value(s: Seq<u8>) -> nat
    decreases s.len(),
{
    if s.len() == 0 {
        0
    } else {
        10 * decimal_value(s.drop_last()) + (s.last() - 48) as nat
    }
}

/// Reads the digits `s[start..end]` as a decimal number, if it is at most `limit`.
pub fn read_decimal(s: &[u8], start: usize, end: usize, limit: u64) -> (r: Option<u64>)
    requires
        start <= end <= s@.len(),
        all_digits(s@.subrange(start as int, end as int)),
    ensures
        r == (if decimal_value(s@.subrange(start as int, end as int)) <= limit {
            Some(decimal_value(s@.subrange(start as int, end as int)) as u64)
        } else {
            None
        }),
{
    let mut acc: u64 = 0;
    let mut too_big = false;
    let mut k: usize = start;
    while k < end
        invariant
            start <= k <= end <= s@.len(),
            all_digits(s@.subrange(start as int, end as int)),
            !too_big ==> acc as nat == decimal_value(s@.subrange(start as int, k as int)),
            !too_big ==> acc <= limit,
            too_big ==> decimal_value(s@.subrange(start as int, k as int)) > limit,
        decreases end - k,
    {
        let ghost prev = s@.subrange(start as int, k as int);
        let ghost next = s@.subrange(start as int, k + 1);
        assert(next.drop_last() =~= prev);
        assert(next.last() == s@.subrange(start as int, end as int)[k - start]);
        let d = (s[k] - 48) as u64;
        assert(decimal_value(next) == 10 * decimal_value(prev) + d);
        if !too_big {
            if d > limit || acc > (limit - d) / 10 {
                assert(10 * acc + d > limit) by (nonlinear_arith)
                    requires
                        acc > (limit - d) / 10 || d > limit,
                        d <= 9,
                ;
                too_big = true;
            } else {
                assert(10 * acc + d <= limit) by (nonlinear_arith)
                    requires
                        acc <= (limit - d) / 10,
                        d <= limit,
                ;
                acc = 10 * acc + d;
            }
        }
        k = k + 1;
    }
    if too_big {
        None
    } else {
        Some(acc)
    }
}

} // verus!
