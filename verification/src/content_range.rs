//! Parsing the `Content-Range` response header of the discovery request.
//!
//! The header has the shape `bytes <first>-<last>/<total>`, three decimal
//! numbers; `<total>` is the only way to learn the resource's length, since
//! the content-length header of a range response gives the range's length,
//! not the resource's.

use vstd::assert_seqs_equal;
use vstd::prelude::*;

verus! {

/// ASCII decimal digit.
pub open spec fn is_digit(b: u8) -> bool {
    48 <= b <= 57
}

/// The numeric value of one digit byte.
pub open spec fn digit_val(b: u8) -> int {
    b - 48
}

/// The value of a big-endian decimal digit string.
pub open spec fn dec_value(s: Seq<u8>) -> int
    decreases s.len(),
{
    if s.len() == 0 {
        0
    } else {
        dec_value(s.drop_last()) * 10 + digit_val(s.last())
    }
}

/// The index of the first non-digit byte at or after `from` (the sequence
/// length if digits run to the end).
pub open spec fn digit_run_end(s: Seq<u8>, from: int) -> int
    decreases s.len() - from,
{
    if from < 0 || from >= s.len() || !is_digit(s[from]) {
        from
    } else {
        digit_run_end(s, from + 1)
    }
}

/// The header starts with the unit: `bytes` and one space.
pub open spec fn prefix_ok(h: Seq<u8>) -> bool {
    h.len() >= 6 && h.subrange(0, 6) == seq![98u8, 121u8, 116u8, 101u8, 115u8, 32u8]
}

/// Where the dash after `<first>` must stand.
pub open spec fn dash_pos(h: Seq<u8>) -> int {
    digit_run_end(h, 6)
}

/// Where the slash after `<last>` must stand.
pub open spec fn slash_pos(h: Seq<u8>) -> int {
    digit_run_end(h, dash_pos(h) + 1)
}

/// Where the digits of `<total>` end.
pub open spec fn total_end(h: Seq<u8>) -> int {
    digit_run_end(h, slash_pos(h) + 1)
}

/// The whole header matches `bytes <first>-<last>/<total>`, each number at
/// least one digit, with nothing after.
pub open spec fn well_formed(h: Seq<u8>) -> bool {
    &&& prefix_ok(h)
    &&& 6 < dash_pos(h) < h.len() && h[dash_pos(h)] == 45
    &&& dash_pos(h) + 1 < slash_pos(h) < h.len() && h[slash_pos(h)] == 47
    &&& slash_pos(h) + 1 < total_end(h) && total_end(h) == h.len()
}

/// The value of `<first>`.
pub open spec fn first_value(h: Seq<u8>) -> int {
    dec_value(h.subrange(6, dash_pos(h)))
}

/// The value of `<last>`.
pub open spec fn last_value(h: Seq<u8>) -> int {
    dec_value(h.subrange(dash_pos(h) + 1, slash_pos(h)))
}

/// The value of `<total>`.
pub open spec fn total_value(h: Seq<u8>) -> int {
    dec_value(h.subrange(slash_pos(h) + 1, h.len() as int))
}

/// The three numbers of a parsed `Content-Range` header.
pub struct ContentRange {
    pub first: u64,
    pub last: u64,
    pub total: u64,
}

/// A digit string's value is never negative.
proof fn lemma_dec_value_nonneg(s: Seq<u8>)
    requires
        forall|m: int| 0 <= m < s.len() ==> is_digit(s[m]),
    ensures
        dec_value(s) >= 0,
    decreases s.len(),
{
    if s.len() > 0 {
        lemma_dec_value_nonneg(s.drop_last());
    }
}

/// Scan the digit run starting at `from`: return where it ends, and its value
/// when the run is non-empty and the value fits in a `u64`.
#[verifier::loop_isolation(false)]
fn scan_number(h: &Vec<u8>, from: usize) -> (r: (usize, Option<u64>))
    requires
        from <= h@.len(),
    ensures
        r.0 as int == digit_run_end(h@, from as int),
        from <= r.0 <= h@.len(),
        (r.1 is Some <==> r.0 > from && dec_value(h@.subrange(from as int, r.0 as int))
            <= u64::MAX),
        r.1 matches Some(v) ==> v as int == dec_value(h@.subrange(from as int, r.0 as int)),
{
    let len = h.len();
    let mut i: usize = from;
    let mut val: Option<u64> = None;
    while i < len && h[i] >= 48 && h[i] <= 57
        invariant
            from <= i <= len,
            forall|m: int| from <= m < i ==> is_digit(h@[m]),
            digit_run_end(h@, from as int) == digit_run_end(h@, i as int),
            val is Some <==> i > from && dec_value(h@.subrange(from as int, i as int)) <= u64::MAX,
            val matches Some(v) ==> v as int == dec_value(h@.subrange(from as int, i as int)),
        decreases len - i,
    {
        let d = (h[i] - 48) as u64;
        let ghost run = h@.subrange(from as int, i as int);
        let ghost run_next = h@.subrange(from as int, i as int + 1);
        proof {
            assert_seqs_equal!(run_next.drop_last() == run);
            assert(dec_value(run_next) == dec_value(run) * 10 + digit_val(h@[i as int]));
            lemma_dec_value_nonneg(run);
        }
        val = match val {
            Option::None => {
                if i == from {
                    Option::Some(d)
                } else {
                    proof {
                        assert(dec_value(run_next) > u64::MAX) by (nonlinear_arith)
                            requires
                                dec_value(run) > u64::MAX,
                                dec_value(run_next) == dec_value(run) * 10 + digit_val(h@[i as int]),
                                digit_val(h@[i as int]) >= 0,
                        ;
                    }
                    Option::None
                }
            },
            Option::Some(v) => {
                if v > (u64::MAX - d) / 10 {
                    proof {
                        assert(dec_value(run_next) > u64::MAX) by (nonlinear_arith)
                            requires
                                v as int > (u64::MAX - d) as int / 10,
                                v as int == dec_value(run),
                                d < 10,
                                dec_value(run_next) == dec_value(run) * 10 + d,
                        ;
                    }
                    Option::None
                } else {
                    proof {
                        assert(v as int * 10 + d <= u64::MAX) by (nonlinear_arith)
                            requires
                                v as int <= (u64::MAX - d) as int / 10,
                                d < 10,
                        ;
                    }
                    Option::Some(v * 10 + d)
                }
            },
        };
        i = i + 1;
    }
    (i, val)
}

/// Parse a `Content-Range` header.
///
/// Returns the three numbers exactly when the header matches
/// `bytes <first>-<last>/<total>` and each number fits in a `u64`; anything
/// else — a missing prefix, a missing number, trailing bytes, a number too
/// large — yields `None`.
pub fn parse_content_range(h: &Vec<u8>) -> (r: Option<ContentRange>)
    ensures
        r is Some <==> well_formed(h@) && first_value(h@) <= u64::MAX && last_value(h@)
            <= u64::MAX && total_value(h@) <= u64::MAX,
        r matches Some(cr) ==> {
            &&& cr.first as int == first_value(h@)
            &&& cr.last as int == last_value(h@)
            &&& cr.total as int == total_value(h@)
        },
{
    if h.len() < 6 {
        return Option::None;
    }
    if !(h[0] == 98 && h[1] == 121 && h[2] == 116 && h[3] == 101 && h[4] == 115 && h[5] == 32) {
        proof {
            assert(h@.subrange(0, 6)[0] == h@[0]);
            assert(h@.subrange(0, 6)[1] == h@[1]);
            assert(h@.subrange(0, 6)[2] == h@[2]);
            assert(h@.subrange(0, 6)[3] == h@[3]);
            assert(h@.subrange(0, 6)[4] == h@[4]);
            assert(h@.subrange(0, 6)[5] == h@[5]);
        }
        return Option::None;
    }
    proof {
        assert_seqs_equal!(h@.subrange(0, 6) == seq![98u8, 121u8, 116u8, 101u8, 115u8, 32u8]);
    }
    let (i, first) = scan_number(h, 6);
    if i == 6 || i == h.len() || h[i] != 45 {
        return Option::None;
    }
    let (j, last) = scan_number(h, i + 1);
    if j == i + 1 || j == h.len() || h[j] != 47 {
        return Option::None;
    }
    let (k, total) = scan_number(h, j + 1);
    if k == j + 1 || k != h.len() {
        return Option::None;
    }
    match (first, last, total) {
        (Option::Some(first), Option::Some(last), Option::Some(total)) => Option::Some(
            ContentRange { first, last, total },
        ),
        _ => Option::None,
    }
}

} // verus!
