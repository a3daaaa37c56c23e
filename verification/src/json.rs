//! The structured-record grammar shared by the player statistic files
//! and the name-history lookup replies.
//!
//! Values that are read and carried through — member keys that are
//! matched or passed on, display names, counts — use the subset those
//! sources actually emit: strings without escape sequences and
//! non-negative integer numbers.  Values that are only skipped
//! (unknown members, unknown array elements) cover all of JSON:
//! strings with escapes, signed numbers, fractions and exponents,
//! objects, arrays, `true`, `false` and `null`.  Anything outside
//! that fails the parse; a failed parse degrades exactly one player,
//! never the scrape.
//!
//! Every parsing function here is total and position-based: it takes
//! the byte string and a start position and yields the parsed meaning
//! together with the position one past what it consumed, or `None`
//! when the text does not match.

use vstd::prelude::*;
use crate::text::{dec_value, digit_run_end, is_digit, lemma_digit_run_end_props, scan_digit_run};

verus! {

/// The insignificant whitespace bytes of the grammar.
pub open spec fn is_ws(b: u8) -> bool {
    b == 32 || b == 9 || b == 10 || b == 13
}

/// The first position at or after `i` that holds no whitespace.
pub open spec fn ws_end(s: Seq<u8>, i: int) -> int
    decreases s.len() - i,
{
    if 0 <= i < s.len() && is_ws(s[i]) {
        ws_end(s, i + 1)
    } else {
        i
    }
}

/// Skips whitespace.
pub fn scan_ws(s: &Vec<u8>, i: usize) -> (r: usize)
    requires
        i <= s@.len(),
    ensures
        r == ws_end(s@, i as int),
        i <= r <= s@.len(),
    decreases s@.len() - i,
{
    if i < s.len() && (s[i] == 32 || s[i] == 9 || s[i] == 10 || s[i] == 13) {
        scan_ws(s, i + 1)
    } else {
        i
    }
}

/// True of the bytes allowed inside a string: anything printable
/// except the quote and the backslash (escapes are outside the
/// subset).
pub open spec fn is_str_byte(b: u8) -> bool {
    b != 34 && b != 92 && b >= 32
}

/// The first position at or after `i` where a string body ends.
pub open spec fn str_end(s: Seq<u8>, i: int) -> int
    decreases s.len() - i,
{
    if 0 <= i < s.len() && is_str_byte(s[i]) {
        str_end(s, i + 1)
    } else {
        i
    }
}

/// Scans a string body.
pub fn scan_str(s: &Vec<u8>, i: usize) -> (r: usize)
    requires
        i <= s@.len(),
    ensures
        r == str_end(s@, i as int),
        i <= r <= s@.len(),
    decreases s@.len() - i,
{
    if i < s.len() && s[i] != 34 && s[i] != 92 && s[i] >= 32 {
        scan_str(s, i + 1)
    } else {
        i
    }
}

/// A quoted string starting exactly at `i`: its contents and the
/// position after the closing quote.
pub open spec fn parse_string_at(s: Seq<u8>, i: int) -> Option<(Seq<u8>, int)> {
    if 0 <= i < s.len() && s[i] == 34 {
        let j = str_end(s, i + 1);
        if j < s.len() && s[j] == 34 {
            Some((s.subrange(i + 1, j), j + 1))
        } else {
            None
        }
    } else {
        None
    }
}

/// Reads a quoted string starting at `i`.
pub fn read_string_at(s: &Vec<u8>, i: usize) -> (r: Option<(Vec<u8>, usize)>)
    requires
        i <= s@.len(),
    ensures
        match r {
            Some(p) => parse_string_at(s@, i as int) == Some((p.0@, p.1 as int)) && i < p.1
                <= s@.len(),
            None => parse_string_at(s@, i as int) is None,
        },
{
    if i < s.len() && s[i] == 34 {
        let j = scan_str(s, i + 1);
        if j < s.len() && s[j] == 34 {
            let body = crate::text::copy_range(s, i + 1, j);
            Some((body, j + 1))
        } else {
            None
        }
    } else {
        None
    }
}

/// A run of digits starting exactly at `i`: its value and the position
/// after it.  The value is unbounded here; users of the grammar bound
/// it where they store it.
pub open spec fn parse_number_at(s: Seq<u8>, i: int) -> Option<(nat, int)> {
    if 0 <= i <= s.len() {
        let j = digit_run_end(s, i);
        if j > i {
            Some((dec_value(s.subrange(i, j)), j))
        } else {
            None
        }
    } else {
        None
    }
}

/// Reads a number starting at `i`; `None` also when the value does not
/// fit in a `u64`.
pub fn read_u64_at(s: &Vec<u8>, i: usize) -> (r: Option<(u64, usize)>)
    requires
        i <= s@.len(),
    ensures
        match r {
            Some(p) => parse_number_at(s@, i as int) == Some((p.0 as nat, p.1 as int)) && i < p.1
                <= s@.len(),
            None => parse_number_at(s@, i as int) is None || (parse_number_at(s@, i as int)
                matches Some(q) && q.0 > u64::MAX),
        },
{
    let j = scan_digit_run(s, i);
    if j == i {
        return None;
    }
    proof {
        lemma_digit_run_end_props(s@, i as int);
    }
    match crate::text::parse_u64_digits(s, i, j) {
        Some(v) => Some((v, j)),
        None => None,
    }
}

/// The bytes of `true`.
pub open spec fn lit_true() -> Seq<u8> {
    seq![116u8, 114u8, 117u8, 101u8]
}

/// The bytes of `false`.
pub open spec fn lit_false() -> Seq<u8> {
    seq![102u8, 97u8, 108u8, 115u8, 101u8]
}

/// The bytes of `null`.
pub open spec fn lit_null() -> Seq<u8> {
    seq![110u8, 117u8, 108u8, 108u8]
}

/// The position after the body of a skipped string, entered just
/// after the opening quote: a backslash protects the byte after it,
/// an unescaped quote ends the string, raw control bytes are refused.
pub open spec fn skip_string_body(s: Seq<u8>, i: int) -> Option<int>
    decreases s.len() - i,
{
    if 0 <= i < s.len() {
        if s[i] == 34 {
            Some(i + 1)
        } else if s[i] == 92 {
            if i + 2 <= s.len() {
                skip_string_body(s, i + 2)
            } else {
                None
            }
        } else if s[i] >= 32 {
            skip_string_body(s, i + 1)
        } else {
            None
        }
    } else {
        None
    }
}

/// The position after a skipped string starting exactly at `i`.
pub open spec fn skip_string_at(s: Seq<u8>, i: int) -> Option<int> {
    if 0 <= i < s.len() && s[i] == 34 {
        skip_string_body(s, i + 1)
    } else {
        None
    }
}

/// The position after a skipped number starting exactly at `i`: an
/// optional minus sign, digits, an optional fraction, an optional
/// exponent.
pub open spec fn skip_number_at(s: Seq<u8>, i: int) -> Option<int> {
    if 0 <= i <= s.len() {
        let j = if i < s.len() && s[i] == 45 {
            i + 1
        } else {
            i
        };
        let d1 = digit_run_end(s, j);
        if d1 == j {
            None
        } else {
            let d2 = if d1 < s.len() && s[d1] == 46 {
                digit_run_end(s, d1 + 1)
            } else {
                d1
            };
            if d1 < s.len() && s[d1] == 46 && d2 == d1 + 1 {
                None
            } else {
                if d2 < s.len() && (s[d2] == 101 || s[d2] == 69) {
                    let x = if d2 + 1 < s.len() && (s[d2 + 1] == 43 || s[d2 + 1] == 45) {
                        d2 + 2
                    } else {
                        d2 + 1
                    };
                    let f = digit_run_end(s, x);
                    if f == x {
                        None
                    } else {
                        Some(f)
                    }
                } else {
                    Some(d2)
                }
            }
        }
    } else {
        None
    }
}

/// The position after the value starting at `i`, or `None` when no
/// JSON value starts there.
pub open spec fn skip_value(s: Seq<u8>, i: int) -> Option<int>
    decreases s.len() - i, 0int,
{
    if !(0 <= i < s.len()) {
        None
    } else if s[i] == 34 {
        skip_string_at(s, i)
    } else if is_digit(s[i]) || s[i] == 45 {
        skip_number_at(s, i)
    } else if s[i] == 116 {
        if i + 4 <= s.len() && s.subrange(i, i + 4) == lit_true() {
            Some(i + 4)
        } else {
            None
        }
    } else if s[i] == 102 {
        if i + 5 <= s.len() && s.subrange(i, i + 5) == lit_false() {
            Some(i + 5)
        } else {
            None
        }
    } else if s[i] == 110 {
        if i + 4 <= s.len() && s.subrange(i, i + 4) == lit_null() {
            Some(i + 4)
        } else {
            None
        }
    } else if s[i] == 123 {
        skip_members_first(s, i + 1)
    } else if s[i] == 91 {
        skip_elements_first(s, i + 1)
    } else {
        None
    }
}

/// The position after one skipped `key: value` member starting
/// exactly at the key's quote.
pub open spec fn skip_member(s: Seq<u8>, i: int) -> Option<int>
    decreases s.len() - i, 1int,
{
    match skip_string_at(s, i) {
        Some(j) => {
            if i < j <= s.len() {
                let c = ws_end(s, j);
                if j <= c < s.len() && s[c] == 58 {
                    let v = ws_end(s, c + 1);
                    if c + 1 <= v <= s.len() {
                        skip_value(s, v)
                    } else {
                        None
                    }
                } else {
                    None
                }
            } else {
                None
            }
        },
        None => None,
    }
}

/// The position after an object body, entered just after the opening
/// brace.
pub open spec fn skip_members_first(s: Seq<u8>, i: int) -> Option<int>
    decreases s.len() - i, 2int,
{
    if 0 <= i <= s.len() {
        let j = ws_end(s, i);
        if i <= j < s.len() {
            if s[j] == 125 {
                Some(j + 1)
            } else {
                match skip_member(s, j) {
                    Some(e) => {
                        if j < e <= s.len() {
                            skip_members_rest(s, e)
                        } else {
                            None
                        }
                    },
                    None => None,
                }
            }
        } else {
            None
        }
    } else {
        None
    }
}

/// The position after the rest of an object body, entered just after a
/// member's value.
pub open spec fn skip_members_rest(s: Seq<u8>, i: int) -> Option<int>
    decreases s.len() - i, 2int,
{
    if 0 <= i <= s.len() {
        let j = ws_end(s, i);
        if i <= j < s.len() {
            if s[j] == 125 {
                Some(j + 1)
            } else if s[j] == 44 {
                let k = ws_end(s, j + 1);
                if j + 1 <= k <= s.len() {
                    match skip_member(s, k) {
                        Some(e) => {
                            if k < e <= s.len() {
                                skip_members_rest(s, e)
                            } else {
                                None
                            }
                        },
                        None => None,
                    }
                } else {
                    None
                }
            } else {
                None
            }
        } else {
            None
        }
    } else {
        None
    }
}

/// The position after an array body, entered just after the opening
/// bracket.
pub open spec fn skip_elements_first(s: Seq<u8>, i: int) -> Option<int>
    decreases s.len() - i, 2int,
{
    if 0 <= i <= s.len() {
        let j = ws_end(s, i);
        if i <= j < s.len() {
            if s[j] == 93 {
                Some(j + 1)
            } else {
                match skip_value(s, j) {
                    Some(e) => {
                        if j < e <= s.len() {
                            skip_elements_rest(s, e)
                        } else {
                            None
                        }
                    },
                    None => None,
                }
            }
        } else {
            None
        }
    } else {
        None
    }
}

/// The position after the rest of an array body, entered just after an
/// element.
pub open spec fn skip_elements_rest(s: Seq<u8>, i: int) -> Option<int>
    decreases s.len() - i, 2int,
{
    if 0 <= i <= s.len() {
        let j = ws_end(s, i);
        if i <= j < s.len() {
            if s[j] == 93 {
                Some(j + 1)
            } else if s[j] == 44 {
                let k = ws_end(s, j + 1);
                if j + 1 <= k <= s.len() {
                    match skip_value(s, k) {
                        Some(e) => {
                            if k < e <= s.len() {
                                skip_elements_rest(s, e)
                            } else {
                                None
                            }
                        },
                        None => None,
                    }
                } else {
                    None
                }
            } else {
                None
            }
        } else {
            None
        }
    } else {
        None
    }
}

fn lit_true_vec() -> (v: Vec<u8>)
    ensures
        v@ == lit_true(),
{
    let v: Vec<u8> = vec![116u8, 114u8, 117u8, 101u8];
    assert(v@ =~= lit_true());
    v
}

fn lit_false_vec() -> (v: Vec<u8>)
    ensures
        v@ == lit_false(),
{
    let v: Vec<u8> = vec![102u8, 97u8, 108u8, 115u8, 101u8];
    assert(v@ =~= lit_false());
    v
}

fn lit_null_vec() -> (v: Vec<u8>)
    ensures
        v@ == lit_null(),
{
    let v: Vec<u8> = vec![110u8, 117u8, 108u8, 108u8];
    assert(v@ =~= lit_null());
    v
}

/// Skips a string body, entered just after the opening quote.
fn exec_skip_string_body(s: &Vec<u8>, i: usize) -> (r: Option<usize>)
    requires
        i <= s@.len(),
    ensures
        match r {
            Some(e) => skip_string_body(s@, i as int) == Some(e as int) && i < e <= s@.len(),
            None => skip_string_body(s@, i as int) is None,
        },
    decreases s@.len() - i,
{
    if i < s.len() {
        if s[i] == 34 {
            Some(i + 1)
        } else if s[i] == 92 {
            if s.len() - i >= 2 {
                exec_skip_string_body(s, i + 2)
            } else {
                None
            }
        } else if s[i] >= 32 {
            exec_skip_string_body(s, i + 1)
        } else {
            None
        }
    } else {
        None
    }
}

/// Skips a whole string starting at `i`.
fn exec_skip_string_at(s: &Vec<u8>, i: usize) -> (r: Option<usize>)
    requires
        i <= s@.len(),
    ensures
        match r {
            Some(e) => skip_string_at(s@, i as int) == Some(e as int) && i < e <= s@.len(),
            None => skip_string_at(s@, i as int) is None,
        },
{
    if i < s.len() && s[i] == 34 {
        exec_skip_string_body(s, i + 1)
    } else {
        None
    }
}

/// Skips a number starting at `i`.
fn exec_skip_number_at(s: &Vec<u8>, i: usize) -> (r: Option<usize>)
    requires
        i <= s@.len(),
    ensures
        match r {
            Some(e) => skip_number_at(s@, i as int) == Some(e as int) && i < e <= s@.len(),
            None => skip_number_at(s@, i as int) is None,
        },
{
    proof {
        assert(s@.len() == s.len());
    }
    let j = if i < s.len() && s[i] == 45 {
        i + 1
    } else {
        i
    };
    let d1 = scan_digit_run(s, j);
    if d1 == j {
        return None;
    }
    let d2 = if d1 < s.len() && s[d1] == 46 {
        scan_digit_run(s, d1 + 1)
    } else {
        d1
    };
    if d1 < s.len() && s[d1] == 46 && d2 == d1 + 1 {
        return None;
    }
    if d2 < s.len() && (s[d2] == 101 || s[d2] == 69) {
        let x = if d2 + 1 < s.len() && (s[d2 + 1] == 43 || s[d2 + 1] == 45) {
            d2 + 2
        } else {
            d2 + 1
        };
        let f = scan_digit_run(s, x);
        if f == x {
            None
        } else {
            Some(f)
        }
    } else {
        Some(d2)
    }
}

/// Skips the value starting at `i`.
pub fn exec_skip_value(s: &Vec<u8>, i: usize) -> (r: Option<usize>)
    requires
        i <= s@.len(),
    ensures
        match r {
            Some(e) => skip_value(s@, i as int) == Some(e as int) && i < e <= s@.len(),
            None => skip_value(s@, i as int) is None,
        },
    decreases s@.len() - i, 0int,
{
    proof {
        assert(s@.len() == s.len());
    }
    if i >= s.len() {
        None
    } else if s[i] == 34 {
        exec_skip_string_at(s, i)
    } else if (48 <= s[i] && s[i] <= 57) || s[i] == 45 {
        exec_skip_number_at(s, i)
    } else if s[i] == 116 {
        let lit = lit_true_vec();
        if crate::text::bytes_match_at(s, i, &lit) {
            Some(i + 4)
        } else {
            None
        }
    } else if s[i] == 102 {
        let lit = lit_false_vec();
        if crate::text::bytes_match_at(s, i, &lit) {
            Some(i + 5)
        } else {
            None
        }
    } else if s[i] == 110 {
        let lit = lit_null_vec();
        if crate::text::bytes_match_at(s, i, &lit) {
            Some(i + 4)
        } else {
            None
        }
    } else if s[i] == 123 {
        exec_skip_members_first(s, i + 1)
    } else if s[i] == 91 {
        exec_skip_elements_first(s, i + 1)
    } else {
        None
    }
}

/// Skips one `key: value` member starting at the key's quote.
pub fn exec_skip_member(s: &Vec<u8>, i: usize) -> (r: Option<usize>)
    requires
        i <= s@.len(),
    ensures
        match r {
            Some(e) => skip_member(s@, i as int) == Some(e as int) && i < e <= s@.len(),
            None => skip_member(s@, i as int) is None,
        },
    decreases s@.len() - i, 1int,
{
    match exec_skip_string_at(s, i) {
        Some(j) => {
            let c = scan_ws(s, j);
            if c < s.len() && s[c] == 58 {
                let v = scan_ws(s, c + 1);
                exec_skip_value(s, v)
            } else {
                None
            }
        },
        None => None,
    }
}

/// Skips an object body, entered just after the opening brace.
pub fn exec_skip_members_first(s: &Vec<u8>, i: usize) -> (r: Option<usize>)
    requires
        i <= s@.len(),
    ensures
        match r {
            Some(e) => skip_members_first(s@, i as int) == Some(e as int) && i < e <= s@.len(),
            None => skip_members_first(s@, i as int) is None,
        },
    decreases s@.len() - i, 2int,
{
    let j = scan_ws(s, i);
    if j < s.len() {
        if s[j] == 125 {
            Some(j + 1)
        } else {
            match exec_skip_member(s, j) {
                Some(e) => exec_skip_members_rest(s, e),
                None => None,
            }
        }
    } else {
        None
    }
}

/// Skips the rest of an object body, entered just after a member's
/// value.
pub fn exec_skip_members_rest(s: &Vec<u8>, i: usize) -> (r: Option<usize>)
    requires
        i <= s@.len(),
    ensures
        match r {
            Some(e) => skip_members_rest(s@, i as int) == Some(e as int) && i < e <= s@.len(),
            None => skip_members_rest(s@, i as int) is None,
        },
    decreases s@.len() - i, 2int,
{
    let j = scan_ws(s, i);
    if j < s.len() {
        if s[j] == 125 {
            Some(j + 1)
        } else if s[j] == 44 {
            let k = scan_ws(s, j + 1);
            match exec_skip_member(s, k) {
                Some(e) => exec_skip_members_rest(s, e),
                None => None,
            }
        } else {
            None
        }
    } else {
        None
    }
}

/// Skips an array body, entered just after the opening bracket.
pub fn exec_skip_elements_first(s: &Vec<u8>, i: usize) -> (r: Option<usize>)
    requires
        i <= s@.len(),
    ensures
        match r {
            Some(e) => skip_elements_first(s@, i as int) == Some(e as int) && i < e <= s@.len(),
            None => skip_elements_first(s@, i as int) is None,
        },
    decreases s@.len() - i, 2int,
{
    let j = scan_ws(s, i);
    if j < s.len() {
        if s[j] == 93 {
            Some(j + 1)
        } else {
            match exec_skip_value(s, j) {
                Some(e) => exec_skip_elements_rest(s, e),
                None => None,
            }
        }
    } else {
        None
    }
}

/// Skips the rest of an array body, entered just after an element.
pub fn exec_skip_elements_rest(s: &Vec<u8>, i: usize) -> (r: Option<usize>)
    requires
        i <= s@.len(),
    ensures
        match r {
            Some(e) => skip_elements_rest(s@, i as int) == Some(e as int) && i < e <= s@.len(),
            None => skip_elements_rest(s@, i as int) is None,
        },
    decreases s@.len() - i, 2int,
{
    let j = scan_ws(s, i);
    if j < s.len() {
        if s[j] == 93 {
            Some(j + 1)
        } else if s[j] == 44 {
            let k = scan_ws(s, j + 1);
            match exec_skip_value(s, k) {
                Some(e) => exec_skip_elements_rest(s, e),
                None => None,
            }
        } else {
            None
        }
    } else {
        None
    }
}

} // verus!
