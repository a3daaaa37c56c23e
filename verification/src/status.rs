//! The live-session status reply: its grammar, a parser, a renderer,
//! and the round-trip law tying the two together.
//!
//! A reply has the wording
//! `There are <current> of a max of <max> players online:` followed by
//! an optional space-separated list of player names.

use vstd::prelude::*;
use crate::error::ScrapeError;
use crate::text::{
    bytes_match_at, copy_range, dec_digits, dec_value, digit_run_end, is_digit,
    lemma_dec_digits_are_digits, lemma_dec_value_of_digits, lemma_digit_run_end_exact,
    lemma_digit_run_end_props, parse_u64_digits, push_bytes, push_decimal, scan_digit_run,
    views_of,
};

verus! {

/// The bytes of `"There are "`.
pub open spec fn lit_there_are() -> Seq<u8> {
    seq![84u8, 104u8, 101u8, 114u8, 101u8, 32u8, 97u8, 114u8, 101u8, 32u8]
}

/// The bytes of `" of a max of "`.
pub open spec fn lit_of_a_max() -> Seq<u8> {
    seq![32u8, 111u8, 102u8, 32u8, 97u8, 32u8, 109u8, 97u8, 120u8, 32u8, 111u8, 102u8, 32u8]
}

/// The bytes of `" players online:"`.
pub open spec fn lit_players_online() -> Seq<u8> {
    seq![
        32u8,
        112u8,
        108u8,
        97u8,
        121u8,
        101u8,
        114u8,
        115u8,
        32u8,
        111u8,
        110u8,
        108u8,
        105u8,
        110u8,
        101u8,
        58u8,
    ]
}

fn lit_there_are_vec() -> (v: Vec<u8>)
    ensures
        v@ == lit_there_are(),
{
    let v: Vec<u8> = vec![84u8, 104u8, 101u8, 114u8, 101u8, 32u8, 97u8, 114u8, 101u8, 32u8];
    assert(v@ =~= lit_there_are());
    v
}

fn lit_of_a_max_vec() -> (v: Vec<u8>)
    ensures
        v@ == lit_of_a_max(),
{
    let v: Vec<u8> = vec![
        32u8, 111u8, 102u8, 32u8, 97u8, 32u8, 109u8, 97u8, 120u8, 32u8, 111u8, 102u8, 32u8,
    ];
    assert(v@ =~= lit_of_a_max());
    v
}

fn lit_players_online_vec() -> (v: Vec<u8>)
    ensures
        v@ == lit_players_online(),
{
    let v: Vec<u8> = vec![
        32u8, 112u8, 108u8, 97u8, 121u8, 101u8, 114u8, 115u8, 32u8, 111u8, 110u8, 108u8, 105u8,
        110u8, 101u8, 58u8,
    ];
    assert(v@ =~= lit_players_online());
    v
}

/// The first position at or after `i` that holds a space (or the end).
pub open spec fn name_run_end(s: Seq<u8>, i: int) -> int
    decreases s.len() - i,
{
    if 0 <= i < s.len() && s[i] != 32 {
        name_run_end(s, i + 1)
    } else {
        i
    }
}

/// The space-separated pieces of `s[i ..]`, empty pieces dropped.
pub open spec fn split_names(s: Seq<u8>, i: int) -> Seq<Seq<u8>>
    decreases s.len() - i,
{
    if 0 <= i < s.len() {
        if s[i] == 32 {
            split_names(s, i + 1)
        } else {
            let j = name_run_end(s, i);
            if i < j <= s.len() {
                seq![s.subrange(i, j)] + split_names(s, j)
            } else {
                Seq::empty()
            }
        }
    } else {
        Seq::empty()
    }
}

/// What a well-formed status reply states: the two counts and the
/// listed player names.
pub ghost struct StatusView {
    pub current: nat,
    pub max: nat,
    pub players: Seq<Seq<u8>>,
}

/// The meaning of a status reply: `None` when the text does not match
/// the expected wording, the counts and names otherwise.
pub open spec fn status_parse(s: Seq<u8>) -> Option<StatusView> {
    let p0 = lit_there_are().len() as int;
    if s.len() >= p0 && s.subrange(0, p0) == lit_there_are() {
        let d1 = digit_run_end(s, p0);
        if d1 > p0 {
            let m0 = d1 + lit_of_a_max().len();
            if m0 <= s.len() && s.subrange(d1, m0) == lit_of_a_max() {
                let d2 = digit_run_end(s, m0);
                if d2 > m0 {
                    let t0 = d2 + lit_players_online().len();
                    if t0 <= s.len() && s.subrange(d2, t0) == lit_players_online() {
                        Some(
                            StatusView {
                                current: dec_value(s.subrange(p0, d1)),
                                max: dec_value(s.subrange(m0, d2)),
                                players: split_names(s, t0),
                            },
                        )
                    } else {
                        None
                    }
                } else {
                    None
                }
            } else {
                None
            }
        } else {
            None
        }
    } else {
        None
    }
}

/// Live player counts and names recovered from one status reply.
#[derive(Debug)]
pub struct SessionStatus {
    pub current: u64,
    pub max: u64,
    pub players: Vec<Vec<u8>>,
}

/// Finds the end of the name run starting at `i` (the next space).
fn scan_name_run(s: &Vec<u8>, i: usize) -> (r: usize)
    requires
        i <= s@.len(),
    ensures
        r == name_run_end(s@, i as int),
        i <= r <= s@.len(),
        i < s@.len() && s@[i as int] != 32 ==> r >= i + 1,
    decreases s@.len() - i,
{
    if i < s.len() && s[i] != 32 {
        scan_name_run(s, i + 1)
    } else {
        i
    }
}

/// Collects the space-separated names in `s[i ..]`.
fn collect_names(s: &Vec<u8>, i: usize) -> (r: Vec<Vec<u8>>)
    requires
        i <= s@.len(),
    ensures
        views_of(r@) == split_names(s@, i as int),
    decreases s@.len() - i,
{
    if i < s.len() {
        if s[i] == 32 {
            collect_names(s, i + 1)
        } else {
            let j = scan_name_run(s, i);
            let name = copy_range(s, i, j);
            let mut rest = collect_names(s, j);
            rest.insert(0, name);
            assert(views_of(rest@) =~= seq![s@.subrange(i as int, j as int)] + split_names(
                s@,
                j as int,
            ));
            rest
        }
    } else {
        let r: Vec<Vec<u8>> = Vec::new();
        assert(views_of(r@) =~= Seq::<Seq<u8>>::empty());
        r
    }
}

/// Reads a status reply.  Succeeds exactly on replies that match the
/// expected wording with counts that fit in a `u64`; every other reply
/// is `ResponseUnparseable`.
pub fn parse_status_reply(reply: &Vec<u8>) -> (r: Result<SessionStatus, ScrapeError>)
    ensures
        match r {
            Ok(st) => status_parse(reply@) == Some(
                StatusView {
                    current: st.current as nat,
                    max: st.max as nat,
                    players: views_of(st.players@),
                },
            ),
            Err(e) => e == ScrapeError::ResponseUnparseable && (status_parse(reply@) is None
                || (status_parse(reply@) matches Some(v) && (v.current > u64::MAX || v.max
                > u64::MAX))),
        },
{
    proof {
        assert(reply@.len() == reply.len());
    }
    let lit1 = lit_there_are_vec();
    if !bytes_match_at(reply, 0, &lit1) {
        return Err(ScrapeError::ResponseUnparseable);
    }
    let p0 = lit1.len();
    let d1 = scan_digit_run(reply, p0);
    if d1 == p0 {
        return Err(ScrapeError::ResponseUnparseable);
    }
    proof {
        lemma_digit_run_end_props(reply@, p0 as int);
    }
    let cur = match parse_u64_digits(reply, p0, d1) {
        Some(v) => v,
        None => {
            return Err(ScrapeError::ResponseUnparseable);
        },
    };
    let lit2 = lit_of_a_max_vec();
    if !bytes_match_at(reply, d1, &lit2) {
        return Err(ScrapeError::ResponseUnparseable);
    }
    let m0 = d1 + lit2.len();
    let d2 = scan_digit_run(reply, m0);
    if d2 == m0 {
        return Err(ScrapeError::ResponseUnparseable);
    }
    proof {
        lemma_digit_run_end_props(reply@, m0 as int);
    }
    let mx = match parse_u64_digits(reply, m0, d2) {
        Some(v) => v,
        None => {
            return Err(ScrapeError::ResponseUnparseable);
        },
    };
    let lit3 = lit_players_online_vec();
    if !bytes_match_at(reply, d2, &lit3) {
        return Err(ScrapeError::ResponseUnparseable);
    }
    let t0 = d2 + lit3.len();
    let players = collect_names(reply, t0);
    Ok(SessionStatus { current: cur, max: mx, players })
}

/// The text of each name preceded by one space.
pub open spec fn names_text(names: Seq<Seq<u8>>) -> Seq<u8>
    decreases names.len(),
{
    if names.len() == 0 {
        Seq::empty()
    } else {
        seq![32u8] + names[0] + names_text(names.skip(1))
    }
}

/// The status reply that states the given counts and names.
pub open spec fn status_text(current: nat, max: nat, names: Seq<Seq<u8>>) -> Seq<u8> {
    lit_there_are() + dec_digits(current) + lit_of_a_max() + dec_digits(max)
        + lit_players_online() + names_text(names)
}

fn push_names(out: &mut Vec<u8>, names: &Vec<Vec<u8>>, i: usize)
    requires
        i <= names@.len(),
    ensures
        final(out)@ == old(out)@ + names_text(views_of(names@).skip(i as int)),
    decreases names@.len() - i,
{
    if i < names.len() {
        out.push(32u8);
        push_bytes(out, &names[i]);
        push_names(out, names, i + 1);
        proof {
            let tail = views_of(names@).skip(i as int);
            assert(tail[0] == names@[i as int]@);
            assert(tail.skip(1) =~= views_of(names@).skip(i + 1));
            assert(old(out)@ + names_text(tail) =~= ((old(out)@ + seq![32u8]) + names@[i as int]@)
                + names_text(views_of(names@).skip(i + 1)));
        }
    } else {
        assert(views_of(names@).skip(i as int) =~= Seq::<Seq<u8>>::empty());
    }
}

/// Writes the status reply for the given counts and names.
pub fn render_status_reply(current: u64, max: u64, players: &Vec<Vec<u8>>) -> (r: Vec<u8>)
    ensures
        r@ == status_text(current as nat, max as nat, views_of(players@)),
{
    let mut out: Vec<u8> = Vec::new();
    let lit1 = lit_there_are_vec();
    push_bytes(&mut out, &lit1);
    push_decimal(&mut out, current);
    let lit2 = lit_of_a_max_vec();
    push_bytes(&mut out, &lit2);
    push_decimal(&mut out, max);
    let lit3 = lit_players_online_vec();
    push_bytes(&mut out, &lit3);
    push_names(&mut out, players, 0);
    proof {
        assert(views_of(players@).skip(0) =~= views_of(players@));
        assert(out@ =~= status_text(current as nat, max as nat, views_of(players@)));
    }
    out
}

proof fn lemma_name_run_end_exact(s: Seq<u8>, i: int, k: int)
    requires
        0 <= i <= k <= s.len(),
        forall|j: int| i <= j < k ==> #[trigger] s[j] != 32,
        k == s.len() || s[k] == 32,
    ensures
        name_run_end(s, i) == k,
    decreases k - i,
{
    if i < k {
        lemma_name_run_end_exact(s, i + 1, k);
    }
}

/// Splitting the rendered name list gives back the names themselves,
/// provided every name is non-empty and free of spaces.
proof fn lemma_split_names_of_text(s: Seq<u8>, i: int, names: Seq<Seq<u8>>)
    requires
        0 <= i <= s.len(),
        s.subrange(i, s.len() as int) == names_text(names),
        forall|k: int| 0 <= k < names.len() ==> (#[trigger] names[k]).len() >= 1,
        forall|k: int, j: int|
            0 <= k < names.len() && 0 <= j < names[k].len() ==> #[trigger] names[k][j] != 32,
    ensures
        split_names(s, i) == names,
    decreases names.len(),
{
    if names.len() == 0 {
        assert(s.subrange(i, s.len() as int).len() == 0);
        assert(split_names(s, i) =~= names);
    } else {
        let rest = names.skip(1);
        let tail = s.subrange(i, s.len() as int);
        assert(tail == seq![32u8] + names[0] + names_text(rest));
        assert(s[i] == tail[0]);
        assert(s[i] == 32);
        let j = i + 1 + names[0].len();
        assert forall|t: int| i + 1 <= t < j implies #[trigger] s[t] != 32 by {
            assert(s[t] == tail[t - i]);
            assert(tail[t - i] == names[0][t - i - 1]);
        }
        if rest.len() == 0 {
            assert(names_text(rest).len() == 0);
            assert(tail.len() == 1 + names[0].len());
            assert(j == s.len());
            lemma_name_run_end_exact(s, i + 1, j);
        } else {
            assert(names_text(rest) == seq![32u8] + rest[0] + names_text(rest.skip(1)));
            assert(s[j] == tail[j - i]);
            assert(tail[j - i] == names_text(rest)[0]);
            assert(s[j] == 32);
            lemma_name_run_end_exact(s, i + 1, j);
        }
        assert forall|t: int| 0 <= t < names[0].len() implies s.subrange(i + 1, j)[t]
            == names[0][t] by {
            assert(s.subrange(i + 1, j)[t] == s[i + 1 + t]);
            assert(s[i + 1 + t] == tail[1 + t]);
            assert((seq![32u8] + names[0])[1 + t] == names[0][t]);
        }
        assert(s.subrange(i + 1, j) =~= names[0]);
        assert forall|t: int| 0 <= t < names_text(rest).len() implies s.subrange(
            j,
            s.len() as int,
        )[t] == names_text(rest)[t] by {
            assert(s.subrange(j, s.len() as int)[t] == s[j + t]);
            assert(s[j + t] == tail[j - i + t]);
            assert(tail[1 + names[0].len() + t] == names_text(rest)[t]);
        }
        assert(s.subrange(j, s.len() as int) =~= names_text(rest));
        assert forall|k: int, t: int|
            0 <= k < rest.len() && 0 <= t < rest[k].len() implies #[trigger] rest[k][t] != 32 by {
            assert(rest[k] == names[k + 1]);
        }
        lemma_split_names_of_text(s, j, rest);
        assert(split_names(s, i) == split_names(s, i + 1));
        assert(split_names(s, i + 1) == seq![s.subrange(i + 1, j)] + split_names(s, j));
        assert(split_names(s, i) =~= names);
    }
}

/// Rendering a status reply and parsing it back recovers the same
/// counts and the same names, provided every name is non-empty and
/// free of spaces.
pub proof fn lemma_status_round_trip(current: u64, max: u64, names: Seq<Seq<u8>>)
    requires
        forall|k: int| 0 <= k < names.len() ==> (#[trigger] names[k]).len() >= 1,
        forall|k: int, j: int|
            0 <= k < names.len() && 0 <= j < names[k].len() ==> #[trigger] names[k][j] != 32,
    ensures
        status_parse(status_text(current as nat, max as nat, names)) == Some(
            StatusView { current: current as nat, max: max as nat, players: names },
        ),
{
    let s = status_text(current as nat, max as nat, names);
    let dig1 = dec_digits(current as nat);
    let dig2 = dec_digits(max as nat);
    let p0 = lit_there_are().len() as int;
    let d1 = p0 + dig1.len();
    let m0 = d1 + lit_of_a_max().len();
    let d2 = m0 + dig2.len();
    let t0 = d2 + lit_players_online().len();
    lemma_dec_digits_are_digits(current as nat);
    lemma_dec_digits_are_digits(max as nat);
    assert(s.subrange(0, p0) =~= lit_there_are());
    assert forall|t: int| p0 <= t < d1 implies is_digit(#[trigger] s[t]) by {
        assert(s[t] == dig1[t - p0]);
    }
    assert(s[d1] == lit_of_a_max()[0]);
    assert(!is_digit(s[d1]));
    lemma_digit_run_end_exact(s, p0, d1);
    assert(s.subrange(p0, d1) =~= dig1);
    lemma_dec_value_of_digits(current as nat);
    assert(s.subrange(d1, m0) =~= lit_of_a_max());
    assert forall|t: int| m0 <= t < d2 implies is_digit(#[trigger] s[t]) by {
        assert(s[t] == dig2[t - m0]);
    }
    assert(s[d2] == lit_players_online()[0]);
    assert(!is_digit(s[d2]));
    lemma_digit_run_end_exact(s, m0, d2);
    assert(s.subrange(m0, d2) =~= dig2);
    lemma_dec_value_of_digits(max as nat);
    assert(s.subrange(d2, t0) =~= lit_players_online());
    assert(s.subrange(t0, s.len() as int) =~= names_text(names));
    lemma_split_names_of_text(s, t0, names);
}

} // verus!
