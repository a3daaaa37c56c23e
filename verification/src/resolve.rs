//! Identifier resolution: reading a name-history lookup reply and
//! picking the display name with the most recent change timestamp.
//!
//! A reply is an array of objects; each object names one historical
//! display name under `name` and may date it under `changed_to_at`.
//! A missing timestamp counts as the minimum possible value, and the
//! first entry attaining the maximum wins.

use vstd::prelude::*;
use vstd::string::*;
use crate::error::ScrapeError;
use crate::json::{
    exec_skip_value, parse_string_at, read_string_at, read_u64_at, scan_ws, skip_value, ws_end,
    parse_number_at,
};
use crate::text::bytes_eq;

verus! {

/// The bytes of the `name` key.
pub open spec fn lit_name() -> Seq<u8> {
    ("name").spec_bytes()
}

/// The bytes of the `changed_to_at` key.
pub open spec fn lit_changed_to_at() -> Seq<u8> {
    ("changed_to_at").spec_bytes()
}

/// One member of a history entry, starting at its key's quote.
pub open spec fn parse_entry_step(
    s: Seq<u8>,
    i: int,
    nm: Option<Seq<u8>>,
    ts: Option<u64>,
) -> Option<((Option<Seq<u8>>, Option<u64>), int)> {
    match parse_string_at(s, i) {
        Some(p) => {
            let key = p.0;
            let j = p.1;
            if i < j <= s.len() {
                let c = ws_end(s, j);
                if j <= c < s.len() && s[c] == 58 {
                    let v = ws_end(s, c + 1);
                    if c + 1 <= v <= s.len() {
                        if key == lit_name() {
                            match parse_string_at(s, v) {
                                Some(q) => Some(((Some(q.0), ts), q.1)),
                                None => None,
                            }
                        } else if key == lit_changed_to_at() {
                            match parse_number_at(s, v) {
                                Some(q) => {
                                    if q.0 <= u64::MAX {
                                        Some(((nm, Some(q.0 as u64)), q.1))
                                    } else {
                                        None
                                    }
                                },
                                None => None,
                            }
                        } else {
                            match skip_value(s, v) {
                                Some(e) => Some(((nm, ts), e)),
                                None => None,
                            }
                        }
                    } else {
                        None
                    }
                } else {
                    None
                }
            } else {
                None
            }
        },
        None => None,
    }
}

/// The rest of a history entry, entered just after a member's value.
pub open spec fn parse_entry_more(
    s: Seq<u8>,
    i: int,
    nm: Option<Seq<u8>>,
    ts: Option<u64>,
) -> Option<((Option<Seq<u8>>, Option<u64>), int)>
    decreases s.len() - i,
{
    if 0 <= i <= s.len() {
        let j = ws_end(s, i);
        if i <= j < s.len() {
            if s[j] == 125 {
                Some(((nm, ts), j + 1))
            } else if s[j] == 44 {
                let k = ws_end(s, j + 1);
                if j + 1 <= k <= s.len() {
                    match parse_entry_step(s, k, nm, ts) {
                        Some(p) => {
                            if k < p.1 <= s.len() {
                                parse_entry_more(s, p.1, p.0.0, p.0.1)
                            } else {
                                None
                            }
                        },
                        None => None,
                    }
                } else {
                    None
                }
            } else {
                None
            }
        } else {
            None
        }
    } else {
        None
    }
}

/// A whole history entry, starting at its opening brace.  The entry
/// must carry a `name`.
pub open spec fn parse_entry_obj(s: Seq<u8>, i: int) -> Option<((Seq<u8>, Option<u64>), int)> {
    if 0 <= i < s.len() && s[i] == 123 {
        let p = {
            let j = ws_end(s, i + 1);
            if i + 1 <= j < s.len() {
                if s[j] == 125 {
                    Some(((None, None), j + 1))
                } else {
                    match parse_entry_step(s, j, None, None) {
                        Some(p) => {
                            if j < p.1 <= s.len() {
                                parse_entry_more(s, p.1, p.0.0, p.0.1)
                            } else {
                                None
                            }
                        },
                        None => None,
                    }
                }
            } else {
                None
            }
        };
        match p {
            Some(q) => match q.0.0 {
                Some(nm) => Some(((nm, q.0.1), q.1)),
                None => None,
            },
            None => None,
        }
    } else {
        None
    }
}

/// The rest of the history array, entered just after an entry.
pub open spec fn parse_history_rest(s: Seq<u8>, i: int) -> Option<
    (Seq<(Seq<u8>, Option<u64>)>, int),
>
    decreases s.len() - i,
{
    if 0 <= i <= s.len() {
        let j = ws_end(s, i);
        if i <= j < s.len() {
            if s[j] == 93 {
                Some((Seq::empty(), j + 1))
            } else if s[j] == 44 {
                let k = ws_end(s, j + 1);
                if j + 1 <= k <= s.len() {
                    match parse_entry_obj(s, k) {
                        Some(p) => {
                            if k < p.1 <= s.len() {
                                match parse_history_rest(s, p.1) {
                                    Some(q) => Some((seq![p.0] + q.0, q.1)),
                                    None => None,
                                }
                            } else {
                                None
                            }
                        },
                        None => None,
                    }
                } else {
                    None
                }
            } else {
                None
            }
        } else {
            None
        }
    } else {
        None
    }
}

/// The whole history array, entered just after the opening bracket.
pub open spec fn parse_history_first(s: Seq<u8>, i: int) -> Option<
    (Seq<(Seq<u8>, Option<u64>)>, int),
> {
    if 0 <= i <= s.len() {
        let j = ws_end(s, i);
        if i <= j < s.len() {
            if s[j] == 93 {
                Some((Seq::empty(), j + 1))
            } else {
                match parse_entry_obj(s, j) {
                    Some(p) => {
                        if j < p.1 <= s.len() {
                            match parse_history_rest(s, p.1) {
                                Some(q) => Some((seq![p.0] + q.0, q.1)),
                                None => None,
                            }
                        } else {
                            None
                        }
                    },
                    None => None,
                }
            }
        } else {
            None
        }
    } else {
        None
    }
}

/// The meaning of a lookup reply: its entries, or `None` when the
/// text is not a history array.
pub open spec fn history_parse(s: Seq<u8>) -> Option<Seq<(Seq<u8>, Option<u64>)>> {
    let i = ws_end(s, 0);
    if 0 <= i < s.len() && s[i] == 91 {
        match parse_history_first(s, i + 1) {
            Some(p) => {
                if 0 <= p.1 <= s.len() && ws_end(s, p.1) == s.len() {
                    Some(p.0)
                } else {
                    None
                }
            },
            None => None,
        }
    } else {
        None
    }
}

/// The view of a list of exec history entries.
pub open spec fn hist_view(s: Seq<(Vec<u8>, Option<u64>)>) -> Seq<(Seq<u8>, Option<u64>)> {
    s.map_values(|p: (Vec<u8>, Option<u64>)| (p.0@, p.1))
}

fn read_entry_step(s: &Vec<u8>, i: usize, nm: Option<Vec<u8>>, ts: Option<u64>) -> (r: Option<
    ((Option<Vec<u8>>, Option<u64>), usize),
>)
    requires
        i <= s@.len(),
    ensures
        match r {
            Some(p) => parse_entry_step(s@, i as int, name_opt_view(nm), ts) == Some(
                ((name_opt_view(p.0.0), p.0.1), p.1 as int),
            ) && i < p.1 <= s@.len(),
            None => parse_entry_step(s@, i as int, name_opt_view(nm), ts) is None,
        },
{
    match read_string_at(s, i) {
        Some(p) => {
            let (key, j) = p;
            let c = scan_ws(s, j);
            if c < s.len() && s[c] == 58 {
                let v = scan_ws(s, c + 1);
                let name_key = ("name").as_bytes_vec();
                let ts_key = ("changed_to_at").as_bytes_vec();
                if bytes_eq(&key, &name_key) {
                    match read_string_at(s, v) {
                        Some(q) => {
                            let (val, e) = q;
                            Some(((Some(val), ts), e))
                        },
                        None => None,
                    }
                } else if bytes_eq(&key, &ts_key) {
                    match read_u64_at(s, v) {
                        Some(q) => Some(((nm, Some(q.0)), q.1)),
                        None => None,
                    }
                } else {
                    match exec_skip_value(s, v) {
                        Some(e) => Some(((nm, ts), e)),
                        None => None,
                    }
                }
            } else {
                None
            }
        },
        None => None,
    }
}

/// The view of an optional name.
pub open spec fn name_opt_view(nm: Option<Vec<u8>>) -> Option<Seq<u8>> {
    match nm {
        Some(v) => Some(v@),
        None => None,
    }
}

fn read_entry_more(s: &Vec<u8>, i: usize, nm: Option<Vec<u8>>, ts: Option<u64>) -> (r: Option<
    ((Option<Vec<u8>>, Option<u64>), usize),
>)
    requires
        i <= s@.len(),
    ensures
        match r {
            Some(p) => parse_entry_more(s@, i as int, name_opt_view(nm), ts) == Some(
                ((name_opt_view(p.0.0), p.0.1), p.1 as int),
            ) && i < p.1 <= s@.len(),
            None => parse_entry_more(s@, i as int, name_opt_view(nm), ts) is None,
        },
    decreases s@.len() - i,
{
    let j = scan_ws(s, i);
    if j < s.len() {
        if s[j] == 125 {
            Some(((nm, ts), j + 1))
        } else if s[j] == 44 {
            let k = scan_ws(s, j + 1);
            match read_entry_step(s, k, nm, ts) {
                Some(p) => {
                    let ((nm2, ts2), e) = p;
                    read_entry_more(s, e, nm2, ts2)
                },
                None => None,
            }
        } else {
            None
        }
    } else {
        None
    }
}

fn read_entry_obj(s: &Vec<u8>, i: usize) -> (r: Option<((Vec<u8>, Option<u64>), usize)>)
    requires
        i <= s@.len(),
    ensures
        match r {
            Some(p) => parse_entry_obj(s@, i as int) == Some(((p.0.0@, p.0.1), p.1 as int)) && i
                < p.1 <= s@.len(),
            None => parse_entry_obj(s@, i as int) is None,
        },
{
    if i < s.len() && s[i] == 123 {
        let j = scan_ws(s, i + 1);
        let inner: Option<((Option<Vec<u8>>, Option<u64>), usize)> = if j < s.len() {
            if s[j] == 125 {
                Some(((None, None), j + 1))
            } else {
                match read_entry_step(s, j, None, None) {
                    Some(p) => {
                        let ((nm2, ts2), e) = p;
                        read_entry_more(s, e, nm2, ts2)
                    },
                    None => None,
                }
            }
        } else {
            None
        };
        match inner {
            Some(q) => {
                let ((nm, ts), e) = q;
                match nm {
                    Some(name) => Some(((name, ts), e)),
                    None => None,
                }
            },
            None => None,
        }
    } else {
        None
    }
}

fn read_history_rest(s: &Vec<u8>, i: usize) -> (r: Option<(Vec<(Vec<u8>, Option<u64>)>, usize)>)
    requires
        i <= s@.len(),
    ensures
        match r {
            Some(p) => parse_history_rest(s@, i as int) == Some((hist_view(p.0@), p.1 as int))
                && i < p.1 <= s@.len(),
            None => parse_history_rest(s@, i as int) is None,
        },
    decreases s@.len() - i,
{
    let j = scan_ws(s, i);
    if j < s.len() {
        if s[j] == 93 {
            let out: Vec<(Vec<u8>, Option<u64>)> = Vec::new();
            assert(hist_view(out@) =~= Seq::<(Seq<u8>, Option<u64>)>::empty());
            Some((out, j + 1))
        } else if s[j] == 44 {
            let k = scan_ws(s, j + 1);
            match read_entry_obj(s, k) {
                Some(p) => {
                    let (entry, e) = p;
                    match read_history_rest(s, e) {
                        Some(q) => {
                            let (mut rest, f) = q;
                            let ghost pre = rest@;
                            let ghost entry_g = entry;
                            rest.insert(0, entry);
                            assert(hist_view(rest@) =~= seq![(entry_g.0@, entry_g.1)] + hist_view(
                                pre,
                            ));
                            Some((rest, f))
                        },
                        None => None,
                    }
                },
                None => None,
            }
        } else {
            None
        }
    } else {
        None
    }
}

fn read_history_first(s: &Vec<u8>, i: usize) -> (r: Option<(Vec<(Vec<u8>, Option<u64>)>, usize)>)
    requires
        i <= s@.len(),
    ensures
        match r {
            Some(p) => parse_history_first(s@, i as int) == Some((hist_view(p.0@), p.1 as int))
                && i < p.1 <= s@.len(),
            None => parse_history_first(s@, i as int) is None,
        },
{
    let j = scan_ws(s, i);
    if j < s.len() {
        if s[j] == 93 {
            let out: Vec<(Vec<u8>, Option<u64>)> = Vec::new();
            assert(hist_view(out@) =~= Seq::<(Seq<u8>, Option<u64>)>::empty());
            Some((out, j + 1))
        } else {
            match read_entry_obj(s, j) {
                Some(p) => {
                    let (entry, e) = p;
                    match read_history_rest(s, e) {
                        Some(q) => {
                            let (mut rest, f) = q;
                            let ghost pre = rest@;
                            let ghost entry_g = entry;
                            rest.insert(0, entry);
                            assert(hist_view(rest@) =~= seq![(entry_g.0@, entry_g.1)] + hist_view(
                                pre,
                            ));
                            Some((rest, f))
                        },
                        None => None,
                    }
                },
                None => None,
            }
        }
    } else {
        None
    }
}

/// A history entry's effective timestamp: a missing one counts as the
/// minimum possible value.
pub open spec fn eff_ts(e: (Seq<u8>, Option<u64>)) -> nat {
    match e.1 {
        Some(t) => t as nat,
        None => 0,
    }
}

/// The index of the entry that resolution picks: the first one whose
/// effective timestamp attains the maximum.
pub open spec fn best_idx(entries: Seq<(Seq<u8>, Option<u64>)>) -> int
    decreases entries.len(),
{
    if entries.len() <= 1 {
        0
    } else {
        let b = best_idx(entries.drop_last());
        if eff_ts(entries.last()) > eff_ts(entries[b]) {
            entries.len() - 1
        } else {
            b
        }
    }
}

/// The picked entry carries the maximal effective timestamp, and every
/// earlier entry is strictly below it.
pub proof fn lemma_best_idx_props(entries: Seq<(Seq<u8>, Option<u64>)>)
    requires
        entries.len() > 0,
    ensures
        0 <= best_idx(entries) < entries.len(),
        forall|j: int|
            0 <= j < entries.len() ==> eff_ts(#[trigger] entries[j]) <= eff_ts(
                entries[best_idx(entries)],
            ),
        forall|j: int|
            0 <= j < best_idx(entries) ==> eff_ts(#[trigger] entries[j]) < eff_ts(
                entries[best_idx(entries)],
            ),
    decreases entries.len(),
{
    if entries.len() > 1 {
        let pre = entries.drop_last();
        lemma_best_idx_props(pre);
        let b0 = best_idx(pre);
        let b = best_idx(entries);
        assert(forall|j: int| 0 <= j < pre.len() ==> #[trigger] pre[j] == entries[j]);
        assert(entries.last() == entries[entries.len() - 1]);
        if eff_ts(entries.last()) > eff_ts(entries[b0]) {
            assert(b == entries.len() - 1);
            assert forall|j: int| 0 <= j < entries.len() implies eff_ts(#[trigger] entries[j])
                <= eff_ts(entries[b]) by {
                if j < entries.len() - 1 {
                    assert(eff_ts(pre[j]) <= eff_ts(pre[b0]));
                }
            }
            assert forall|j: int| 0 <= j < b implies eff_ts(#[trigger] entries[j]) < eff_ts(
                entries[b],
            ) by {
                assert(eff_ts(pre[j]) <= eff_ts(pre[b0]));
            }
        } else {
            assert(b == b0);
            assert forall|j: int| 0 <= j < entries.len() implies eff_ts(#[trigger] entries[j])
                <= eff_ts(entries[b]) by {
                if j < entries.len() - 1 {
                    assert(eff_ts(pre[j]) <= eff_ts(pre[b0]));
                }
            }
            assert forall|j: int| 0 <= j < b implies eff_ts(#[trigger] entries[j]) < eff_ts(
                entries[b],
            ) by {
                assert(eff_ts(pre[j]) < eff_ts(pre[b0]));
            }
        }
    }
}

/// When no entry carries a timestamp at all, the first entry wins.
pub proof fn lemma_best_idx_no_timestamps(entries: Seq<(Seq<u8>, Option<u64>)>)
    requires
        entries.len() > 0,
        forall|j: int| 0 <= j < entries.len() ==> (#[trigger] entries[j]).1 is None,
    ensures
        best_idx(entries) == 0,
    decreases entries.len(),
{
    if entries.len() > 1 {
        assert(forall|j: int|
            0 <= j < entries.len() - 1 ==> entries[j] == #[trigger] entries.drop_last()[j]);
        lemma_best_idx_no_timestamps(entries.drop_last());
    }
}

/// Resolves a display name from a lookup reply.  Succeeds exactly on
/// replies that parse to a non-empty history, and then returns the
/// first name with the most recent change timestamp; an empty history
/// is `LookupEmpty`, an unparseable reply `LookupMalformed`.
pub fn resolve_name(history: &Vec<u8>) -> (r: Result<Vec<u8>, ScrapeError>)
    ensures
        match r {
            Ok(name) => history_parse(history@) matches Some(entries) && entries.len() > 0
                && name@ == entries[best_idx(entries)].0,
            Err(e) => (e == ScrapeError::LookupMalformed && history_parse(history@) is None) || (
            e == ScrapeError::LookupEmpty && history_parse(history@) == Some(
                Seq::<(Seq<u8>, Option<u64>)>::empty(),
            )),
        },
{
    let i = scan_ws(history, 0);
    if i < history.len() && history[i] == 91 {
        match read_history_first(history, i + 1) {
            Some(p) => {
                let (mut entries, e) = p;
                let f = scan_ws(history, e);
                if f == history.len() {
                    if entries.len() == 0 {
                        assert(hist_view(entries@) =~= Seq::<(Seq<u8>, Option<u64>)>::empty());
                        Err(ScrapeError::LookupEmpty)
                    } else {
                        let ghost view = hist_view(entries@);
                        let mut b: usize = 0;
                        let mut k: usize = 1;
                        while k < entries.len()
                            invariant
                                entries@.len() == view.len(),
                                1 <= k <= view.len(),
                                0 <= b < k,
                                b as int == best_idx(view.take(k as int)),
                                forall|j: int|
                                    0 <= j < entries@.len() ==> (#[trigger] view[j]) == (
                                    entries@[j].0@,
                                    entries@[j].1,
                                ),
                            decreases view.len() - k,
                        {
                            let cur_ts: u64 = match entries[k].1 {
                                Some(t) => t,
                                None => 0,
                            };
                            let best_ts: u64 = match entries[b].1 {
                                Some(t) => t,
                                None => 0,
                            };
                            proof {
                                assert(view.take(k + 1).drop_last() =~= view.take(k as int));
                                assert(view.take(k + 1).last() == view[k as int]);
                                lemma_best_idx_props(view.take(k as int));
                            }
                            if cur_ts > best_ts {
                                b = k;
                            }
                            k = k + 1;
                        }
                        proof {
                            assert(view.take(view.len() as int) =~= view);
                        }
                        let (name, _ts) = entries.remove(b);
                        Ok(name)
                    }
                } else {
                    Err(ScrapeError::LookupMalformed)
                }
            },
            None => Err(ScrapeError::LookupMalformed),
        }
    } else {
        Err(ScrapeError::LookupMalformed)
    }
}

} // verus!
