//! Per-player statistic records: the nine categories and the decoder
//! that reads a record file into structured category mappings.
//!
//! A record is an object with a `stats` member (an object that maps
//! category keys to mappings from item/entity/statistic keys to
//! non-negative counts) and, optionally, a `DataVersion` member (a
//! schema tag that is carried through when present, never
//! interpreted).  Unknown members anywhere are skipped; any subset of
//! the nine categories may be absent.

use vstd::prelude::*;
use vstd::string::*;
use crate::error::ScrapeError;
use crate::json::{
    exec_skip_value, parse_number_at, parse_string_at, read_string_at, read_u64_at, scan_ws,
    skip_value, ws_end,
};
use crate::text::bytes_eq;

verus! {

/// The nine fixed per-player statistic groupings, in their fixed
/// enumeration order.
#[derive(Debug, Clone, Copy, PartialEq, Eq, Structural)]
pub enum StatCategory {
    Dropped,
    Crafted,
    Killed,
    Broken,
    Used,
    Mined,
    Custom,
    PickedUp,
    KilledBy,
}

/// The record key that announces a category.
pub open spec fn cat_key(c: StatCategory) -> Seq<u8> {
    match c {
        StatCategory::Dropped => ("minecraft:dropped").spec_bytes(),
        StatCategory::Crafted => ("minecraft:crafted").spec_bytes(),
        StatCategory::Killed => ("minecraft:killed").spec_bytes(),
        StatCategory::Broken => ("minecraft:broken").spec_bytes(),
        StatCategory::Used => ("minecraft:used").spec_bytes(),
        StatCategory::Mined => ("minecraft:mined").spec_bytes(),
        StatCategory::Custom => ("minecraft:custom").spec_bytes(),
        StatCategory::PickedUp => ("minecraft:picked_up").spec_bytes(),
        StatCategory::KilledBy => ("minecraft:killed_by").spec_bytes(),
    }
}

/// The record key of a category, as bytes.
pub fn cat_key_vec(c: StatCategory) -> (v: Vec<u8>)
    ensures
        v@ == cat_key(c),
{
    match c {
        StatCategory::Dropped => ("minecraft:dropped").as_bytes_vec(),
        StatCategory::Crafted => ("minecraft:crafted").as_bytes_vec(),
        StatCategory::Killed => ("minecraft:killed").as_bytes_vec(),
        StatCategory::Broken => ("minecraft:broken").as_bytes_vec(),
        StatCategory::Used => ("minecraft:used").as_bytes_vec(),
        StatCategory::Mined => ("minecraft:mined").as_bytes_vec(),
        StatCategory::Custom => ("minecraft:custom").as_bytes_vec(),
        StatCategory::PickedUp => ("minecraft:picked_up").as_bytes_vec(),
        StatCategory::KilledBy => ("minecraft:killed_by").as_bytes_vec(),
    }
}

/// The category a record key announces, if any.
pub open spec fn cat_of_key(key: Seq<u8>) -> Option<StatCategory> {
    if key == cat_key(StatCategory::Dropped) {
        Some(StatCategory::Dropped)
    } else if key == cat_key(StatCategory::Crafted) {
        Some(StatCategory::Crafted)
    } else if key == cat_key(StatCategory::Killed) {
        Some(StatCategory::Killed)
    } else if key == cat_key(StatCategory::Broken) {
        Some(StatCategory::Broken)
    } else if key == cat_key(StatCategory::Used) {
        Some(StatCategory::Used)
    } else if key == cat_key(StatCategory::Mined) {
        Some(StatCategory::Mined)
    } else if key == cat_key(StatCategory::Custom) {
        Some(StatCategory::Custom)
    } else if key == cat_key(StatCategory::PickedUp) {
        Some(StatCategory::PickedUp)
    } else if key == cat_key(StatCategory::KilledBy) {
        Some(StatCategory::KilledBy)
    } else {
        None
    }
}

/// Looks a record key up among the nine categories.
pub fn lookup_category(key: &Vec<u8>) -> (r: Option<StatCategory>)
    ensures
        r == cat_of_key(key@),
{
    let k0 = cat_key_vec(StatCategory::Dropped);
    if bytes_eq(key, &k0) {
        return Some(StatCategory::Dropped);
    }
    let k1 = cat_key_vec(StatCategory::Crafted);
    if bytes_eq(key, &k1) {
        return Some(StatCategory::Crafted);
    }
    let k2 = cat_key_vec(StatCategory::Killed);
    if bytes_eq(key, &k2) {
        return Some(StatCategory::Killed);
    }
    let k3 = cat_key_vec(StatCategory::Broken);
    if bytes_eq(key, &k3) {
        return Some(StatCategory::Broken);
    }
    let k4 = cat_key_vec(StatCategory::Used);
    if bytes_eq(key, &k4) {
        return Some(StatCategory::Used);
    }
    let k5 = cat_key_vec(StatCategory::Mined);
    if bytes_eq(key, &k5) {
        return Some(StatCategory::Mined);
    }
    let k6 = cat_key_vec(StatCategory::Custom);
    if bytes_eq(key, &k6) {
        return Some(StatCategory::Custom);
    }
    let k7 = cat_key_vec(StatCategory::PickedUp);
    if bytes_eq(key, &k7) {
        return Some(StatCategory::PickedUp);
    }
    let k8 = cat_key_vec(StatCategory::KilledBy);
    if bytes_eq(key, &k8) {
        return Some(StatCategory::KilledBy);
    }
    None
}

/// The view of a list of key/count entries.
pub open spec fn entries_view(s: Seq<(Vec<u8>, u64)>) -> Seq<(Seq<u8>, u64)> {
    s.map_values(|p: (Vec<u8>, u64)| (p.0@, p.1))
}

/// One populated mapping per present category; an absent category is
/// "no data", not an empty mapping.
#[derive(Debug)]
pub struct CategoryTable {
    pub dropped: Option<Vec<(Vec<u8>, u64)>>,
    pub crafted: Option<Vec<(Vec<u8>, u64)>>,
    pub killed: Option<Vec<(Vec<u8>, u64)>>,
    pub broken: Option<Vec<(Vec<u8>, u64)>>,
    pub used: Option<Vec<(Vec<u8>, u64)>>,
    pub mined: Option<Vec<(Vec<u8>, u64)>>,
    pub custom: Option<Vec<(Vec<u8>, u64)>>,
    pub picked_up: Option<Vec<(Vec<u8>, u64)>>,
    pub killed_by: Option<Vec<(Vec<u8>, u64)>>,
}

/// The field of `t` that belongs to category `c`.
pub open spec fn table_field(t: CategoryTable, c: StatCategory) -> Option<Vec<(Vec<u8>, u64)>> {
    match c {
        StatCategory::Dropped => t.dropped,
        StatCategory::Crafted => t.crafted,
        StatCategory::Killed => t.killed,
        StatCategory::Broken => t.broken,
        StatCategory::Used => t.used,
        StatCategory::Mined => t.mined,
        StatCategory::Custom => t.custom,
        StatCategory::PickedUp => t.picked_up,
        StatCategory::KilledBy => t.killed_by,
    }
}

/// A table as a mapping: present categories to their entry lists.
pub open spec fn table_view(t: CategoryTable) -> Map<StatCategory, Seq<(Seq<u8>, u64)>> {
    Map::new(
        |c: StatCategory| table_field(t, c) is Some,
        |c: StatCategory|
            match table_field(t, c) {
                Some(v) => entries_view(v@),
                None => Seq::empty(),
            },
    )
}

/// A table with every category absent.
pub fn empty_table() -> (t: CategoryTable)
    ensures
        table_view(t) == Map::<StatCategory, Seq<(Seq<u8>, u64)>>::empty(),
{
    let t = CategoryTable {
        dropped: None,
        crafted: None,
        killed: None,
        broken: None,
        used: None,
        mined: None,
        custom: None,
        picked_up: None,
        killed_by: None,
    };
    proof {
        assert(table_view(t) =~= Map::<StatCategory, Seq<(Seq<u8>, u64)>>::empty());
    }
    t
}

/// Stores `entries` as the mapping of category `c`.
fn set_category(t: CategoryTable, c: StatCategory, entries: Vec<(Vec<u8>, u64)>) -> (r:
    CategoryTable)
    ensures
        table_view(r) == table_view(t).insert(c, entries_view(entries@)),
{
    let ghost old_t = t;
    let mut t = t;
    match c {
        StatCategory::Dropped => {
            t.dropped = Some(entries);
        },
        StatCategory::Crafted => {
            t.crafted = Some(entries);
        },
        StatCategory::Killed => {
            t.killed = Some(entries);
        },
        StatCategory::Broken => {
            t.broken = Some(entries);
        },
        StatCategory::Used => {
            t.used = Some(entries);
        },
        StatCategory::Mined => {
            t.mined = Some(entries);
        },
        StatCategory::Custom => {
            t.custom = Some(entries);
        },
        StatCategory::PickedUp => {
            t.picked_up = Some(entries);
        },
        StatCategory::KilledBy => {
            t.killed_by = Some(entries);
        },
    }
    proof {
        assert(table_view(t) =~= table_view(old_t).insert(c, entries_view(entries@)));
    }
    t
}

/// One `key: count` member of a category mapping, starting at the
/// key's quote.  The key must be non-empty; the count must fit in a
/// `u64`.
pub open spec fn parse_count_member(s: Seq<u8>, i: int) -> Option<((Seq<u8>, u64), int)> {
    match parse_string_at(s, i) {
        Some(p) => {
            let key = p.0;
            let j = p.1;
            if key.len() >= 1 && i < j <= s.len() {
                let c = ws_end(s, j);
                if j <= c < s.len() && s[c] == 58 {
                    let v = ws_end(s, c + 1);
                    if c + 1 <= v <= s.len() {
                        match parse_number_at(s, v) {
                            Some(q) => {
                                if q.0 <= u64::MAX {
                                    Some(((key, q.0 as u64), q.1))
                                } else {
                                    None
                                }
                            },
                            None => None,
                        }
                    } else {
                        None
                    }
                } else {
                    None
                }
            } else {
                None
            }
        },
        None => None,
    }
}

/// The rest of a category mapping, entered just after a member's
/// count: either the closing brace or a comma and further members.
pub open spec fn parse_count_rest(s: Seq<u8>, i: int) -> Option<(Seq<(Seq<u8>, u64)>, int)>
    decreases s.len() - i,
{
    if 0 <= i <= s.len() {
        let j = ws_end(s, i);
        if i <= j < s.len() {
            if s[j] == 125 {
                Some((Seq::empty(), j + 1))
            } else if s[j] == 44 {
                let k = ws_end(s, j + 1);
                if j + 1 <= k <= s.len() {
                    match parse_count_member(s, k) {
                        Some(p) => {
                            if k < p.1 <= s.len() {
                                match parse_count_rest(s, p.1) {
                                    Some(q) => Some((seq![p.0] + q.0, q.1)),
                                    None => None,
                                }
                            } else {
                                None
                            }
                        },
                        None => None,
                    }
                } else {
                    None
                }
            } else {
                None
            }
        } else {
            None
        }
    } else {
        None
    }
}

/// A whole category mapping, entered just after its opening brace.
pub open spec fn parse_count_first(s: Seq<u8>, i: int) -> Option<(Seq<(Seq<u8>, u64)>, int)> {
    if 0 <= i <= s.len() {
        let j = ws_end(s, i);
        if i <= j < s.len() {
            if s[j] == 125 {
                Some((Seq::empty(), j + 1))
            } else {
                match parse_count_member(s, j) {
                    Some(p) => {
                        if j < p.1 <= s.len() {
                            match parse_count_rest(s, p.1) {
                                Some(q) => Some((seq![p.0] + q.0, q.1)),
                                None => None,
                            }
                        } else {
                            None
                        }
                    },
                    None => None,
                }
            }
        } else {
            None
        }
    } else {
        None
    }
}

fn read_count_member(s: &Vec<u8>, i: usize) -> (r: Option<((Vec<u8>, u64), usize)>)
    requires
        i <= s@.len(),
    ensures
        match r {
            Some(p) => parse_count_member(s@, i as int) == Some(((p.0.0@, p.0.1), p.1 as int)) && i
                < p.1 <= s@.len(),
            None => parse_count_member(s@, i as int) is None,
        },
{
    match read_string_at(s, i) {
        Some(p) => {
            let (key, j) = p;
            if key.len() == 0 {
                return None;
            }
            let c = scan_ws(s, j);
            if c < s.len() && s[c] == 58 {
                let v = scan_ws(s, c + 1);
                match read_u64_at(s, v) {
                    Some(q) => Some(((key, q.0), q.1)),
                    None => None,
                }
            } else {
                None
            }
        },
        None => None,
    }
}

fn read_count_rest(s: &Vec<u8>, i: usize) -> (r: Option<(Vec<(Vec<u8>, u64)>, usize)>)
    requires
        i <= s@.len(),
    ensures
        match r {
            Some(p) => parse_count_rest(s@, i as int) == Some((entries_view(p.0@), p.1 as int))
                && i < p.1 <= s@.len(),
            None => parse_count_rest(s@, i as int) is None,
        },
    decreases s@.len() - i,
{
    let j = scan_ws(s, i);
    if j < s.len() {
        if s[j] == 125 {
            let out: Vec<(Vec<u8>, u64)> = Vec::new();
            assert(entries_view(out@) =~= Seq::<(Seq<u8>, u64)>::empty());
            Some((out, j + 1))
        } else if s[j] == 44 {
            let k = scan_ws(s, j + 1);
            match read_count_member(s, k) {
                Some(p) => {
                    let (pair, e) = p;
                    match read_count_rest(s, e) {
                        Some(q) => {
                            let (mut rest, f) = q;
                            let ghost pre = rest@;
                            let ghost pair_g = pair;
                            rest.insert(0, pair);
                            assert(entries_view(rest@) =~= seq![(pair_g.0@, pair_g.1)]
                                + entries_view(pre));
                            Some((rest, f))
                        },
                        None => None,
                    }
                },
                None => None,
            }
        } else {
            None
        }
    } else {
        None
    }
}

fn read_count_first(s: &Vec<u8>, i: usize) -> (r: Option<(Vec<(Vec<u8>, u64)>, usize)>)
    requires
        i <= s@.len(),
    ensures
        match r {
            Some(p) => parse_count_first(s@, i as int) == Some((entries_view(p.0@), p.1 as int))
                && i < p.1 <= s@.len(),
            None => parse_count_first(s@, i as int) is None,
        },
{
    let j = scan_ws(s, i);
    if j < s.len() {
        if s[j] == 125 {
            let out: Vec<(Vec<u8>, u64)> = Vec::new();
            assert(entries_view(out@) =~= Seq::<(Seq<u8>, u64)>::empty());
            Some((out, j + 1))
        } else {
            match read_count_member(s, j) {
                Some(p) => {
                    let (pair, e) = p;
                    match read_count_rest(s, e) {
                        Some(q) => {
                            let (mut rest, f) = q;
                            let ghost pre = rest@;
                            let ghost pair_g = pair;
                            rest.insert(0, pair);
                            assert(entries_view(rest@) =~= seq![(pair_g.0@, pair_g.1)]
                                + entries_view(pre));
                            Some((rest, f))
                        },
                        None => None,
                    }
                },
                None => None,
            }
        }
    } else {
        None
    }
}

/// One member of the `stats` object, starting at its key's quote: a
/// category key introduces a category mapping, any other key's value
/// is skipped.
pub open spec fn parse_stats_step(
    s: Seq<u8>,
    i: int,
    t: Map<StatCategory, Seq<(Seq<u8>, u64)>>,
) -> Option<(Map<StatCategory, Seq<(Seq<u8>, u64)>>, int)> {
    match parse_string_at(s, i) {
        Some(p) => {
            let key = p.0;
            let j = p.1;
            if i < j <= s.len() {
                let c = ws_end(s, j);
                if j <= c < s.len() && s[c] == 58 {
                    let v = ws_end(s, c + 1);
                    if c + 1 <= v <= s.len() {
                        match cat_of_key(key) {
                            Some(cat) => {
                                if v < s.len() && s[v] == 123 {
                                    match parse_count_first(s, v + 1) {
                                        Some(q) => Some((t.insert(cat, q.0), q.1)),
                                        None => None,
                                    }
                                } else {
                                    None
                                }
                            },
                            None => match skip_value(s, v) {
                                Some(e) => Some((t, e)),
                                None => None,
                            },
                        }
                    } else {
                        None
                    }
                } else {
                    None
                }
            } else {
                None
            }
        },
        None => None,
    }
}

/// The rest of the `stats` object, entered just after a member's
/// value.
pub open spec fn parse_stats_more(
    s: Seq<u8>,
    i: int,
    t: Map<StatCategory, Seq<(Seq<u8>, u64)>>,
) -> Option<(Map<StatCategory, Seq<(Seq<u8>, u64)>>, int)>
    decreases s.len() - i,
{
    if 0 <= i <= s.len() {
        let j = ws_end(s, i);
        if i <= j < s.len() {
            if s[j] == 125 {
                Some((t, j + 1))
            } else if s[j] == 44 {
                let k = ws_end(s, j + 1);
                if j + 1 <= k <= s.len() {
                    match parse_stats_step(s, k, t) {
                        Some(p) => {
                            if k < p.1 <= s.len() {
                                parse_stats_more(s, p.1, p.0)
                            } else {
                                None
                            }
                        },
                        None => None,
                    }
                } else {
                    None
                }
            } else {
                None
            }
        } else {
            None
        }
    } else {
        None
    }
}

/// The whole `stats` object, entered just after its opening brace.
pub open spec fn parse_stats_first(s: Seq<u8>, i: int) -> Option<
    (Map<StatCategory, Seq<(Seq<u8>, u64)>>, int),
> {
    if 0 <= i <= s.len() {
        let j = ws_end(s, i);
        if i <= j < s.len() {
            if s[j] == 125 {
                Some((Map::empty(), j + 1))
            } else {
                match parse_stats_step(s, j, Map::empty()) {
                    Some(p) => {
                        if j < p.1 <= s.len() {
                            parse_stats_more(s, p.1, p.0)
                        } else {
                            None
                        }
                    },
                    None => None,
                }
            }
        } else {
            None
        }
    } else {
        None
    }
}

fn read_stats_step(s: &Vec<u8>, i: usize, t: CategoryTable) -> (r: Option<(CategoryTable, usize)>)
    requires
        i <= s@.len(),
    ensures
        match r {
            Some(p) => parse_stats_step(s@, i as int, table_view(t)) == Some(
                (table_view(p.0), p.1 as int),
            ) && i < p.1 <= s@.len(),
            None => parse_stats_step(s@, i as int, table_view(t)) is None,
        },
{
    match read_string_at(s, i) {
        Some(p) => {
            let (key, j) = p;
            let c = scan_ws(s, j);
            if c < s.len() && s[c] == 58 {
                let v = scan_ws(s, c + 1);
                match lookup_category(&key) {
                    Some(cat) => {
                        if v < s.len() && s[v] == 123 {
                            match read_count_first(s, v + 1) {
                                Some(q) => {
                                    let (entries, e) = q;
                                    let t2 = set_category(t, cat, entries);
                                    Some((t2, e))
                                },
                                None => None,
                            }
                        } else {
                            None
                        }
                    },
                    None => match exec_skip_value(s, v) {
                        Some(e) => Some((t, e)),
                        None => None,
                    },
                }
            } else {
                None
            }
        },
        None => None,
    }
}

fn read_stats_more(s: &Vec<u8>, i: usize, t: CategoryTable) -> (r: Option<(CategoryTable, usize)>)
    requires
        i <= s@.len(),
    ensures
        match r {
            Some(p) => parse_stats_more(s@, i as int, table_view(t)) == Some(
                (table_view(p.0), p.1 as int),
            ) && i < p.1 <= s@.len(),
            None => parse_stats_more(s@, i as int, table_view(t)) is None,
        },
    decreases s@.len() - i,
{
    let j = scan_ws(s, i);
    if j < s.len() {
        if s[j] == 125 {
            Some((t, j + 1))
        } else if s[j] == 44 {
            let k = scan_ws(s, j + 1);
            match read_stats_step(s, k, t) {
                Some(p) => {
                    let (t2, e) = p;
                    read_stats_more(s, e, t2)
                },
                None => None,
            }
        } else {
            None
        }
    } else {
        None
    }
}

fn read_stats_first(s: &Vec<u8>, i: usize) -> (r: Option<(CategoryTable, usize)>)
    requires
        i <= s@.len(),
    ensures
        match r {
            Some(p) => parse_stats_first(s@, i as int) == Some((table_view(p.0), p.1 as int)) && i
                < p.1 <= s@.len(),
            None => parse_stats_first(s@, i as int) is None,
        },
{
    let j = scan_ws(s, i);
    if j < s.len() {
        let t0 = empty_table();
        if s[j] == 125 {
            Some((t0, j + 1))
        } else {
            match read_stats_step(s, j, t0) {
                Some(p) => {
                    let (t2, e) = p;
                    read_stats_more(s, e, t2)
                },
                None => None,
            }
        }
    } else {
        None
    }
}

/// The bytes of the `stats` envelope key.
pub open spec fn lit_stats() -> Seq<u8> {
    ("stats").spec_bytes()
}

/// The bytes of the `DataVersion` envelope key.
pub open spec fn lit_data_version() -> Seq<u8> {
    ("DataVersion").spec_bytes()
}

/// One member of the record envelope, starting at its key's quote.
pub open spec fn parse_record_step(
    s: Seq<u8>,
    i: int,
    st: Option<Map<StatCategory, Seq<(Seq<u8>, u64)>>>,
    dv: Option<u64>,
) -> Option<((Option<Map<StatCategory, Seq<(Seq<u8>, u64)>>>, Option<u64>), int)> {
    match parse_string_at(s, i) {
        Some(p) => {
            let key = p.0;
            let j = p.1;
            if i < j <= s.len() {
                let c = ws_end(s, j);
                if j <= c < s.len() && s[c] == 58 {
                    let v = ws_end(s, c + 1);
                    if c + 1 <= v <= s.len() {
                        if key == lit_stats() {
                            if v < s.len() && s[v] == 123 {
                                match parse_stats_first(s, v + 1) {
                                    Some(q) => Some(((Some(q.0), dv), q.1)),
                                    None => None,
                                }
                            } else {
                                None
                            }
                        } else if key == lit_data_version() {
                            match parse_number_at(s, v) {
                                Some(q) => {
                                    if q.0 <= u64::MAX {
                                        Some(((st, Some(q.0 as u64)), q.1))
                                    } else {
                                        None
                                    }
                                },
                                None => None,
                            }
                        } else {
                            match skip_value(s, v) {
                                Some(e) => Some(((st, dv), e)),
                                None => None,
                            }
                        }
                    } else {
                        None
                    }
                } else {
                    None
                }
            } else {
                None
            }
        },
        None => None,
    }
}

/// The rest of the record envelope, entered just after a member's
/// value.
pub open spec fn parse_record_more(
    s: Seq<u8>,
    i: int,
    st: Option<Map<StatCategory, Seq<(Seq<u8>, u64)>>>,
    dv: Option<u64>,
) -> Option<((Option<Map<StatCategory, Seq<(Seq<u8>, u64)>>>, Option<u64>), int)>
    decreases s.len() - i,
{
    if 0 <= i <= s.len() {
        let j = ws_end(s, i);
        if i <= j < s.len() {
            if s[j] == 125 {
                Some(((st, dv), j + 1))
            } else if s[j] == 44 {
                let k = ws_end(s, j + 1);
                if j + 1 <= k <= s.len() {
                    match parse_record_step(s, k, st, dv) {
                        Some(p) => {
                            if k < p.1 <= s.len() {
                                parse_record_more(s, p.1, p.0.0, p.0.1)
                            } else {
                                None
                            }
                        },
                        None => None,
                    }
                } else {
                    None
                }
            } else {
                None
            }
        } else {
            None
        }
    } else {
        None
    }
}

/// The whole record envelope, entered just after its opening brace.
pub open spec fn parse_record_first(s: Seq<u8>, i: int) -> Option<
    ((Option<Map<StatCategory, Seq<(Seq<u8>, u64)>>>, Option<u64>), int),
> {
    if 0 <= i <= s.len() {
        let j = ws_end(s, i);
        if i <= j < s.len() {
            if s[j] == 125 {
                Some(((None, None), j + 1))
            } else {
                match parse_record_step(s, j, None, None) {
                    Some(p) => {
                        if j < p.1 <= s.len() {
                            parse_record_more(s, p.1, p.0.0, p.0.1)
                        } else {
                            None
                        }
                    },
                    None => None,
                }
            }
        } else {
            None
        }
    } else {
        None
    }
}

/// What a decoded record states: the schema tag, when the record
/// carried one, and the populated category mappings.
pub ghost struct RecordView {
    pub data_version: Option<u64>,
    pub categories: Map<StatCategory, Seq<(Seq<u8>, u64)>>,
}

/// The meaning of a record file's bytes: the decoded record, or
/// `DecodeFailed` when the text is outside the record grammar, or
/// `SchemaMismatch` when it is a well-formed object that lacks
/// `stats`.
pub open spec fn record_decode(s: Seq<u8>) -> Result<RecordView, ScrapeError> {
    let i = ws_end(s, 0);
    if 0 <= i < s.len() && s[i] == 123 {
        match parse_record_first(s, i + 1) {
            Some(p) => {
                let e = p.1;
                if 0 <= e <= s.len() && ws_end(s, e) == s.len() {
                    match p.0.0 {
                        Some(m) => Ok(RecordView { data_version: p.0.1, categories: m }),
                        None => Err(ScrapeError::SchemaMismatch),
                    }
                } else {
                    Err(ScrapeError::DecodeFailed)
                }
            },
            None => Err(ScrapeError::DecodeFailed),
        }
    } else {
        Err(ScrapeError::DecodeFailed)
    }
}

/// One player's lifetime statistics: the populated category mappings
/// and the record's schema tag, when the record carried one.
#[derive(Debug)]
pub struct PlayerStatsRecord {
    pub data_version: Option<u64>,
    pub categories: CategoryTable,
}

/// What a record holds, as a mathematical value.
pub open spec fn record_view(r: PlayerStatsRecord) -> RecordView {
    RecordView { data_version: r.data_version, categories: table_view(r.categories) }
}

/// Decodes one player's record file.  Succeeds exactly on byte
/// strings inside the record grammar that carry a `stats` member;
/// the error tells a malformed record (`DecodeFailed`) from a
/// well-formed object without `stats` (`SchemaMismatch`).
pub fn decode_stats_record(bytes: &Vec<u8>) -> (r: Result<PlayerStatsRecord, ScrapeError>)
    ensures
        match r {
            Ok(rec) => record_decode(bytes@) == Ok::<RecordView, ScrapeError>(record_view(rec)),
            Err(e) => record_decode(bytes@) == Err::<RecordView, ScrapeError>(e),
        },
{
    let i = scan_ws(bytes, 0);
    if i < bytes.len() && bytes[i] == 123 {
        match read_record_first(bytes, i + 1) {
            Some(p) => {
                let ((st, dv), e) = p;
                let f = scan_ws(bytes, e);
                if f == bytes.len() {
                    match st {
                        Some(table) => Ok(PlayerStatsRecord { data_version: dv, categories: table }),
                        None => Err(ScrapeError::SchemaMismatch),
                    }
                } else {
                    Err(ScrapeError::DecodeFailed)
                }
            },
            None => Err(ScrapeError::DecodeFailed),
        }
    } else {
        Err(ScrapeError::DecodeFailed)
    }
}

fn read_record_step(s: &Vec<u8>, i: usize, st: Option<CategoryTable>, dv: Option<u64>) -> (r:
    Option<((Option<CategoryTable>, Option<u64>), usize)>)
    requires
        i <= s@.len(),
    ensures
        match r {
            Some(p) => parse_record_step(s@, i as int, table_opt_view(st), dv) == Some(
                ((table_opt_view(p.0.0), p.0.1), p.1 as int),
            ) && i < p.1 <= s@.len(),
            None => parse_record_step(s@, i as int, table_opt_view(st), dv) is None,
        },
{
    match read_string_at(s, i) {
        Some(p) => {
            let (key, j) = p;
            let c = scan_ws(s, j);
            if c < s.len() && s[c] == 58 {
                let v = scan_ws(s, c + 1);
                let stats_key = ("stats").as_bytes_vec();
                let dv_key = ("DataVersion").as_bytes_vec();
                if bytes_eq(&key, &stats_key) {
                    if v < s.len() && s[v] == 123 {
                        match read_stats_first(s, v + 1) {
                            Some(q) => {
                                let (table, e) = q;
                                Some(((Some(table), dv), e))
                            },
                            None => None,
                        }
                    } else {
                        None
                    }
                } else if bytes_eq(&key, &dv_key) {
                    match read_u64_at(s, v) {
                        Some(q) => Some(((st, Some(q.0)), q.1)),
                        None => None,
                    }
                } else {
                    match exec_skip_value(s, v) {
                        Some(e) => Some(((st, dv), e)),
                        None => None,
                    }
                }
            } else {
                None
            }
        },
        None => None,
    }
}

/// The view of an optional category table.
pub open spec fn table_opt_view(t: Option<CategoryTable>) -> Option<
    Map<StatCategory, Seq<(Seq<u8>, u64)>>,
> {
    match t {
        Some(x) => Some(table_view(x)),
        None => None,
    }
}

fn read_record_more(s: &Vec<u8>, i: usize, st: Option<CategoryTable>, dv: Option<u64>) -> (r:
    Option<((Option<CategoryTable>, Option<u64>), usize)>)
    requires
        i <= s@.len(),
    ensures
        match r {
            Some(p) => parse_record_more(s@, i as int, table_opt_view(st), dv) == Some(
                ((table_opt_view(p.0.0), p.0.1), p.1 as int),
            ) && i < p.1 <= s@.len(),
            None => parse_record_more(s@, i as int, table_opt_view(st), dv) is None,
        },
    decreases s@.len() - i,
{
    let j = scan_ws(s, i);
    if j < s.len() {
        if s[j] == 125 {
            Some(((st, dv), j + 1))
        } else if s[j] == 44 {
            let k = scan_ws(s, j + 1);
            match read_record_step(s, k, st, dv) {
                Some(p) => {
                    let ((st2, dv2), e) = p;
                    read_record_more(s, e, st2, dv2)
                },
                None => None,
            }
        } else {
            None
        }
    } else {
        None
    }
}

fn read_record_first(s: &Vec<u8>, i: usize) -> (r: Option<
    ((Option<CategoryTable>, Option<u64>), usize),
>)
    requires
        i <= s@.len(),
    ensures
        match r {
            Some(p) => parse_record_first(s@, i as int) == Some(
                ((table_opt_view(p.0.0), p.0.1), p.1 as int),
            ) && i < p.1 <= s@.len(),
            None => parse_record_first(s@, i as int) is None,
        },
{
    let j = scan_ws(s, i);
    if j < s.len() {
        if s[j] == 125 {
            Some(((None, None), j + 1))
        } else {
            match read_record_step(s, j, None, None) {
                Some(p) => {
                    let ((st2, dv2), e) = p;
                    read_record_more(s, e, st2, dv2)
                },
                None => None,
            }
        }
    } else {
        None
    }
}

} // verus!
