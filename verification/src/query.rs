//! The filter-matching engine: one predicate decides whether an event
//! satisfies a filter, and the historical query returns every visible
//! matching row, chronologically, or the newest rows first under a limit.

use vstd::prelude::*;
use vstd::multiset::Multiset;

use crate::event::{Event, EventV};
use crate::hexrange::{hex_range, hex_range_spec, lex_lt, lex_lt_bytes, HexSearch, HexSearchV};
use crate::hexutil::{
    all_lower_hex_digits, hex_decode, hex_decode_spec, is_decodable_hex, is_hex, is_lower_hex,
    lemma_lower_hex_is_hex,
};
use crate::store::{EventStore, RowV, StoreV, TagRowV, StoredEvent};
use crate::subscription::{ReqFilter, ReqFilterV, Subscription, TagQueryV};
use crate::utils::{str_eq, vec_u8_eq};

verus! {

/// Whether a compiled prefix search admits this byte string.
pub open spec fn hs_matches(hs: HexSearchV, bytes: Seq<u8>) -> bool {
    match hs {
        HexSearchV::Exact(e) => bytes == e,
        HexSearchV::Range(lo, hi) => lex_lt(lo, bytes) && lex_lt(bytes, hi),
        HexSearchV::LowerOnly(lo) => lex_lt(lo, bytes),
    }
}

/// Whether one hex prefix admits the key `bytes`, or the delegator key where
/// one is present.  An unparseable prefix admits nothing.
pub open spec fn prefix_hit(p: Seq<char>, bytes: Seq<u8>, delegated: Option<Seq<u8>>) -> bool {
    match hex_range_spec(p) {
        Some(hs) => hs_matches(hs, bytes) || (delegated matches Some(d) && hs_matches(hs, d)),
        None => false,
    }
}

/// Whether some prefix of the list admits the key or its delegator.
pub open spec fn prefixes_match(ps: Seq<Seq<char>>, bytes: Seq<u8>, delegated: Option<Seq<u8>>) -> bool {
    exists|i: int| 0 <= i < ps.len() && prefix_hit(#[trigger] ps[i], bytes, delegated)
}

/// The byte form of an optional hex field.
pub open spec fn decoded_opt(s: Option<Seq<char>>) -> Option<Seq<u8>> {
    match s {
        Some(d) => Some(hex_decode_spec(d)),
        None => None,
    }
}

/// Whether one filter value admits a stored tag row: values that decode are
/// held against the byte form, other values against the text form; a value
/// that fits neither shape admits nothing.
pub open spec fn tag_value_matches(v: Seq<char>, t: TagRowV) -> bool {
    if v.len() % 2 == 1 && !all_lower_hex_digits(v) {
        !t.value_is_hex && t.value == v
    } else if is_decodable_hex(v) {
        t.value_is_hex && hex_decode_spec(t.value) == hex_decode_spec(v)
    } else {
        false
    }
}

/// One indexed tag row of this event satisfies the tag constraint with its
/// `k`-th value.
pub open spec fn tag_hit(s: StoreV, tq: TagQueryV, e: EventV, j: int, k: int) -> bool {
    &&& 0 <= j < s.tags.len()
    &&& 0 <= k < tq.values.len()
    &&& s.tags[j].event_id == e.id
    &&& s.tags[j].name == seq![tq.name]
    &&& tag_value_matches(tq.values[k], s.tags[j])
}

/// Whether the event carries an indexed tag row satisfying the constraint.
pub open spec fn tag_constraint_ok(s: StoreV, tq: TagQueryV, e: EventV) -> bool {
    exists|j: int, k: int| tag_hit(s, tq, e, j, k)
}

/// Whether an event satisfies every constraint of a filter.  A constraint
/// whose list is empty is absent; a filter marked malformed matches nothing.
pub open spec fn filter_matches(s: StoreV, f: ReqFilterV, e: EventV) -> bool {
    &&& !f.force_no_match
    &&& (f.authors matches Some(v) ==> v.len() == 0 || prefixes_match(
        v,
        hex_decode_spec(e.pubkey),
        decoded_opt(e.delegated_by),
    ))
    &&& (f.kinds matches Some(ks) ==> ks.len() == 0 || ks.contains(e.kind))
    &&& (f.ids matches Some(v) ==> v.len() == 0 || prefixes_match(
        v,
        hex_decode_spec(e.id),
        None,
    ))
    &&& (f.tags matches Some(tqs) ==> (forall|k: int|
        0 <= k < tqs.len() ==> tag_constraint_ok(s, #[trigger] tqs[k], e)))
    &&& (f.since matches Some(t) ==> e.created_at > t)
    &&& (f.until matches Some(t) ==> e.created_at < t)
}

/// The events of the visible rows among `rows` that satisfy the filter, in
/// row order.
pub open spec fn matching_events(s: StoreV, f: ReqFilterV, rows: Seq<RowV>) -> Seq<EventV>
    decreases rows.len(),
{
    if rows.len() == 0 {
        Seq::empty()
    } else {
        let init = matching_events(s, f, rows.drop_last());
        let r = rows.last();
        if !r.hidden && filter_matches(s, f, r.event) {
            init.push(r.event)
        } else {
            init
        }
    }
}

/// Chronological order.
pub open spec fn sorted_asc(es: Seq<EventV>) -> bool {
    forall|i: int, j: int|
        0 <= i < j < es.len() ==> (#[trigger] es[i]).created_at <= (#[trigger] es[j]).created_at
}

/// Newest first.
pub open spec fn sorted_desc(es: Seq<EventV>) -> bool {
    forall|i: int, j: int|
        0 <= i < j < es.len() ==> (#[trigger] es[i]).created_at >= (#[trigger] es[j]).created_at
}

/// A limit capped by the number of results available.
pub open spec fn cap_len(lim: u64, n: nat) -> int {
    if lim < n {
        lim as int
    } else {
        n as int
    }
}

/// Every event of the matching list comes from a visible matching row.
pub proof fn lemma_matching_events_sound(s: StoreV, f: ReqFilterV, rows: Seq<RowV>)
    ensures
        forall|k: int|
            0 <= k < matching_events(s, f, rows).len() ==> exists|i: int|
                0 <= i < rows.len() && !(#[trigger] rows[i]).hidden && filter_matches(
                    s,
                    f,
                    rows[i].event,
                ) && #[trigger] matching_events(s, f, rows)[k] == rows[i].event,
    decreases rows.len(),
{
    if rows.len() == 0 {
    } else {
        lemma_matching_events_sound(s, f, rows.drop_last());
        let init = matching_events(s, f, rows.drop_last());
        let all = matching_events(s, f, rows);
        assert forall|k: int|
            0 <= k < all.len() implies exists|i: int|
            0 <= i < rows.len() && !(#[trigger] rows[i]).hidden && filter_matches(
                s,
                f,
                rows[i].event,
            ) && #[trigger] all[k] == rows[i].event by {
            if k < init.len() {
                assert(all[k] == init[k]);
                let i = choose|i: int|
                    0 <= i < rows.drop_last().len() && !(#[trigger] rows.drop_last()[i]).hidden
                        && filter_matches(s, f, rows.drop_last()[i].event) && init[k]
                        == rows.drop_last()[i].event;
                assert(rows[i] == rows.drop_last()[i]);
            } else {
                assert(!rows.last().hidden && filter_matches(s, f, rows.last().event));
                assert(all[k] == rows.last().event);
                assert(rows[rows.len() - 1] == rows.last());
            }
        }
    }
}

/// Every visible matching row's event stands in the matching list.
pub proof fn lemma_matching_events_complete(s: StoreV, f: ReqFilterV, rows: Seq<RowV>, i: int)
    requires
        0 <= i < rows.len(),
        !rows[i].hidden,
        filter_matches(s, f, rows[i].event),
    ensures
        matching_events(s, f, rows).contains(rows[i].event),
    decreases rows.len(),
{
    if i == rows.len() - 1 {
        let all = matching_events(s, f, rows);
        assert(all.last() == rows[i].event);
        assert(all[all.len() - 1] == rows[i].event);
    } else {
        lemma_matching_events_complete(s, f, rows.drop_last(), i);
        let init = matching_events(s, f, rows.drop_last());
        let k = choose|k: int| 0 <= k < init.len() && init[k] == rows.drop_last()[i].event;
        assert(rows.drop_last()[i] == rows[i]);
        let all = matching_events(s, f, rows);
        assert(all[k] == rows[i].event);
    }
}

/// Whether a compiled search admits the bytes.
fn hs_matches_exec(hs: &HexSearch, bytes: &Vec<u8>) -> (r: bool)
    ensures
        r == hs_matches(hs@, bytes@),
{
    match hs {
        HexSearch::Exact(e) => vec_u8_eq(bytes, e),
        HexSearch::Range(lo, hi) => lex_lt_bytes(lo, bytes) && lex_lt_bytes(bytes, hi),
        HexSearch::LowerOnly(lo) => lex_lt_bytes(lo, bytes),
    }
}

/// Whether one prefix admits the key or the delegator.
fn prefix_hit_exec(p: &String, bytes: &Vec<u8>, delegated: &Option<Vec<u8>>) -> (r: bool)
    ensures
        r == prefix_hit(p@, bytes@, delegated.deep_view()),
{
    match hex_range(p.as_str()) {
        Some(hs) => {
            assert(hex_range_spec(p@) == Some(hs@));
            if hs_matches_exec(&hs, bytes) {
                return true;
            }
            match delegated {
                Some(d) => {
                    assert(delegated.deep_view() == Some(d@));
                    hs_matches_exec(&hs, d)
                },
                None => false,
            }
        },
        None => false,
    }
}

/// Whether some prefix of the list admits the key or the delegator.
fn prefixes_match_exec(ps: &Vec<String>, bytes: &Vec<u8>, delegated: &Option<Vec<u8>>) -> (r: bool)
    ensures
        r == prefixes_match(ps.deep_view(), bytes@, delegated.deep_view()),
{
    let mut i: usize = 0;
    while i < ps.len()
        invariant
            0 <= i <= ps.len(),
            forall|j: int| 0 <= j < i ==> !prefix_hit(ps.deep_view()[j], bytes@, delegated.deep_view()),
        decreases ps.len() - i,
    {
        assert(ps@[i as int]@ == ps.deep_view()[i as int]);
        if prefix_hit_exec(&ps[i], bytes, delegated) {
            assert(prefix_hit(ps.deep_view()[i as int], bytes@, delegated.deep_view()));
            return true;
        }
        i = i + 1;
    }
    false
}

/// Whether the list holds this kind.
fn kinds_contains(ks: &Vec<u64>, k: u64) -> (r: bool)
    ensures
        r == ks.deep_view().contains(k),
{
    let mut i: usize = 0;
    while i < ks.len()
        invariant
            0 <= i <= ks.len(),
            forall|j: int| 0 <= j < i ==> ks.deep_view()[j] != k,
        decreases ks.len() - i,
    {
        if ks[i] == k {
            assert(ks.deep_view()[i as int] == k);
            return true;
        }
        i = i + 1;
    }
    false
}

/// Whether one filter value admits a stored tag row.
fn tag_value_matches_exec(v: &String, t_value: &String, t_is_hex: bool) -> (r: bool)
    requires
        t_is_hex ==> crate::store::stored_as_hex(t_value@),
    ensures
        r == tag_value_matches(
            v@,
            TagRowV { event_id: Seq::empty(), name: Seq::empty(), value: t_value@, value_is_hex: t_is_hex },
        ),
{
    let n = v.as_str().unicode_len();
    let lower = is_lower_hex(v.as_str());
    if n % 2 == 1 && !lower {
        return !t_is_hex && str_eq(t_value.as_str(), v.as_str());
    }
    if n % 2 == 0 && is_hex(v.as_str()) {
        if !t_is_hex {
            return false;
        }
        proof {
            lemma_lower_hex_is_hex(t_value@);
        }
        let a = hex_decode(v.as_str());
        let b = hex_decode(t_value.as_str());
        vec_u8_eq(&a.unwrap(), &b.unwrap())
    } else {
        false
    }
}

impl EventStore {
    /// Whether the event satisfies the tag constraint through the tag index.
    fn tag_constraint_exec(&self, name: char, values: &Vec<String>, e: &Event) -> (r: bool)
        requires
            self@.wf(),
        ensures
            r == tag_constraint_ok(
                self@,
                TagQueryV { name, values: values.deep_view() },
                e@,
            ),
    {
        let ghost tq = TagQueryV { name, values: values.deep_view() };
        let tag_rows = self.tag_rows();
        let mut j: usize = 0;
        while j < tag_rows.len()
            invariant
                0 <= j <= tag_rows.len(),
                self@.wf(),
                tag_rows.deep_view() == self@.tags,
                tq == (TagQueryV { name, values: values.deep_view() }),
                forall|jj: int, k: int| 0 <= jj < j ==> !tag_hit(self@, tq, e@, jj, k),
            decreases tag_rows.len() - j,
        {
            proof {
                assert(tag_rows@[j as int]@ == self@.tags[j as int]);
            }
            let t = &tag_rows[j];
            let name_matches = t.name.as_str().unicode_len() == 1 && t.name.as_str().get_char(0)
                == name;
            proof {
                if name_matches {
                    assert(t.name@ =~= seq![name]);
                }
            }
            if name_matches && str_eq(t.event_id.as_str(), e.id.as_str()) {
                let mut k: usize = 0;
                while k < values.len()
                    invariant
                        0 <= k <= values.len(),
                        0 <= j < self@.tags.len(),
                        self@.wf(),
                        t@ == self@.tags[j as int],
                        t.name@ == seq![name],
                        t.event_id@ == e@.id,
                        tq == (TagQueryV { name, values: values.deep_view() }),
                        forall|kk: int| 0 <= kk < k ==> !tag_hit(self@, tq, e@, j as int, kk),
                    decreases values.len() - k,
                {
                    assert(values@[k as int]@ == values.deep_view()[k as int]);
                    assert(self@.tags[j as int].value_is_hex ==> crate::store::stored_as_hex(
                        self@.tags[j as int].value,
                    ));
                    if tag_value_matches_exec(&values[k], &t.value, t.value_is_hex) {
                        proof {
                            let tv = TagRowV {
                                event_id: Seq::empty(),
                                name: Seq::empty(),
                                value: t.value@,
                                value_is_hex: t.value_is_hex,
                            };
                            assert(tag_value_matches(values.deep_view()[k as int], tv)
                                == tag_value_matches(
                                values.deep_view()[k as int],
                                self@.tags[j as int],
                            ));
                            assert(tag_hit(self@, tq, e@, j as int, k as int));
                        }
                        return true;
                    }
                    assert(!tag_hit(self@, tq, e@, j as int, k as int));
                    k = k + 1;
                }
                assert(forall|kk: int| !tag_hit(self@, tq, e@, j as int, kk));
            } else {
                assert(forall|kk: int| !tag_hit(self@, tq, e@, j as int, kk));
            }
            j = j + 1;
        }
        assert(!tag_constraint_ok(self@, tq, e@)) by {
            if tag_constraint_ok(self@, tq, e@) {
                let (j, k) = choose|j: int, k: int| tag_hit(self@, tq, e@, j, k);
                assert(!tag_hit(self@, tq, e@, j, k));
            }
        }
        false
    }

    /// Whether the event satisfies every constraint of the filter.  This is
    /// the live-match predicate; the historical query applies it row by row.
    pub fn filter_matches_event(&self, f: &ReqFilter, e: &Event) -> (r: bool)
        requires
            self@.wf(),
            e@.wf(),
        ensures
            r == filter_matches(self@, f@, e@),
    {
        if f.force_no_match {
            return false;
        }
        proof {
            lemma_lower_hex_is_hex(e@.pubkey);
            lemma_lower_hex_is_hex(e@.id);
            if e@.delegated_by is Some {
                lemma_lower_hex_is_hex(e@.delegated_by->Some_0);
            }
        }
        let pk_bytes = hex_decode(e.pubkey.as_str()).unwrap();
        let id_bytes = hex_decode(e.id.as_str()).unwrap();
        let delegated_bytes: Option<Vec<u8>> = match &e.delegated_by {
            Some(d) => Some(hex_decode(d.as_str()).unwrap()),
            None => None,
        };
        assert(delegated_bytes.deep_view() == decoded_opt(e@.delegated_by));
        match &f.authors {
            Some(v) => {
                if v.len() > 0 && !prefixes_match_exec(v, &pk_bytes, &delegated_bytes) {
                    return false;
                }
            },
            None => {},
        }
        match &f.kinds {
            Some(ks) => {
                if ks.len() > 0 && !kinds_contains(ks, e.kind) {
                    return false;
                }
            },
            None => {},
        }
        let no_delegated: Option<Vec<u8>> = None;
        match &f.ids {
            Some(v) => {
                if v.len() > 0 && !prefixes_match_exec(v, &id_bytes, &no_delegated) {
                    return false;
                }
            },
            None => {},
        }
        match &f.tags {
            Some(tqs) => {
                let mut k: usize = 0;
                while k < tqs.len()
                    invariant
                        0 <= k <= tqs.len(),
                        self@.wf(),
                        e@.wf(),
                        f@.tags == Some(tqs.deep_view()),
                        forall|kk: int|
                            0 <= kk < k ==> tag_constraint_ok(
                                self@,
                                #[trigger] tqs.deep_view()[kk],
                                e@,
                            ),
                    decreases tqs.len() - k,
                {
                    assert(tqs@[k as int]@ == tqs.deep_view()[k as int]);
                    if !self.tag_constraint_exec(tqs[k].name, &tqs[k].values, e) {
                        proof {
                            assert(f@.tags == Some(tqs.deep_view()));
                            assert(!tag_constraint_ok(self@, tqs.deep_view()[k as int], e@));
                            assert(!filter_matches(self@, f@, e@)) by {
                                if filter_matches(self@, f@, e@) {
                                    assert((f@.tags->Some_0)[k as int] == tqs.deep_view()[k as int]);
                                    assert(tag_constraint_ok(
                                        self@,
                                        (f@.tags->Some_0)[k as int],
                                        e@,
                                    ));
                                }
                            }
                        }
                        return false;
                    }
                    k = k + 1;
                }
            },
            None => {},
        }
        match &f.since {
            Some(t) => {
                if !(e.created_at > *t) {
                    return false;
                }
            },
            None => {},
        }
        match &f.until {
            Some(t) => {
                if !(e.created_at < *t) {
                    return false;
                }
            },
            None => {},
        }
        true
    }

    /// The live-match predicate for a whole subscription: whether a freshly
    /// broadcast event matches any of its filters.
    pub fn subscription_matches_event(&self, sub: &Subscription, e: &Event) -> (r: bool)
        requires
            self@.wf(),
            e@.wf(),
        ensures
            r == exists|fi: int|
                0 <= fi < sub@.filters.len() && filter_matches(
                    self@,
                    #[trigger] sub@.filters[fi],
                    e@,
                ),
    {
        let mut fi: usize = 0;
        while fi < sub.filters.len()
            invariant
                0 <= fi <= sub.filters.len(),
                self@.wf(),
                e@.wf(),
                sub.filters.deep_view() == sub@.filters,
                forall|j: int| 0 <= j < fi ==> !filter_matches(self@, #[trigger] sub@.filters[j], e@),
            decreases sub.filters.len() - fi,
        {
            assert(sub.filters@[fi as int]@ == sub@.filters[fi as int]);
            if self.filter_matches_event(&sub.filters[fi], e) {
                return true;
            }
            fi = fi + 1;
        }
        false
    }

    /// Run one filter against the store: every visible matching row, in
    /// chronological order; under a limit, the newest rows first, capped.
    pub fn query_filter(&self, f: &ReqFilter) -> (r: Vec<Event>)
        requires
            self@.wf(),
        ensures
            f@.limit is None ==> r.deep_view().to_multiset() == matching_events(
                self@,
                f@,
                self@.rows,
            ).to_multiset() && sorted_asc(r.deep_view()),
            f@.limit matches Some(lim) ==> exists|full: Seq<EventV>|
                {
                    &&& sorted_desc(full)
                    &&& full.to_multiset() == matching_events(self@, f@, self@.rows).to_multiset()
                    &&& r.deep_view() == #[trigger] full.take(cap_len(lim, full.len()))
                },
    {
        let ghost rows = self@.rows;
        let row_refs = self.stored_rows();
        let mut collected: Vec<Event> = Vec::new();
        assert(collected.deep_view() =~= matching_events(self@, f@, rows.take(0)));
        let mut i: usize = 0;
        while i < row_refs.len()
            invariant
                0 <= i <= row_refs.len(),
                self@.wf(),
                rows == self@.rows,
                row_refs.deep_view() == rows,
                collected.deep_view() == matching_events(self@, f@, rows.take(i as int)),
            decreases row_refs.len() - i,
        {
            proof {
                assert(rows.take(i + 1).drop_last() =~= rows.take(i as int));
                assert(rows.take(i + 1).last() == rows[i as int]);
                assert(row_refs@[i as int]@ == rows[i as int]);
                assert(rows[i as int].event.wf());
            }
            let row = &row_refs[i];
            if !row.hidden && self.filter_matches_event(f, &row.event) {
                let ghost before = collected.deep_view();
                collected.push(row.event.duplicate());
                proof {
                    assert(collected.deep_view() =~= before.push(rows[i as int].event));
                }
            }
            i = i + 1;
        }
        proof {
            assert(rows.take(rows.len() as int) =~= rows);
        }
        match &f.limit {
            None => sort_events(collected, true),
            Some(lim) => {
                let mut sorted = sort_events(collected, false);
                let ghost full = sorted.deep_view();
                proof {
                    assert(f@.limit == Some(*lim));
                }
                if *lim < sorted.len() as u64 {
                    let keep: usize = *lim as usize;
                    sorted.truncate(keep);
                    proof {
                        assert(cap_len(*lim, full.len()) == keep as int);
                        assert(sorted.deep_view() =~= full.take(cap_len(*lim, full.len())));
                    }
                } else {
                    proof {
                        assert(cap_len(*lim, full.len()) == full.len() as int);
                        assert(sorted.deep_view() =~= full.take(cap_len(*lim, full.len())));
                    }
                }
                sorted
            },
        }
    }

    /// Run every filter of a subscription, concatenating the per-filter
    /// results: each returned event is a visible stored event matching some
    /// filter, and every visible event matching an uncapped filter is
    /// returned.
    pub fn query_subscription(&self, sub: &Subscription) -> (r: Vec<Event>)
        requires
            self@.wf(),
        ensures
            forall|k: int|
                0 <= k < r.deep_view().len() ==> visible_match_from(
                    self@,
                    sub@.filters,
                    #[trigger] r.deep_view()[k],
                ),
            forall|i: int, fi: int|
                0 <= i < self@.rows.len() && 0 <= fi < sub@.filters.len() && !(
                #[trigger] self@.rows[i]).hidden && filter_matches(
                    self@,
                    #[trigger] sub@.filters[fi],
                    self@.rows[i].event,
                ) && sub@.filters[fi].limit is None ==> r.deep_view().contains(
                    self@.rows[i].event,
                ),
    {
        let mut out: Vec<Event> = Vec::new();
        let mut fi: usize = 0;
        while fi < sub.filters.len()
            invariant
                0 <= fi <= sub.filters.len(),
                self@.wf(),
                sub.filters.deep_view() == sub@.filters,
                forall|k: int|
                    0 <= k < out.deep_view().len() ==> visible_match_from(
                        self@,
                        sub@.filters,
                        #[trigger] out.deep_view()[k],
                    ),
                forall|i: int, fj: int|
                    0 <= i < self@.rows.len() && 0 <= fj < fi && !(#[trigger] self@.rows[i]).hidden
                        && filter_matches(
                        self@,
                        #[trigger] sub@.filters[fj],
                        self@.rows[i].event,
                    ) && sub@.filters[fj].limit is None ==> out.deep_view().contains(
                        self@.rows[i].event,
                    ),
            decreases sub.filters.len() - fi,
        {
            proof {
                assert(sub.filters@[fi as int]@ == sub@.filters[fi as int]);
            }
            let part = self.query_filter(&sub.filters[fi]);
            let ghost out_before = out.deep_view();
            let ghost part_view = part.deep_view();
            let ghost f = sub@.filters[fi as int];
            proof {
                lemma_matching_events_sound(self@, f, self@.rows);
                broadcast use vstd::seq_lib::group_to_multiset_ensures;

                assert forall|k: int|
                    0 <= k < part_view.len() implies visible_match_from(
                    self@,
                    sub@.filters,
                    #[trigger] part_view[k],
                ) by {
                    if f.limit is None {
                        assert(part_view.to_multiset().contains(part_view[k]));
                        assert(matching_events(self@, f, self@.rows).contains(part_view[k]));
                    } else {
                        let lim = f.limit->Some_0;
                        let full = choose|full: Seq<EventV>|
                            {
                                &&& sorted_desc(full)
                                &&& full.to_multiset() == matching_events(
                                    self@,
                                    f,
                                    self@.rows,
                                ).to_multiset()
                                &&& part_view == #[trigger] full.take(cap_len(lim, full.len()))
                            };
                        assert(part_view[k] == full[k]);
                        assert(full.to_multiset().contains(full[k]));
                        assert(matching_events(self@, f, self@.rows).contains(part_view[k]));
                    }
                    let m = choose|m: int|
                        0 <= m < matching_events(self@, f, self@.rows).len() && matching_events(
                            self@,
                            f,
                            self@.rows,
                        )[m] == part_view[k];
                    let i = choose|i: int|
                        0 <= i < self@.rows.len() && !(#[trigger] self@.rows[i]).hidden
                            && filter_matches(self@, f, self@.rows[i].event) && matching_events(
                            self@,
                            f,
                            self@.rows,
                        )[m] == self@.rows[i].event;
                    assert(0 <= fi < sub@.filters.len() && sub@.filters[fi as int] == f);
                    assert(visible_match_from(self@, sub@.filters, part_view[k]));
                }
            }
            let part_len = part.len();
            let mut part_vec = part;
            proof {
                assert(part_vec.deep_view() == part_view);
            }
            let mut p: usize = 0;
            while p < part_len
                invariant
                    0 <= p <= part_len,
                    part_len == part_vec.len(),
                    part_vec.deep_view() == part_view,
                    out.deep_view() == out_before + part_view.take(p as int),
                decreases part_len - p,
            {
                let ghost ob = out.deep_view();
                out.push(part_vec[p].duplicate());
                proof {
                    assert(part_vec@[p as int]@ == part_view[p as int]);
                    assert(out.deep_view() =~= ob.push(part_view[p as int]));
                    assert(out_before + part_view.take(p + 1) =~= (out_before + part_view.take(
                        p as int,
                    )).push(part_view[p as int]));
                }
                p = p + 1;
            }
            proof {
                assert(part_view.take(part_view.len() as int) =~= part_view);
                assert(out.deep_view() == out_before + part_view);
                broadcast use vstd::seq_lib::group_to_multiset_ensures;

                assert forall|k: int|
                    0 <= k < out.deep_view().len() implies visible_match_from(
                    self@,
                    sub@.filters,
                    #[trigger] out.deep_view()[k],
                ) by {
                    if k < out_before.len() {
                        assert(out.deep_view()[k] == out_before[k]);
                    } else {
                        assert(out.deep_view()[k] == part_view[k - out_before.len()]);
                    }
                }
                assert forall|i: int, fj: int|
                    0 <= i < self@.rows.len() && 0 <= fj < fi + 1 && !(
                    #[trigger] self@.rows[i]).hidden && filter_matches(
                        self@,
                        #[trigger] sub@.filters[fj],
                        self@.rows[i].event,
                    ) && sub@.filters[fj].limit is None implies out.deep_view().contains(
                    self@.rows[i].event,
                ) by {
                    if fj < fi {
                        assert(out_before.contains(self@.rows[i].event));
                        let k = choose|k: int|
                            0 <= k < out_before.len() && out_before[k] == self@.rows[i].event;
                        assert(out.deep_view()[k] == self@.rows[i].event);
                    } else {
                        lemma_matching_events_complete(self@, f, self@.rows, i);
                        assert(matching_events(self@, f, self@.rows).to_multiset().contains(
                            self@.rows[i].event,
                        ));
                        assert(part_view.to_multiset().contains(self@.rows[i].event));
                        assert(part_view.contains(self@.rows[i].event));
                        let k = choose|k: int|
                            0 <= k < part_view.len() && part_view[k] == self@.rows[i].event;
                        assert(out.deep_view()[out_before.len() + k] == self@.rows[i].event);
                    }
                }
            }
            fi = fi + 1;
        }
        out
    }
}

/// Some visible row of the store matches some filter of the list and holds
/// this event.
pub open spec fn visible_match_from(s: StoreV, filters: Seq<ReqFilterV>, ev: EventV) -> bool {
    exists|i: int, fi: int|
        {
            &&& 0 <= i < s.rows.len()
            &&& 0 <= fi < filters.len()
            &&& !(#[trigger] s.rows[i]).hidden
            &&& filter_matches(s, #[trigger] filters[fi], s.rows[i].event)
            &&& ev == s.rows[i].event
        }
}

/// Sort events by timestamp, ascending or descending, by repeatedly moving
/// an extremal element across.
fn sort_events(v: Vec<Event>, asc: bool) -> (r: Vec<Event>)
    ensures
        r.deep_view().to_multiset() == v.deep_view().to_multiset(),
        r.deep_view().len() == v.deep_view().len(),
        asc ==> sorted_asc(r.deep_view()),
        !asc ==> sorted_desc(r.deep_view()),
{
    broadcast use vstd::seq_lib::group_to_multiset_ensures;
    broadcast use vstd::multiset::group_multiset_axioms;

    let ghost orig = v.deep_view();
    let mut rest = v;
    let mut out: Vec<Event> = Vec::new();
    proof {
        assert(out.deep_view() =~= Seq::<EventV>::empty());
        assert(out.deep_view().to_multiset().add(rest.deep_view().to_multiset()) =~= orig.to_multiset());
    }
    while rest.len() > 0
        invariant
            out.deep_view().to_multiset().add(rest.deep_view().to_multiset())
                == orig.to_multiset(),
            out.deep_view().len() + rest.deep_view().len() == orig.len(),
            asc ==> sorted_asc(out.deep_view()),
            !asc ==> sorted_desc(out.deep_view()),
            forall|a: int, b: int|
                0 <= a < out.deep_view().len() && 0 <= b < rest.deep_view().len() ==> (if asc {
                    (#[trigger] out.deep_view()[a]).created_at <= (
                    #[trigger] rest.deep_view()[b]).created_at
                } else {
                    out.deep_view()[a].created_at >= rest.deep_view()[b].created_at
                }),
        decreases rest.len(),
    {
        let mut best: usize = 0;
        let mut i: usize = 1;
        while i < rest.len()
            invariant
                0 <= best < rest.len(),
                1 <= i <= rest.len(),
                forall|j: int|
                    0 <= j < i ==> (if asc {
                        rest.deep_view()[best as int].created_at <= (
                        #[trigger] rest.deep_view()[j]).created_at
                    } else {
                        rest.deep_view()[best as int].created_at
                            >= rest.deep_view()[j].created_at
                    }),
            decreases rest.len() - i,
        {
            proof {
                assert(rest@[i as int]@ == rest.deep_view()[i as int]);
                assert(rest@[best as int]@ == rest.deep_view()[best as int]);
            }
            if (asc && rest[i].created_at < rest[best].created_at) || (!asc && rest[i].created_at
                > rest[best].created_at) {
                best = i;
            }
            i = i + 1;
        }
        let ghost rest_before = rest.deep_view();
        let ghost out_before = out.deep_view();
        let e = rest.remove(best);
        proof {
            rest_before.to_multiset_ensures();
            out_before.to_multiset_ensures();
            assert(e@ == rest_before[best as int]);
            assert(rest.deep_view() =~= rest_before.remove(best as int));
            assert(rest_before.remove(best as int).to_multiset() =~= rest_before.to_multiset()
                .remove(rest_before[best as int]));
        }
        out.push(e);
        proof {
            assert(out.deep_view() =~= out_before.push(rest_before[best as int]));
            assert(out_before.push(rest_before[best as int]).to_multiset() =~= out_before
                .to_multiset().insert(rest_before[best as int]));
            assert(rest_before.to_multiset().contains(rest_before[best as int])) by {
                assert(rest_before.contains(rest_before[best as int]));
            }
            assert(out.deep_view().to_multiset().add(rest.deep_view().to_multiset())
                =~= orig.to_multiset());
            assert forall|a: int, b: int|
                0 <= a < out.deep_view().len() && 0 <= b
                    < rest.deep_view().len() implies (if asc {
                (#[trigger] out.deep_view()[a]).created_at <= (
                #[trigger] rest.deep_view()[b]).created_at
            } else {
                out.deep_view()[a].created_at >= rest.deep_view()[b].created_at
            }) by {
                let b0 = if b < best {
                    b
                } else {
                    b + 1
                };
                assert(rest.deep_view()[b] == rest_before[b0]);
                if a < out_before.len() {
                    assert(out.deep_view()[a] == out_before[a]);
                } else {
                    assert(out.deep_view()[a] == rest_before[best as int]);
                }
            }
        }
    }
    proof {
        assert(rest.deep_view() =~= Seq::<EventV>::empty());
        rest.deep_view().to_multiset_ensures();
        vstd::multiset::lemma_multiset_empty_len::<EventV>(rest.deep_view().to_multiset());
        assert(rest.deep_view().to_multiset() =~= Multiset::<EventV>::empty());
        assert(out.deep_view().to_multiset() =~= out.deep_view().to_multiset().add(
            rest.deep_view().to_multiset(),
        ));
    }
    out
}

} // verus!
