//! Subscriptions: a client-chosen identifier and a non-empty disjunction of
//! filters, each filter a conjunction of constraints.

use vstd::prelude::*;

verus! {

/// One tag constraint of a filter: events must carry an indexed tag row with
/// this single-letter name and one of these values.
#[derive(Debug)]
pub struct TagQuery {
    pub name: char,
    pub values: Vec<String>,
}

/// The mathematical value of a tag constraint.
pub ghost struct TagQueryV {
    pub name: char,
    pub values: Seq<Seq<char>>,
}

impl View for TagQuery {
    type V = TagQueryV;

    open spec fn view(&self) -> TagQueryV {
        TagQueryV { name: self.name, values: self.values.deep_view() }
    }
}

impl DeepView for TagQuery {
    type V = TagQueryV;

    open spec fn deep_view(&self) -> TagQueryV {
        self@
    }
}

/// One filter: an event matches if it satisfies every constraint present.
#[derive(Debug)]
pub struct ReqFilter {
    /// Event id prefixes, hex.
    pub ids: Option<Vec<String>>,
    /// Exact kinds.
    pub kinds: Option<Vec<u64>>,
    /// Lower bound on `created_at`, exclusive.
    pub since: Option<u64>,
    /// Upper bound on `created_at`, exclusive.
    pub until: Option<u64>,
    /// Author key prefixes, hex; apply to the author or the delegator.
    pub authors: Option<Vec<String>>,
    /// Cap on historical results, newest first.
    pub limit: Option<u64>,
    /// Tag constraints.
    pub tags: Option<Vec<TagQuery>>,
    /// A filter recognized as malformed matches nothing.
    pub force_no_match: bool,
}

/// The mathematical value of a filter.
pub ghost struct ReqFilterV {
    pub ids: Option<Seq<Seq<char>>>,
    pub kinds: Option<Seq<u64>>,
    pub since: Option<u64>,
    pub until: Option<u64>,
    pub authors: Option<Seq<Seq<char>>>,
    pub limit: Option<u64>,
    pub tags: Option<Seq<TagQueryV>>,
    pub force_no_match: bool,
}

impl View for ReqFilter {
    type V = ReqFilterV;

    open spec fn view(&self) -> ReqFilterV {
        ReqFilterV {
            ids: self.ids.deep_view(),
            kinds: self.kinds.deep_view(),
            since: self.since,
            until: self.until,
            authors: self.authors.deep_view(),
            limit: self.limit,
            tags: self.tags.deep_view(),
            force_no_match: self.force_no_match,
        }
    }
}

impl DeepView for ReqFilter {
    type V = ReqFilterV;

    open spec fn deep_view(&self) -> ReqFilterV {
        self@
    }
}

/// A subscription: a named list of filters owned by one connection.
#[derive(Debug)]
pub struct Subscription {
    pub id: String,
    pub filters: Vec<ReqFilter>,
}

/// The mathematical value of a subscription.
pub ghost struct SubscriptionV {
    pub id: Seq<char>,
    pub filters: Seq<ReqFilterV>,
}

impl View for Subscription {
    type V = SubscriptionV;

    open spec fn view(&self) -> SubscriptionV {
        SubscriptionV { id: self.id@, filters: self.filters.deep_view() }
    }
}

impl DeepView for Subscription {
    type V = SubscriptionV;

    open spec fn deep_view(&self) -> SubscriptionV {
        self@
    }
}

impl Subscription {
    /// The client-chosen identifier.
    pub fn get_id(&self) -> (r: String)
        ensures
            r@ == self@.id,
    {
        self.id.clone()
    }
}

/// A request to close one subscription.
#[derive(Debug)]
pub struct Close {
    /// The identifier of the subscription to drop.
    pub id: String,
}

/// Element-wise string list equality.
fn vec_string_eq(a: &Vec<String>, b: &Vec<String>) -> (r: bool)
    ensures
        r == (a.deep_view() == b.deep_view()),
{
    if a.len() != b.len() {
        assert(a.deep_view().len() != b.deep_view().len());
        return false;
    }
    let mut i: usize = 0;
    while i < a.len()
        invariant
            0 <= i <= a.len(),
            a.deep_view().len() == b.deep_view().len(),
            a.len() == a.deep_view().len(),
            forall|j: int| 0 <= j < i ==> a.deep_view()[j] == b.deep_view()[j],
        decreases a.len() - i,
    {
        assert(a@[i as int]@ == a.deep_view()[i as int]);
        assert(b@[i as int]@ == b.deep_view()[i as int]);
        if !crate::utils::str_eq(a[i].as_str(), b[i].as_str()) {
            return false;
        }
        i = i + 1;
    }
    proof {
        assert(a.deep_view() =~= b.deep_view());
    }
    true
}

/// Optional string list equality.
fn opt_vec_string_eq(a: &Option<Vec<String>>, b: &Option<Vec<String>>) -> (r: bool)
    ensures
        r == (a.deep_view() == b.deep_view()),
{
    match (a, b) {
        (Some(x), Some(y)) => vec_string_eq(x, y),
        (None, None) => true,
        _ => false,
    }
}

/// Element-wise integer list equality.
fn vec_u64_eq(a: &Vec<u64>, b: &Vec<u64>) -> (r: bool)
    ensures
        r == (a.deep_view() == b.deep_view()),
{
    if a.len() != b.len() {
        assert(a.deep_view().len() != b.deep_view().len());
        return false;
    }
    let mut i: usize = 0;
    while i < a.len()
        invariant
            0 <= i <= a.len(),
            a.deep_view().len() == b.deep_view().len(),
            a.len() == a.deep_view().len(),
            forall|j: int| 0 <= j < i ==> a.deep_view()[j] == b.deep_view()[j],
        decreases a.len() - i,
    {
        assert(a.deep_view()[i as int] == a@[i as int]);
        assert(b.deep_view()[i as int] == b@[i as int]);
        if a[i] != b[i] {
            return false;
        }
        i = i + 1;
    }
    proof {
        assert(a.deep_view() =~= b.deep_view());
    }
    true
}

/// Optional integer equality.
fn opt_u64_eq(a: &Option<u64>, b: &Option<u64>) -> (r: bool)
    ensures
        r == (a == b),
{
    match (a, b) {
        (Some(x), Some(y)) => *x == *y,
        (None, None) => true,
        _ => false,
    }
}

/// Tag constraint list equality.
fn opt_tags_eq(a: &Option<Vec<TagQuery>>, b: &Option<Vec<TagQuery>>) -> (r: bool)
    ensures
        r == (a.deep_view() == b.deep_view()),
{
    match (a, b) {
        (Some(x), Some(y)) => {
            if x.len() != y.len() {
                assert(x.deep_view().len() != y.deep_view().len());
                return false;
            }
            let mut i: usize = 0;
            while i < x.len()
                invariant
                    0 <= i <= x.len(),
                    a.deep_view() == Some(x.deep_view()),
                    b.deep_view() == Some(y.deep_view()),
                    x.deep_view().len() == y.deep_view().len(),
                    x.len() == x.deep_view().len(),
                    forall|j: int| 0 <= j < i ==> x.deep_view()[j] == y.deep_view()[j],
                decreases x.len() - i,
            {
                assert(x@[i as int]@ == x.deep_view()[i as int]);
                assert(y@[i as int]@ == y.deep_view()[i as int]);
                if x[i].name != y[i].name || !vec_string_eq(&x[i].values, &y[i].values) {
                    proof {
                        assert(x.deep_view()[i as int] != y.deep_view()[i as int]);
                    }
                    return false;
                }
                i = i + 1;
            }
            proof {
                assert(x.deep_view() =~= y.deep_view());
            }
            true
        },
        (None, None) => true,
        _ => false,
    }
}

impl ReqFilter {
    /// Whether two filters constrain identically.
    pub fn same_as(&self, other: &ReqFilter) -> (r: bool)
        ensures
            r == (self@ == other@),
    {
        opt_vec_string_eq(&self.ids, &other.ids) && (match (&self.kinds, &other.kinds) {
            (Some(x), Some(y)) => vec_u64_eq(x, y),
            (None, None) => true,
            _ => false,
        }) && opt_u64_eq(&self.since, &other.since) && opt_u64_eq(&self.until, &other.until)
            && opt_vec_string_eq(&self.authors, &other.authors) && opt_u64_eq(
            &self.limit,
            &other.limit,
        ) && opt_tags_eq(&self.tags, &other.tags) && self.force_no_match == other.force_no_match
    }
}

impl Subscription {
    /// Whether two subscriptions have the same identifier and the same
    /// filters.
    pub fn same_as(&self, other: &Subscription) -> (r: bool)
        ensures
            r == (self@ == other@),
    {
        if !crate::utils::str_eq(self.id.as_str(), other.id.as_str()) {
            return false;
        }
        if self.filters.len() != other.filters.len() {
            assert(self@.filters.len() != other@.filters.len());
            return false;
        }
        let mut i: usize = 0;
        while i < self.filters.len()
            invariant
                0 <= i <= self.filters.len(),
                self@.filters.len() == other@.filters.len(),
                self.filters.len() == self@.filters.len(),
                self@.id == other@.id,
                forall|j: int| 0 <= j < i ==> self@.filters[j] == other@.filters[j],
            decreases self.filters.len() - i,
        {
            assert(self.filters@[i as int]@ == self@.filters[i as int]);
            assert(other.filters@[i as int]@ == other@.filters[i as int]);
            if !self.filters[i].same_as(&other.filters[i]) {
                return false;
            }
            i = i + 1;
        }
        proof {
            assert(self@.filters =~= other@.filters);
        }
        true
    }
}

} // verus!
