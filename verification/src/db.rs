//! The single-writer ingestion pipeline: authorization, the ephemeral
//! shortcut, persistence through the store, and the fan-out broadcast log
//! whose order equals commit order.

use vstd::prelude::*;

use crate::config::Settings;
use crate::event::{is_ephemeral_kind, Event, EventV};
use crate::store::{write_result, EventStore, StoreV};

verus! {

/// How many persisted events before optimization is triggered.
pub const EVENT_COUNT_OPTIMIZE_TRIGGER: usize = 500;

#[verifier::external_type_specification]
#[verifier::external_body]
#[verifier::reject_recursive_types(T)]
pub struct ExSender<T>(tokio::sync::mpsc::Sender<T>);

/// An event submitted from a client, with a return channel for notices.
pub struct SubmittedEvent {
    pub event: Event,
    pub notice_tx: tokio::sync::mpsc::Sender<Notice>,
}

/// Serialized event associated with a specific subscription request.
#[derive(PartialEq, Eq, Debug, Clone)]
pub struct QueryResult {
    /// Subscription identifier.
    pub sub_id: String,
    /// Serialized event.
    pub event: String,
}

/// Outcome classes of one event reply.
#[derive(Debug, Clone, Copy, PartialEq, Eq, Structural)]
pub enum EventResultStatus {
    Saved,
    Duplicate,
    Invalid,
    Blocked,
    RateLimited,
    Error,
    Restricted,
}

/// A reply about one event.
#[derive(Debug, Clone)]
pub struct EventResult {
    pub id: String,
    pub msg: String,
    pub status: EventResultStatus,
}

/// A frame sent back to one client.
#[derive(Debug, Clone)]
pub enum Notice {
    /// A free-form notice.
    Message(String),
    /// An `OK` reply about one event.
    EventResult(EventResult),
}

impl Notice {
    /// The event was stored.
    pub fn saved(id: String) -> (r: Notice)
        ensures
            (r matches Notice::EventResult(er) && er.id@ == id@ && er.status
                == EventResultStatus::Saved),
    {
        Notice::EventResult(
            EventResult { id, msg: String::new(), status: EventResultStatus::Saved },
        )
    }

    /// The event was already stored, or a stored deletion suppresses it.
    pub fn duplicate(id: String) -> (r: Notice)
        ensures
            (r matches Notice::EventResult(er) && er.id@ == id@ && er.status
                == EventResultStatus::Duplicate),
    {
        Notice::EventResult(
            EventResult { id, msg: String::new(), status: EventResultStatus::Duplicate },
        )
    }

    /// Policy rejected the event.
    pub fn blocked(id: String, msg: &str) -> (r: Notice)
        ensures
            (r matches Notice::EventResult(er) && er.id@ == id@ && er.msg@ == msg@ && er.status
                == EventResultStatus::Blocked),
    {
        Notice::EventResult(
            EventResult { id, msg: String::from_str(msg), status: EventResultStatus::Blocked },
        )
    }

    /// The relay failed while handling the event.
    pub fn error(id: String, msg: &str) -> (r: Notice)
        ensures
            (r matches Notice::EventResult(er) && er.id@ == id@ && er.msg@ == msg@ && er.status
                == EventResultStatus::Error),
    {
        Notice::EventResult(
            EventResult { id, msg: String::from_str(msg), status: EventResultStatus::Error },
        )
    }

    /// The event failed validation.
    pub fn invalid(id: String, msg: &str) -> (r: Notice)
        ensures
            (r matches Notice::EventResult(er) && er.id@ == id@ && er.msg@ == msg@ && er.status
                == EventResultStatus::Invalid),
    {
        Notice::EventResult(
            EventResult { id, msg: String::from_str(msg), status: EventResultStatus::Invalid },
        )
    }

    /// A rate limit deferred the event.
    pub fn rate_limited(id: String, msg: &str) -> (r: Notice)
        ensures
            (r matches Notice::EventResult(er) && er.id@ == id@ && er.msg@ == msg@ && er.status
                == EventResultStatus::RateLimited),
    {
        Notice::EventResult(
            EventResult { id, msg: String::from_str(msg), status: EventResultStatus::RateLimited },
        )
    }
}

/// What the author identity lookup reported for an event.
#[derive(Debug, Clone, Copy, PartialEq, Eq, Structural)]
pub enum Nip05Outcome {
    /// A verification record exists and is fresh.
    Valid,
    /// A record exists but is expired or for the wrong domain.
    Invalid,
    /// No record exists for this author.
    Missing,
    /// The lookup itself failed.
    LookupFailed,
}

/// What the writer does with an event under the identity policy.
#[derive(Debug, Clone, Copy, PartialEq, Eq, Structural)]
pub enum GateDecision {
    /// Process the event.
    Proceed,
    /// Reply `blocked`: the verification is no longer valid.
    RejectInvalid,
    /// Reply `blocked`: verification is needed to publish.
    RejectMissing,
    /// Skip the event without a reply; the lookup failed.
    SkipError,
}

/// The identity gate of the writer: with enforcement off every event
/// proceeds; with it on, only a fresh verification record lets one through.
pub fn nip05_gate(enabled: bool, outcome: Nip05Outcome) -> (r: GateDecision)
    ensures
        !enabled ==> r == GateDecision::Proceed,
        enabled && outcome == Nip05Outcome::Valid ==> r == GateDecision::Proceed,
        enabled && outcome == Nip05Outcome::Invalid ==> r == GateDecision::RejectInvalid,
        enabled && outcome == Nip05Outcome::Missing ==> r == GateDecision::RejectMissing,
        enabled && outcome == Nip05Outcome::LookupFailed ==> r == GateDecision::SkipError,
{
    if !enabled {
        return GateDecision::Proceed;
    }
    match outcome {
        Nip05Outcome::Valid => GateDecision::Proceed,
        Nip05Outcome::Invalid => GateDecision::RejectInvalid,
        Nip05Outcome::Missing => GateDecision::RejectMissing,
        Nip05Outcome::LookupFailed => GateDecision::SkipError,
    }
}

/// One broadcast entry: an event with its commit sequence number.
#[derive(Debug, Clone)]
pub struct BusEvent {
    pub seq: u64,
    pub event: Event,
}

/// The mathematical value of a broadcast entry.
pub ghost struct BusEventV {
    pub seq: u64,
    pub event: EventV,
}

impl View for BusEvent {
    type V = BusEventV;

    open spec fn view(&self) -> BusEventV {
        BusEventV { seq: self.seq, event: self.event@ }
    }
}

impl DeepView for BusEvent {
    type V = BusEventV;

    open spec fn deep_view(&self) -> BusEventV {
        self@
    }
}

/// The writer's state: the store and the broadcast log it feeds.
pub struct Relay {
    store: EventStore,
    bus: Vec<BusEvent>,
    next_seq: u64,
}

/// The mathematical value of the writer's state.
pub ghost struct RelayV {
    pub store: StoreV,
    pub bus: Seq<BusEventV>,
    pub next_seq: u64,
}

impl View for Relay {
    type V = RelayV;

    closed spec fn view(&self) -> RelayV {
        RelayV { store: self.store@, bus: self.bus.deep_view(), next_seq: self.next_seq }
    }
}

/// Whether the event's author may publish under the configured whitelist:
/// with none configured every author may; otherwise the author key or the
/// delegator key must be listed.
pub open spec fn pubkey_allowed(
    wl: Option<Seq<Seq<char>>>,
    pk: Seq<char>,
    delegated: Option<Seq<char>>,
) -> bool {
    match wl {
        Some(list) => list.contains(pk) || (delegated matches Some(d) && list.contains(d)),
        None => true,
    }
}

/// The writer's authorization decision for one event.
pub fn author_allowed(settings: &Settings, e: &Event) -> (r: bool)
    ensures
        r == pubkey_allowed(
            settings.authorization.pubkey_whitelist.deep_view(),
            e@.pubkey,
            e@.delegated_by,
        ),
{
    match &settings.authorization.pubkey_whitelist {
        Some(list) => {
            if crate::utils::contains_string(list, e.pubkey.as_str()) {
                return true;
            }
            match &e.delegated_by {
                Some(d) => crate::utils::contains_string(list, d.as_str()),
                None => false,
            }
        },
        None => true,
    }
}

/// The result of one submission.
#[derive(Debug, Clone, Copy, PartialEq, Eq, Structural)]
pub enum SubmitOutcome {
    /// The event's id is not the digest of its contents; nothing changed.
    Invalid,
    /// The author may not publish here; nothing changed.
    Blocked,
    /// The event was broadcast without being persisted.
    Ephemeral,
    /// The event was persisted and broadcast.
    Saved,
    /// The event was already stored or already deleted; nothing broadcast.
    Duplicate,
}

impl RelayV {
    /// Well-formedness: the store is well-formed, broadcast sequence numbers
    /// strictly increase along the log, and all stay below the next one to
    /// be assigned.  Broadcast order thus equals commit order.
    pub open spec fn wf(self) -> bool {
        &&& self.store.wf()
        &&& (forall|i: int, j: int|
            0 <= i < j < self.bus.len() ==> (#[trigger] self.bus[i]).seq < (
            #[trigger] self.bus[j]).seq)
        &&& (forall|i: int| 0 <= i < self.bus.len() ==> (#[trigger] self.bus[i]).seq < self.next_seq)
    }
}

impl Relay {
    /// A relay with an empty store and an empty broadcast log.
    pub fn new() -> (r: Relay)
        ensures
            r@.wf(),
            r@.store.rows.len() == 0,
            r@.store.tags.len() == 0,
            r@.bus.len() == 0,
            r@.next_seq == 0,
    {
        let r = Relay { store: EventStore::new(), bus: Vec::new(), next_seq: 0 };
        proof {
            assert(r@.bus =~= Seq::<BusEventV>::empty());
        }
        r
    }

    /// The event store.
    pub fn store(&self) -> (r: &EventStore)
        ensures
            r@ == self@.store,
    {
        &self.store
    }

    /// The broadcast log, in emission order.
    pub fn bus(&self) -> (r: &Vec<BusEvent>)
        ensures
            r.deep_view() == self@.bus,
    {
        &self.bus
    }

    /// The next sequence number to be assigned.
    pub fn next_seq(&self) -> (r: u64)
        ensures
            r == self@.next_seq,
    {
        self.next_seq
    }

    /// Process one submitted event as the writer does: drop it when a
    /// whitelist excludes its author; broadcast without persisting when its
    /// kind is ephemeral; otherwise write it to the store, and broadcast
    /// exactly when a row was effectively added.
    pub fn submit_event(&mut self, e: &Event, settings: &Settings) -> (r: SubmitOutcome)
        requires
            old(self)@.wf(),
            e@.wf(),
            old(self)@.next_seq < u64::MAX,
        ensures
            final(self)@.wf(),
            !pubkey_allowed(
                settings.authorization.pubkey_whitelist.deep_view(),
                e@.pubkey,
                e@.delegated_by,
            ) ==> r == SubmitOutcome::Blocked && final(self)@ == old(self)@,
            pubkey_allowed(
                settings.authorization.pubkey_whitelist.deep_view(),
                e@.pubkey,
                e@.delegated_by,
            ) && is_ephemeral_kind(e@.kind) ==> r == SubmitOutcome::Ephemeral
                && final(self)@.store == old(self)@.store && final(self)@.bus == old(self)@.bus.push(
                BusEventV { seq: old(self)@.next_seq, event: e@ },
            ) && final(self)@.next_seq == old(self)@.next_seq + 1,
            pubkey_allowed(
                settings.authorization.pubkey_whitelist.deep_view(),
                e@.pubkey,
                e@.delegated_by,
            ) && !is_ephemeral_kind(e@.kind) ==> final(self)@.store == write_result(
                old(self)@.store,
                e@,
            ).0 && (if write_result(old(self)@.store, e@).1 == 1 {
                r == SubmitOutcome::Saved && final(self)@.bus == old(self)@.bus.push(
                    BusEventV { seq: old(self)@.next_seq, event: e@ },
                ) && final(self)@.next_seq == old(self)@.next_seq + 1
            } else {
                r == SubmitOutcome::Duplicate && final(self)@.bus == old(self)@.bus
                    && final(self)@.next_seq == old(self)@.next_seq
            }),
    {
        if !author_allowed(settings, e) {
            return SubmitOutcome::Blocked;
        }
        if e.is_ephemeral() {
            self.broadcast(e);
            return SubmitOutcome::Ephemeral;
        }
        let added = self.store.write_event(e);
        if added == 0 {
            SubmitOutcome::Duplicate
        } else {
            self.broadcast(e);
            SubmitOutcome::Saved
        }
    }

    /// Validate, then submit: an event whose id is not the digest of its
    /// canonical form is rejected untouched, so every event this entry
    /// accepts carries the hash of its own contents.
    pub fn submit_event_checked(&mut self, e: &Event, settings: &Settings) -> (r: SubmitOutcome)
        requires
            old(self)@.wf(),
            e@.wf(),
            old(self)@.next_seq < u64::MAX,
        ensures
            final(self)@.wf(),
            r != SubmitOutcome::Invalid ==> e@.id == crate::canonical::computed_id(e@),
            e@.id != crate::canonical::computed_id(e@) ==> r == SubmitOutcome::Invalid && final(self)@ == old(self)@,
            e@.id == crate::canonical::computed_id(e@) && !pubkey_allowed(
                settings.authorization.pubkey_whitelist.deep_view(),
                e@.pubkey,
                e@.delegated_by,
            ) ==> r == SubmitOutcome::Blocked && final(self)@ == old(self)@,
            e@.id == crate::canonical::computed_id(e@) && pubkey_allowed(
                settings.authorization.pubkey_whitelist.deep_view(),
                e@.pubkey,
                e@.delegated_by,
            ) && is_ephemeral_kind(e@.kind) ==> r == SubmitOutcome::Ephemeral
                && final(self)@.store == old(self)@.store && final(self)@.bus == old(self)@.bus.push(
                BusEventV { seq: old(self)@.next_seq, event: e@ },
            ) && final(self)@.next_seq == old(self)@.next_seq + 1,
            e@.id == crate::canonical::computed_id(e@) && pubkey_allowed(
                settings.authorization.pubkey_whitelist.deep_view(),
                e@.pubkey,
                e@.delegated_by,
            ) && !is_ephemeral_kind(e@.kind) ==> final(self)@.store == write_result(
                old(self)@.store,
                e@,
            ).0 && (if write_result(old(self)@.store, e@).1 == 1 {
                r == SubmitOutcome::Saved && final(self)@.bus == old(self)@.bus.push(
                    BusEventV { seq: old(self)@.next_seq, event: e@ },
                ) && final(self)@.next_seq == old(self)@.next_seq + 1
            } else {
                r == SubmitOutcome::Duplicate && final(self)@.bus == old(self)@.bus
                    && final(self)@.next_seq == old(self)@.next_seq
            }),
    {
        if !e.validate_id() {
            return SubmitOutcome::Invalid;
        }
        self.submit_event(e, settings)
    }

    /// Append one event to the broadcast log under the next sequence number.
    fn broadcast(&mut self, e: &Event)
        requires
            old(self)@.wf(),
            old(self)@.next_seq < u64::MAX,
        ensures
            final(self)@.wf(),
            final(self)@.store == old(self)@.store,
            final(self)@.bus == old(self)@.bus.push(
                BusEventV { seq: old(self)@.next_seq, event: e@ },
            ),
            final(self)@.next_seq == old(self)@.next_seq + 1,
    {
        let ghost bus0 = self@.bus;
        let seq = self.next_seq;
        self.bus.push(BusEvent { seq, event: e.duplicate() });
        self.next_seq = self.next_seq + 1;
        proof {
            assert(self@.bus =~= bus0.push(BusEventV { seq: old(self)@.next_seq, event: e@ }));
            assert forall|i: int, j: int|
                0 <= i < j < self@.bus.len() implies (#[trigger] self@.bus[i]).seq < (
            #[trigger] self@.bus[j]).seq by {
                if j < bus0.len() {
                    assert(self@.bus[i] == bus0[i] && self@.bus[j] == bus0[j]);
                } else {
                    assert(self@.bus[j].seq == old(self)@.next_seq);
                    assert(self@.bus[i] == bus0[i]);
                }
            }
        }
    }
}

} // verus!
