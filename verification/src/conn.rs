//! Client connection state: the subscription map with its caps, publish rate
//! limiting, and the challenge-response authentication state machine.

use vstd::prelude::*;

use crate::error::Error;
use crate::event::{Event, EventV};
use crate::limiter::DirectLimiter;
use crate::subscription::{Close, Subscription, SubscriptionV};
use crate::utils::{contains_string, host_of, host_str, str_eq, unix_time};

verus! {

/// A subscription identifier has a maximum length, in bytes.
pub const MAX_SUBSCRIPTION_ID_LEN: usize = 256;

/// Authentication state: a connection must first be challenged, and only a
/// reply that binds the challenge nonce and this relay's host advances it to
/// an authenticated key.
#[derive(Debug)]
pub enum Nip42AuthState {
    /// The client is not authenticated yet.
    NoAuth,
    /// A challenge with this nonce was sent.
    Challenge(String),
    /// The client proved control of this key.
    AuthPubkey(String),
}

/// The mathematical value of the authentication state.
pub ghost enum AuthV {
    NoAuth,
    Challenge(Seq<char>),
    AuthPubkey(Seq<char>),
}

impl View for Nip42AuthState {
    type V = AuthV;

    open spec fn view(&self) -> AuthV {
        match self {
            Nip42AuthState::NoAuth => AuthV::NoAuth,
            Nip42AuthState::Challenge(n) => AuthV::Challenge(n@),
            Nip42AuthState::AuthPubkey(p) => AuthV::AuthPubkey(p@),
        }
    }
}

/// State for one client connection, never shared across connections.
pub struct ClientConn {
    /// Client address, from the socket or a proxy header.
    client_ip_addr: String,
    /// Stable identifier assigned at connection time.
    client_id: String,
    /// The active subscriptions, keyed by their client-chosen ids.
    subscriptions: Vec<Subscription>,
    /// Cap on concurrent subscriptions.
    max_subs: usize,
    /// Publish rate limiter; absent for whitelisted addresses.
    pub_limiter: Option<DirectLimiter>,
    /// Authentication state.
    auth: Nip42AuthState,
}

/// The mathematical value of a connection.
pub ghost struct ClientConnV {
    pub client_ip_addr: Seq<char>,
    pub client_id: Seq<char>,
    pub subs: Seq<SubscriptionV>,
    pub max_subs: usize,
    pub has_limiter: bool,
    pub auth: AuthV,
}

impl View for ClientConn {
    type V = ClientConnV;

    closed spec fn view(&self) -> ClientConnV {
        ClientConnV {
            client_ip_addr: self.client_ip_addr@,
            client_id: self.client_id@,
            subs: self.subscriptions.deep_view(),
            max_subs: self.max_subs,
            has_limiter: self.pub_limiter is Some,
            auth: self.auth@,
        }
    }
}

/// Whether some subscription carries this id.
pub open spec fn has_sub_id(subs: Seq<SubscriptionV>, id: Seq<char>) -> bool {
    exists|i: int| 0 <= i < subs.len() && subs[i].id == id
}

/// The byte length of a subscription identifier.
pub open spec fn sub_id_bytes(id: Seq<char>) -> nat {
    vstd::utf8::encode_utf8(id).len()
}

/// A subscription identifier of acceptable length: neither empty nor over
/// the maximum, in bytes.
pub open spec fn sub_id_len_ok(id: Seq<char>) -> bool {
    1 <= sub_id_bytes(id) <= MAX_SUBSCRIPTION_ID_LEN
}

impl ClientConnV {
    /// Well-formedness: subscription ids are distinct and of acceptable
    /// length, the map respects its cap, and the client identifier has the
    /// generated shape.
    pub open spec fn wf(self) -> bool {
        &&& self.subs.len() <= self.max_subs
        &&& (forall|i: int, j: int|
            0 <= i < j < self.subs.len() ==> (#[trigger] self.subs[i]).id != (
            #[trigger] self.subs[j]).id)
        &&& (forall|i: int| 0 <= i < self.subs.len() ==> sub_id_len_ok((#[trigger] self.subs[i]).id))
        &&& self.client_id.len() == 36
    }
}

/// The values of tag rows of length exactly two named `name`, in order.
pub open spec fn tag2_values(tags: Seq<Seq<Seq<char>>>, name: Seq<char>) -> Seq<Seq<char>>
    decreases tags.len(),
{
    if tags.len() == 0 {
        Seq::empty()
    } else {
        let init = tag2_values(tags.drop_last(), name);
        let t = tags.last();
        if t.len() == 2 && t[0] == name {
            init.push(t[1])
        } else {
            init
        }
    }
}

/// The event's timestamp lies within the tolerated window around `now`.
pub open spec fn within_auth_window(created_at: u64, now: u64) -> bool {
    (if created_at >= now {
        created_at - now
    } else {
        now - created_at
    }) <= 600
}

/// The authentication reply carries exactly one challenge tag, with this
/// nonce.
pub open spec fn challenge_tag_ok(e: EventV, nonce: Seq<char>) -> bool {
    let cs = tag2_values(e.tags, "challenge"@);
    cs.len() == 1 && cs[0] == nonce
}

/// The authentication reply carries exactly one relay tag, whose host
/// component equals the host of this relay's advertised URL.
pub open spec fn relay_tag_ok(e: EventV, relay_url: Seq<char>) -> bool {
    let rs = tag2_values(e.tags, "relay"@);
    &&& rs.len() == 1
    &&& host_of(rs[0]) is Some
    &&& host_of(relay_url) is Some
    &&& host_of(rs[0]) == host_of(relay_url)
}

/// The reply is a validated signed event: its id is the digest of its
/// canonical form, and the caller's signature check over that id passed.
/// Signature verification itself is the external cryptographic primitive,
/// so its verdict arrives as a plain value.
pub open spec fn auth_event_ok(e: EventV, sig_valid: bool) -> bool {
    sig_valid && e.id == crate::canonical::computed_id(e)
}

/// The parts of an acceptable authentication reply that do not depend on
/// the clock or on validation.
pub open spec fn auth_accepts_timeless(e: EventV, nonce: Seq<char>, relay_url: Seq<char>) -> bool {
    &&& e.kind == 22242
    &&& challenge_tag_ok(e, nonce)
    &&& relay_tag_ok(e, relay_url)
}

/// An acceptable authentication reply to a pending challenge, at time
/// `now`: a validated event of the right kind, within the window, binding
/// the nonce and this relay's host.
pub open spec fn auth_accepts(
    e: EventV,
    nonce: Seq<char>,
    relay_url: Seq<char>,
    now: u64,
    sig_valid: bool,
) -> bool {
    auth_event_ok(e, sig_valid) && auth_accepts_timeless(e, nonce, relay_url)
        && within_auth_window(e.created_at, now)
}

/// Relies on `uuid::Uuid::new_v4` and its hyphenated display form: a fresh
/// random identifier, 36 characters long.  Which value comes back depends on
/// the random source; nothing more is promised, and the call aborts if the
/// operating system's randomness source is unavailable.
#[verifier::external_body]
fn fresh_uuid_string() -> (r: String)
    ensures
        r@.len() == 36,
{
    uuid::Uuid::new_v4().to_string()
}

/// The values of tag rows of length exactly two named `name`.
fn tag2_values_of(event: &Event, name: &str) -> (r: Vec<String>)
    ensures
        r.deep_view() == tag2_values(event@.tags, name@),
{
    let ghost tags = event@.tags;
    let mut r: Vec<String> = Vec::new();
    assert(r.deep_view() =~= tag2_values(tags.take(0), name@));
    let mut i: usize = 0;
    while i < event.tags.len()
        invariant
            0 <= i <= event.tags.len(),
            tags == event@.tags,
            tags.len() == event.tags.len(),
            r.deep_view() == tag2_values(tags.take(i as int), name@),
        decreases event.tags.len() - i,
    {
        proof {
            assert(tags.take(i + 1).drop_last() =~= tags.take(i as int));
            assert(tags.take(i + 1).last() == tags[i as int]);
            assert(event.tags[i as int].deep_view() == tags[i as int]);
        }
        let t = &event.tags[i];
        if t.len() == 2 && str_eq(t[0].as_str(), name) {
            let ghost before = r.deep_view();
            r.push(t[1].clone());
            proof {
                assert(r.deep_view() =~= before.push(tags[i as int][1]));
            }
        }
        i = i + 1;
    }
    proof {
        assert(tags.take(tags.len() as int) =~= tags);
    }
    r
}

impl Default for ClientConn {
    /// An empty connection state for an unknown address under default
    /// settings.
    fn default() -> (r: ClientConn)
        ensures
            r@.wf(),
            r@.subs.len() == 0,
            r@.auth is NoAuth,
            r@.max_subs == 32,
    {
        ClientConn::new(String::from_str("unknown"), &crate::config::Settings::default())
    }
}

impl ClientConn {
    /// Create a new, empty connection state.  A publish limiter is attached
    /// unless the address is whitelisted.
    pub fn new(client_ip_addr: String, config: &crate::config::Settings) -> (r: ClientConn)
        ensures
            r@.wf(),
            r@.client_ip_addr == client_ip_addr@,
            r@.subs.len() == 0,
            r@.max_subs == 32,
            r@.auth is NoAuth,
            r@.has_limiter == !config.limits.rate_limit_whitelist.deep_view().contains(
                client_ip_addr@,
            ),
    {
        let whitelisted = contains_string(&config.limits.rate_limit_whitelist, client_ip_addr.as_str());
        let r = ClientConn {
            client_ip_addr,
            client_id: fresh_uuid_string(),
            subscriptions: Vec::new(),
            max_subs: 32,
            pub_limiter: if whitelisted {
                None
            } else {
                Some(DirectLimiter::per_minute(60))
            },
            auth: Nip42AuthState::NoAuth,
        };
        proof {
            assert(r@.subs =~= Seq::<SubscriptionV>::empty());
        }
        r
    }

    /// The active subscriptions.
    pub fn subscriptions(&self) -> (r: &Vec<Subscription>)
        ensures
            r.deep_view() == self@.subs,
    {
        &self.subscriptions
    }

    /// Whether a subscription with the same identifier and filters already
    /// exists.
    pub fn has_subscription(&self, sub: &Subscription) -> (r: bool)
        ensures
            r == exists|i: int| 0 <= i < self@.subs.len() && #[trigger] self@.subs[i] == sub@,
    {
        let mut i: usize = 0;
        while i < self.subscriptions.len()
            invariant
                0 <= i <= self.subscriptions.len(),
                forall|j: int| 0 <= j < i ==> #[trigger] self@.subs[j] != sub@,
            decreases self.subscriptions.len() - i,
        {
            assert(self.subscriptions@[i as int]@ == self@.subs[i as int]);
            if self.subscriptions[i].same_as(sub) {
                assert(self@.subs[i as int] == sub@);
                return true;
            }
            i = i + 1;
        }
        false
    }

    /// A short prefix of the client identifier, suitable for logging.
    pub fn get_client_prefix(&self) -> (r: String)
        requires
            self@.wf(),
        ensures
            r@ == self@.client_id.take(8),
    {
        String::from_str(self.client_id.as_str().substring_char(0, 8))
    }

    /// The client address.
    pub fn ip(&self) -> (r: &str)
        ensures
            r@ == self@.client_ip_addr,
    {
        self.client_ip_addr.as_str()
    }

    /// The authenticated key, once the handshake has completed.
    pub fn auth_pubkey(&self) -> (r: Option<&String>)
        ensures
            r is Some <==> self@.auth is AuthPubkey,
            r matches Some(p) ==> self@.auth == AuthV::AuthPubkey(p@),
    {
        match &self.auth {
            Nip42AuthState::AuthPubkey(pubkey) => Some(pubkey),
            _ => None,
        }
    }

    /// The pending challenge nonce, while one is outstanding.
    pub fn auth_challenge(&self) -> (r: Option<&String>)
        ensures
            r is Some <==> self@.auth is Challenge,
            r matches Some(n) ==> self@.auth == AuthV::Challenge(n@),
    {
        match &self.auth {
            Nip42AuthState::Challenge(nonce) => Some(nonce),
            _ => None,
        }
    }

    /// Add a subscription.  An empty or overlong identifier is rejected; an
    /// existing identifier is replaced, which never changes the map's size;
    /// a full map rejects new identifiers.
    pub fn subscribe(&mut self, s: Subscription) -> (r: Result<(), Error>)
        requires
            old(self)@.wf(),
        ensures
            final(self)@.wf(),
            final(self)@.client_ip_addr == old(self)@.client_ip_addr,
            final(self)@.client_id == old(self)@.client_id,
            final(self)@.max_subs == old(self)@.max_subs,
            final(self)@.has_limiter == old(self)@.has_limiter,
            final(self)@.auth == old(self)@.auth,
            !sub_id_len_ok(s@.id) ==> r == Err::<(), Error>(Error::SubIdMaxLengthError) && final(self)@.subs == old(self)@.subs,
            sub_id_len_ok(s@.id) && has_sub_id(old(self)@.subs, s@.id) ==> r is Ok && final(self)@.subs.len() == old(self)@.subs.len() && exists|i: int|
                0 <= i < old(self)@.subs.len() && (#[trigger] old(self)@.subs[i]).id == s@.id
                    && final(self)@.subs == old(self)@.subs.update(i, s@),
            sub_id_len_ok(s@.id) && !has_sub_id(old(self)@.subs, s@.id) && old(self)@.subs.len()
                >= old(self)@.max_subs ==> r == Err::<(), Error>(Error::SubMaxExceededError)
                && final(self)@.subs == old(self)@.subs,
            sub_id_len_ok(s@.id) && !has_sub_id(old(self)@.subs, s@.id) && old(self)@.subs.len()
                < old(self)@.max_subs ==> r is Ok && final(self)@.subs == old(self)@.subs.push(
                s@,
            ),
            has_sub_id(old(self)@.subs, s@.id) ==> r is Ok,
    {
        let k = s.get_id();
        let sub_id_len = k.as_str().as_bytes().len();
        assert(sub_id_len == sub_id_bytes(s@.id));
        if sub_id_len == 0 || sub_id_len > MAX_SUBSCRIPTION_ID_LEN {
            assert(has_sub_id(old(self)@.subs, s@.id) ==> false) by {
                if has_sub_id(old(self)@.subs, s@.id) {
                    let i = choose|i: int|
                        0 <= i < old(self)@.subs.len() && old(self)@.subs[i].id == s@.id;
                    assert(sub_id_len_ok(old(self)@.subs[i].id));
                }
            }
            return Err(Error::SubIdMaxLengthError);
        }
        let mut idx: usize = 0;
        let mut found = false;
        while idx < self.subscriptions.len() && !found
            invariant
                0 <= idx <= self.subscriptions.len(),
                !found ==> forall|j: int| 0 <= j < idx ==> self@.subs[j].id != k@,
                found ==> idx < self.subscriptions.len() && self@.subs[idx as int].id == k@,
                k@ == s@.id,
            decreases self.subscriptions.len() - idx + (if found {
                0int
            } else {
                1int
            }),
        {
            if str_eq(self.subscriptions[idx].id.as_str(), k.as_str()) {
                assert(self.subscriptions@[idx as int].deep_view() == self@.subs[idx as int]);
                found = true;
            } else {
                assert(self.subscriptions@[idx as int].deep_view() == self@.subs[idx as int]);
                idx = idx + 1;
            }
        }
        if found {
            let ghost subs0 = self@.subs;
            self.subscriptions.remove(idx);
            self.subscriptions.insert(idx, s);
            proof {
                assert(subs0 == old(self)@.subs);
                let subs1 = self@.subs;
                assert(subs1 =~= subs0.update(idx as int, s@));
                assert(subs1[idx as int].id == subs0[idx as int].id);
                assert forall|a: int, b: int|
                    0 <= a < b < subs1.len() implies (#[trigger] subs1[a]).id != (
                #[trigger] subs1[b]).id by {
                    assert(subs1[a].id == subs0[a].id);
                    assert(subs1[b].id == subs0[b].id);
                    assert(subs0[a].id != subs0[b].id);
                }
                assert forall|a: int|
                    0 <= a < subs1.len() implies sub_id_len_ok(
                    (#[trigger] subs1[a]).id,
                ) by {
                    if a == idx {
                        assert(subs1[a].id == s@.id);
                    } else {
                        assert(subs1[a] == subs0[a]);
                        assert(sub_id_len_ok(old(self)@.subs[a].id));
                    }
                }
            }
            return Ok(());
        }
        assert(!has_sub_id(self@.subs, s@.id));
        if self.subscriptions.len() >= self.max_subs {
            return Err(Error::SubMaxExceededError);
        }
        let ghost subs0 = self@.subs;
        self.subscriptions.push(s);
        proof {
            assert(subs0 == old(self)@.subs);
            let subs1 = self@.subs;
            assert(subs1 =~= subs0.push(s@));
            assert forall|a: int, b: int|
                0 <= a < b < subs1.len() implies (#[trigger] subs1[a]).id != (
            #[trigger] subs1[b]).id by {
                if b == subs0.len() {
                    assert(subs1[a] == subs0[a]);
                    assert(subs0[a].id != s@.id);
                } else {
                    assert(subs1[a] == subs0[a]);
                    assert(subs1[b] == subs0[b]);
                }
            }
            assert forall|a: int|
                0 <= a < subs1.len() implies sub_id_len_ok((#[trigger] subs1[a]).id) by {
                if a == subs0.len() {
                    assert(subs1[a].id == s@.id);
                } else {
                    assert(subs1[a] == subs0[a]);
                    assert(sub_id_len_ok(old(self)@.subs[a].id));
                }
            }
        }
        Ok(())
    }

    /// Remove the subscription named by the close request.  A missing
    /// identifier is silently tolerated.
    pub fn unsubscribe(&mut self, c: &Close)
        requires
            old(self)@.wf(),
        ensures
            final(self)@.wf(),
            final(self)@.client_ip_addr == old(self)@.client_ip_addr,
            final(self)@.client_id == old(self)@.client_id,
            final(self)@.max_subs == old(self)@.max_subs,
            final(self)@.has_limiter == old(self)@.has_limiter,
            final(self)@.auth == old(self)@.auth,
            !has_sub_id(old(self)@.subs, c.id@) ==> final(self)@.subs == old(self)@.subs,
            has_sub_id(old(self)@.subs, c.id@) ==> exists|i: int|
                0 <= i < old(self)@.subs.len() && (#[trigger] old(self)@.subs[i]).id == c.id@
                    && final(self)@.subs == old(self)@.subs.remove(i),
            !has_sub_id(final(self)@.subs, c.id@),
    {
        let mut idx: usize = 0;
        while idx < self.subscriptions.len()
            invariant
                0 <= idx <= self.subscriptions.len(),
                self@ == old(self)@,
                old(self)@.wf(),
                forall|j: int| 0 <= j < idx ==> self@.subs[j].id != c.id@,
            decreases self.subscriptions.len() - idx,
        {
            assert(self.subscriptions@[idx as int].deep_view() == self@.subs[idx as int]);
            if str_eq(self.subscriptions[idx].id.as_str(), c.id.as_str()) {
                let ghost subs0 = self@.subs;
                self.subscriptions.remove(idx);
                proof {
                    assert(subs0 == old(self)@.subs);
                    assert(subs0[idx as int].id == c.id@);
                    let subs1 = self@.subs;
                    assert(subs1 =~= subs0.remove(idx as int));
                    assert forall|j: int|
                        0 <= j < subs1.len() implies (#[trigger] subs1[j]).id != c.id@ by {
                        if j < idx {
                            assert(subs1[j] == subs0[j]);
                        } else {
                            assert(subs1[j] == subs0[j + 1]);
                            assert((#[trigger] old(self)@.subs[idx as int]).id != (
                            #[trigger] old(self)@.subs[j + 1]).id);
                        }
                    }
                    assert forall|a: int, b: int|
                        0 <= a < b < subs1.len() implies (#[trigger] subs1[a]).id != (
                    #[trigger] subs1[b]).id by {
                        let a0 = if a < idx {
                            a
                        } else {
                            a + 1
                        };
                        let b0 = if b < idx {
                            b
                        } else {
                            b + 1
                        };
                        assert(subs1[a] == subs0[a0]);
                        assert(subs1[b] == subs0[b0]);
                        assert((#[trigger] old(self)@.subs[a0]).id != (
                        #[trigger] old(self)@.subs[b0]).id);
                    }
                    assert forall|a: int|
                        0 <= a < subs1.len() implies sub_id_len_ok(
                        (#[trigger] subs1[a]).id,
                    ) by {
                        let a0 = if a < idx {
                            a
                        } else {
                            a + 1
                        };
                        assert(subs1[a] == subs0[a0]);
                        assert(sub_id_len_ok((#[trigger] old(self)@.subs[a0]).id));
                    }
                }
                return ;
            }
            idx = idx + 1;
        }
    }

    /// Issue a fresh challenge, replacing any earlier one.
    pub fn generate_auth_challenge(&mut self)
        ensures
            final(self)@.client_ip_addr == old(self)@.client_ip_addr,
            final(self)@.client_id == old(self)@.client_id,
            final(self)@.subs == old(self)@.subs,
            final(self)@.max_subs == old(self)@.max_subs,
            final(self)@.has_limiter == old(self)@.has_limiter,
            final(self)@.auth is Challenge,
            old(self)@.wf() ==> final(self)@.wf(),
    {
        self.auth = Nip42AuthState::Challenge(fresh_uuid_string());
    }

    /// Authentication at a given clock reading: the reply must be a
    /// validated signed event — its id the digest of its canonical form and
    /// the caller's signature check passed — answering a pending challenge
    /// with the right kind, a timestamp within the tolerated window, the
    /// challenge nonce, and this relay's host.  Repeated authentication is
    /// a no-op success; any failure yields `AuthFailure` and leaves the
    /// state unchanged.
    pub fn authenticate_at(
        &mut self,
        event: &Event,
        relay_url: &String,
        now: u64,
        sig_valid: bool,
    ) -> (r: Result<(), Error>)
        ensures
            final(self)@.client_ip_addr == old(self)@.client_ip_addr,
            final(self)@.client_id == old(self)@.client_id,
            final(self)@.subs == old(self)@.subs,
            final(self)@.max_subs == old(self)@.max_subs,
            final(self)@.has_limiter == old(self)@.has_limiter,
            old(self)@.wf() ==> final(self)@.wf(),
            r is Err ==> r == Err::<(), Error>(Error::AuthFailure) && final(self)@.auth == old(self)@.auth,
            old(self)@.auth is AuthPubkey ==> r is Ok && final(self)@.auth == old(self)@.auth,
            old(self)@.auth is NoAuth ==> r == Err::<(), Error>(Error::AuthFailure) && final(self)@.auth == old(self)@.auth,
            old(self)@.auth matches AuthV::Challenge(nonce) ==> (if auth_accepts(
                event@,
                nonce,
                relay_url@,
                now,
                sig_valid,
            ) {
                r is Ok && final(self)@.auth == AuthV::AuthPubkey(event@.pubkey)
            } else {
                r == Err::<(), Error>(Error::AuthFailure) && final(self)@.auth == old(self)@.auth
            }),
    {
        match &self.auth {
            Nip42AuthState::Challenge(_) => {},
            Nip42AuthState::AuthPubkey(_) => {
                return Ok(());
            },
            Nip42AuthState::NoAuth => {
                return Err(Error::AuthFailure);
            },
        }
        if !sig_valid || !event.validate_id() {
            return Err(Error::AuthFailure);
        }
        if event.kind != 22242 {
            return Err(Error::AuthFailure);
        }
        let diff = if event.created_at >= now {
            event.created_at - now
        } else {
            now - event.created_at
        };
        if diff > 600 {
            return Err(Error::AuthFailure);
        }
        let cvals = tag2_values_of(event, "challenge");
        if cvals.len() != 1 {
            return Err(Error::AuthFailure);
        }
        let nonce_matches = match &self.auth {
            Nip42AuthState::Challenge(nonce) => str_eq(cvals[0].as_str(), nonce.as_str()),
            _ => false,
        };
        if !nonce_matches {
            return Err(Error::AuthFailure);
        }
        let rvals = tag2_values_of(event, "relay");
        if rvals.len() != 1 {
            return Err(Error::AuthFailure);
        }
        let ours = host_str(relay_url.as_str());
        let theirs = host_str(rvals[0].as_str());
        match (theirs, ours) {
            (Some(received_relay), Some(our_relay)) => {
                if !str_eq(received_relay.as_str(), our_relay.as_str()) {
                    return Err(Error::AuthFailure);
                }
            },
            _ => {
                return Err(Error::AuthFailure);
            },
        }
        self.auth = Nip42AuthState::AuthPubkey(event.pubkey.clone());
        Ok(())
    }

    /// Authentication against the wall clock.  The signature verdict over
    /// the event's id is the external cryptographic primitive, handed in by
    /// the caller; every failure yields `AuthFailure` and leaves the state
    /// unchanged.
    pub fn authenticate(&mut self, event: &Event, relay_url: &String, sig_valid: bool) -> (r:
        Result<(), Error>)
        ensures
            final(self)@.client_ip_addr == old(self)@.client_ip_addr,
            final(self)@.client_id == old(self)@.client_id,
            final(self)@.subs == old(self)@.subs,
            final(self)@.max_subs == old(self)@.max_subs,
            final(self)@.has_limiter == old(self)@.has_limiter,
            old(self)@.wf() ==> final(self)@.wf(),
            old(self)@.auth is AuthPubkey ==> r is Ok && final(self)@.auth == old(self)@.auth,
            old(self)@.auth is NoAuth ==> r == Err::<(), Error>(Error::AuthFailure) && final(self)@.auth == old(self)@.auth,
            r is Err ==> r == Err::<(), Error>(Error::AuthFailure) && final(self)@.auth == old(self)@.auth,
            old(self)@.auth matches AuthV::Challenge(nonce) ==> ((r is Ok ==> auth_event_ok(
                event@,
                sig_valid,
            ) && auth_accepts_timeless(event@, nonce, relay_url@) && final(self)@.auth
                == AuthV::AuthPubkey(event@.pubkey)) && (!(auth_event_ok(event@, sig_valid)
                && auth_accepts_timeless(event@, nonce, relay_url@)) ==> r == Err::<(), Error>(
                Error::AuthFailure,
            ))),
    {
        let now = unix_time();
        self.authenticate_at(event, relay_url, now, sig_valid)
    }

    /// Whether a publish is allowed right now: true when no limiter is
    /// attached, otherwise whatever the limiter answers.
    pub fn check_pub_rate_limit(&mut self) -> (r: bool)
        ensures
            final(self)@ == old(self)@,
            !old(self)@.has_limiter ==> r == true,
    {
        if let Some(limiter) = &self.pub_limiter {
            limiter.check_ok()
        } else {
            true
        }
    }
}

} // verus!
