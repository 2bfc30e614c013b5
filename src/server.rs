//! The server's dispatch: one datagram in, at most one reply out, under
//! at-least-once or at-most-once semantics.
//!
//! Under at-most-once the reply payload of every handled request is cached by
//! `(correlation id, client)`, and a datagram whose key is cached gets that
//! payload again without running any service. Under at-least-once every
//! datagram runs its service. A datagram too short for its correlation id or
//! for the fields of its service is dropped without a reply; one whose
//! service id names no service gets the error reply. Failure injection, when
//! on, drops every other reply.
use crate::cache::ResponseCache;
use crate::protocol::{
    envelope_bytes, parse_request, response_bytes, u32_at, Request, RequestError, RequestView,
    ResponseView, SeatUpdate, decode_envelope, encode_envelope,
};
use crate::services::{
    after_baggage, after_seats, baggage_reply, earliest_payload, flight_index, flight_of,
    handle_earliest_flight_ids, handle_error, handle_query_flight_details,
    handle_query_flight_identifiers, handle_register_for_updates, handle_reserve_baggage,
    handle_reserve_seats, lemma_flight_index, route_reply, seats_granted, seats_reply,
    subscribe_reply, summary_reply, unknown_service_message, Notice,
};
use crate::store::{has_flight, ids_unique, FlightStore, FlightView};
use crate::watchlist::{
    after_notify, entries_of, expiry_after, recipients, with_subscription,
    ClientAddr, WatchEntry, Watchlist,
};
use vstd::prelude::*;

verus! {

/// How often a request may run its service.
#[derive(Clone, Copy, Debug, PartialEq, Eq, Structural)]
pub enum InvocationSemantics {
    /// Every datagram runs its service, retransmissions included.
    AtLeastOnce,
    /// A retransmission gets the cached reply; its service runs once.
    AtMostOnce,
}

/// Mathematical model of the server's state.
pub struct ServerView {
    pub semantics: InvocationSemantics,
    pub simulate_failure: bool,
    /// Whether failure injection, when on, drops the next reply.
    pub fail_next: bool,
    pub flights: Seq<FlightView>,
    pub cache: Map<(u32, ClientAddr), Seq<u8>>,
    pub watchlist: Map<u32, Seq<WatchEntry>>,
}

/// What handling one datagram yields.
pub struct Outcome {
    /// The reply datagram, unless failure injection dropped it.
    pub reply: Option<Vec<u8>>,
    /// A seat update to push, with its recipients.
    pub notice: Option<Notice>,
}

/// Mathematical model of an outcome.
pub struct OutcomeView {
    pub reply: Option<Seq<u8>>,
    pub notice: Option<(SeatUpdate, Seq<ClientAddr>)>,
}

impl View for Outcome {
    type V = OutcomeView;

    open spec fn view(&self) -> OutcomeView {
        OutcomeView {
            reply: match self.reply {
                Some(d) => Some(d@),
                None => None,
            },
            notice: match self.notice {
                Some(n) => Some((n.update, n.recipients@)),
                None => None,
            },
        }
    }
}

/// Running the service of request `q` from `client` at `now` on tables `s`
/// and `w` may reply `payload`, leave tables `s2` and `w2`, and push `notice`.
pub open spec fn serves(
    s: Seq<FlightView>,
    w: Map<u32, Seq<WatchEntry>>,
    q: RequestView,
    client: ClientAddr,
    now: u64,
    payload: Seq<u8>,
    s2: Seq<FlightView>,
    w2: Map<u32, Seq<WatchEntry>>,
    notice: Option<(SeatUpdate, Seq<ClientAddr>)>,
) -> bool {
    match q {
        RequestView::FlightIds { source, destination } => {
            &&& payload == response_bytes(route_reply(s, source, destination))
            &&& s2 == s && w2 == w && notice is None
        },
        RequestView::FlightSummary { flight_id } => {
            &&& payload == response_bytes(summary_reply(s, flight_id))
            &&& s2 == s && w2 == w && notice is None
        },
        RequestView::ReserveSeats { flight_id, seats } => {
            &&& payload == response_bytes(seats_reply(s, flight_id, seats))
            &&& s2 == after_seats(s, flight_id, seats)
            &&& if seats_granted(s, flight_id, seats) {
                &&& w2 == after_notify(w, flight_id, now)
                &&& notice == Some(
                    (
                        SeatUpdate {
                            flight_id,
                            seats: (flight_of(s, flight_id).seats - seats) as u32,
                        },
                        recipients(w, flight_id, now),
                    ),
                )
            } else {
                w2 == w && notice is None
            }
        },
        RequestView::Subscribe { flight_id, interval_seconds } => {
            &&& payload == response_bytes(subscribe_reply(s, flight_id))
            &&& s2 == s && notice is None
            &&& w2 == if has_flight(s, flight_id) {
                w.insert(
                    flight_id,
                    with_subscription(
                        entries_of(w, flight_id),
                        WatchEntry { expiry: expiry_after(now, interval_seconds), client },
                    ),
                )
            } else {
                w
            }
        },
        RequestView::EarliestFlights { source } => {
            &&& earliest_payload(s, source, payload)
            &&& s2 == s && w2 == w && notice is None
        },
        RequestView::ReserveBaggage { flight_id, weight_kg } => {
            &&& payload == response_bytes(baggage_reply(s, flight_id, weight_kg))
            &&& s2 == after_baggage(s, flight_id, weight_kg)
            &&& w2 == w && notice is None
        },
    }
}

/// The reply datagram for `payload` under correlation id `id`, or none when
/// failure injection drops it.
pub open spec fn sent(o: ServerView, id: u32, payload: Seq<u8>) -> Option<Seq<u8>> {
    if o.simulate_failure && o.fail_next {
        None
    } else {
        Some(envelope_bytes(id, payload))
    }
}

/// The payload that the request payload `body` gets from its service, or the
/// error reply of an unknown service, with the tables it leaves behind.
pub open spec fn handled(
    o: ServerView,
    body: Seq<u8>,
    client: ClientAddr,
    now: u64,
    payload: Seq<u8>,
    s2: Seq<FlightView>,
    w2: Map<u32, Seq<WatchEntry>>,
    notice: Option<(SeatUpdate, Seq<ClientAddr>)>,
) -> bool {
    match parse_request(body) {
        Ok(q) => serves(o.flights, o.watchlist, q, client, now, payload, s2, w2, notice),
        Err(_) => {
            &&& payload == response_bytes(
                ResponseView::Error { message: unknown_service_message() },
            )
            &&& s2 == o.flights && w2 == o.watchlist && notice is None
        },
    }
}

/// One step of the server: datagram `d` from `client` at `now` takes state `o`
/// to state `f` with outcome `r`.
pub open spec fn step(
    o: ServerView,
    d: Seq<u8>,
    client: ClientAddr,
    now: u64,
    r: Option<OutcomeView>,
    f: ServerView,
) -> bool {
    if d.len() < 4 {
        r is None && f == o
    } else {
        let id = u32_at(d, 0);
        let body = d.subrange(4, d.len() as int);
        let key = (id, client);
        if o.semantics == InvocationSemantics::AtMostOnce && o.cache.contains_key(key) {
            &&& r == Some(OutcomeView { reply: sent(o, id, o.cache[key]), notice: None })
            &&& f == ServerView { fail_next: !o.fail_next, ..o }
        } else if parse_request(body) == Err::<RequestView, RequestError>(RequestError::Truncated) {
            r is None && f == o
        } else {
            exists|payload: Seq<u8>, notice: Option<(SeatUpdate, Seq<ClientAddr>)>|
                {
                    &&& handled(o, body, client, now, payload, f.flights, f.watchlist, notice)
                    &&& r == Some(OutcomeView { reply: sent(o, id, payload), notice })
                    &&& f.cache == if o.semantics == InvocationSemantics::AtMostOnce {
                        o.cache.insert(key, payload)
                    } else {
                        o.cache
                    }
                    &&& f.fail_next == !o.fail_next
                    &&& f.semantics == o.semantics
                    &&& f.simulate_failure == o.simulate_failure
                }
        }
    }
}

/// The server: its configuration, its tables and its reply cache.
pub struct Server {
    semantics: InvocationSemantics,
    simulate_failure: bool,
    fail_next: bool,
    store: FlightStore,
    cache: ResponseCache,
    watchlist: Watchlist,
}

impl View for Server {
    type V = ServerView;

    closed spec fn view(&self) -> ServerView {
        ServerView {
            semantics: self.semantics,
            simulate_failure: self.simulate_failure,
            fail_next: self.fail_next,
            flights: self.store@,
            cache: self.cache@,
            watchlist: self.watchlist@,
        }
    }
}

impl Server {
    /// Flight ids are unique, the cache is consistent, and each flight's
    /// watchlist has at most one entry per client.
    pub closed spec fn wf(&self) -> bool {
        &&& self.store.wf()
        &&& self.cache.wf()
        &&& self.watchlist.wf()
    }

    /// A server over `store` with an empty cache and no subscriptions. With
    /// failure injection on, its first reply is dropped.
    pub fn new(semantics: InvocationSemantics, simulate_failure: bool, store: FlightStore) -> (r:
        Server)
        requires
            store.wf(),
        ensures
            r.wf(),
            r@ == (ServerView {
                semantics,
                simulate_failure,
                fail_next: true,
                flights: store@,
                cache: Map::empty(),
                watchlist: Map::empty(),
            }),
    {
        Server {
            semantics,
            simulate_failure,
            fail_next: true,
            store,
            cache: ResponseCache::new(),
            watchlist: Watchlist::new(),
        }
    }

    /// The flight table.
    pub fn store(&self) -> (r: &FlightStore)
        ensures
            r@ == self@.flights,
    {
        &self.store
    }

    /// The subscriptions.
    pub fn watchlist(&self) -> (r: &Watchlist)
        ensures
            r@ == self@.watchlist,
    {
        &self.watchlist
    }

    /// Runs the service that request payload `body` asks for.
    fn run_service(&mut self, body: &[u8], client: ClientAddr, now: u64) -> (r: (
        Vec<u8>,
        Option<Notice>,
    ))
        requires
            old(self).wf(),
            parse_request(body@) != Err::<RequestView, RequestError>(RequestError::Truncated),
        ensures
            final(self).wf(),
            handled(
                old(self)@,
                body@,
                client,
                now,
                r.0@,
                final(self)@.flights,
                final(self)@.watchlist,
                match r.1 {
                    Some(n) => Some((n.update, n.recipients@)),
                    None => None,
                },
            ),
            final(self)@ == (ServerView {
                flights: final(self)@.flights,
                watchlist: final(self)@.watchlist,
                ..old(self)@
            }),
    {
        match Request::decode(body) {
            Err(_) => (handle_error("Unknown service id."), None),
            Ok(Request::FlightIds { source, destination }) => {
                (handle_query_flight_identifiers(&self.store, &source, &destination), None)
            },
            Ok(Request::FlightSummary { flight_id }) => {
                (handle_query_flight_details(&self.store, flight_id), None)
            },
            Ok(Request::ReserveSeats { flight_id, seats }) => {
                handle_reserve_seats(&mut self.store, &mut self.watchlist, flight_id, seats, now)
            },
            Ok(Request::Subscribe { flight_id, interval_seconds }) => {
                let payload = handle_register_for_updates(
                    &self.store,
                    &mut self.watchlist,
                    flight_id,
                    interval_seconds,
                    client,
                    now,
                );
                (payload, None)
            },
            Ok(Request::EarliestFlights { source }) => {
                (handle_earliest_flight_ids(&self.store, &source), None)
            },
            Ok(Request::ReserveBaggage { flight_id, weight_kg }) => {
                (handle_reserve_baggage(&mut self.store, flight_id, weight_kg), None)
            },
        }
    }

    /// Frames `payload` as the reply to `correlation_id`, or drops it when
    /// failure injection says so, and moves failure injection on.
    fn send(&mut self, correlation_id: u32, payload: &[u8]) -> (r: Option<Vec<u8>>)
        ensures
            match r {
                Some(d) => sent(old(self)@, correlation_id, payload@) == Some(d@),
                None => sent(old(self)@, correlation_id, payload@) is None,
            },
            final(self)@ == (ServerView { fail_next: !old(self)@.fail_next, ..old(self)@ }),
            final(self).wf() == old(self).wf(),
    {
        let drop = self.simulate_failure && self.fail_next;
        self.fail_next = !self.fail_next;
        if drop {
            None
        } else {
            Some(encode_envelope(correlation_id, payload))
        }
    }

    /// Handles datagram `datagram` from `client` at Unix time `now`.
    pub fn handle_datagram(&mut self, datagram: &[u8], client: ClientAddr, now: u64) -> (r: Option<
        Outcome,
    >)
        requires
            old(self).wf(),
        ensures
            final(self).wf(),
            step(
                old(self)@,
                datagram@,
                client,
                now,
                match r {
                    Some(o) => Some(o@),
                    None => None,
                },
                final(self)@,
            ),
    {
        let (correlation_id, body) = match decode_envelope(datagram) {
            None => return None,
            Some(parts) => parts,
        };
        if self.semantics == InvocationSemantics::AtMostOnce {
            let cached = match self.cache.get(correlation_id, client) {
                Some(p) => Some(p.clone()),
                None => None,
            };
            if let Some(p) = cached {
                let reply = self.send(correlation_id, p.as_slice());
                return Some(Outcome { reply, notice: None });
            }
        }
        let check = Request::decode(body);
        if let Err(RequestError::Truncated) = check {
            return None;
        }
        let ghost before = self@;
        let (payload, notice) = self.run_service(body, client, now);
        let ghost ran = self@;
        if self.semantics == InvocationSemantics::AtMostOnce {
            let stored = payload.clone();
            self.cache.insert(correlation_id, client, stored);
        }
        let reply = self.send(correlation_id, payload.as_slice());
        let out = Outcome { reply, notice };
        assert(handled(
            before,
            body@,
            client,
            now,
            payload@,
            self@.flights,
            self@.watchlist,
            out@.notice,
        ));
        Some(out)
    }
}


/// Under at-most-once, without failure injection, a datagram that arrives a
/// second time gets the same reply byte for byte as the first time, or none
/// again if the first was dropped as malformed, and changes neither the
/// flights nor the subscriptions a second time.
pub proof fn lemma_at_most_once_idempotent(
    o: ServerView,
    d: Seq<u8>,
    client: ClientAddr,
    now1: u64,
    now2: u64,
    r1: Option<OutcomeView>,
    m: ServerView,
    r2: Option<OutcomeView>,
    f: ServerView,
)
    requires
        o.semantics == InvocationSemantics::AtMostOnce,
        !o.simulate_failure,
        step(o, d, client, now1, r1, m),
        step(m, d, client, now2, r2, f),
    ensures
        r1 is None ==> r2 is None,
        r1 is Some ==> r2 is Some && r2.unwrap().reply == r1.unwrap().reply
            && r1.unwrap().reply is Some,
        f.flights == m.flights,
        f.watchlist == m.watchlist,
        f.cache == m.cache,
{
    let id = u32_at(d, 0);
    let key = (id, client);
    let body = d.subrange(4, d.len() as int);
    if d.len() >= 4 && !o.cache.contains_key(key) && parse_request(body) != Err::<
        RequestView,
        RequestError,
    >(RequestError::Truncated) {
        let (payload, notice) = choose|
            payload: Seq<u8>,
            notice: Option<(SeatUpdate, Seq<ClientAddr>)>,
        |
            {
                &&& handled(o, body, client, now1, payload, m.flights, m.watchlist, notice)
                &&& r1 == Some(OutcomeView { reply: sent(o, id, payload), notice })
                &&& m.cache == o.cache.insert(key, payload)
                &&& m.fail_next == !o.fail_next
                &&& m.semantics == o.semantics
                &&& m.simulate_failure == o.simulate_failure
            };
        assert(m.cache.contains_key(key));
        assert(m.cache[key] == payload);
    }
}

/// Under at-least-once, a seat reservation that arrives twice takes its
/// seats twice when the flight has enough for both.
pub proof fn lemma_at_least_once_repeats(
    o: ServerView,
    d: Seq<u8>,
    client: ClientAddr,
    now1: u64,
    now2: u64,
    r1: Option<OutcomeView>,
    m: ServerView,
    r2: Option<OutcomeView>,
    f: ServerView,
    flight_id: u32,
    seats: u32,
)
    requires
        o.semantics == InvocationSemantics::AtLeastOnce,
        ids_unique(o.flights),
        d.len() >= 4,
        parse_request(d.subrange(4, d.len() as int)) == Ok::<RequestView, RequestError>(
            RequestView::ReserveSeats { flight_id, seats },
        ),
        has_flight(o.flights, flight_id),
        2 * seats <= flight_of(o.flights, flight_id).seats,
        step(o, d, client, now1, r1, m),
        step(m, d, client, now2, r2, f),
    ensures
        has_flight(f.flights, flight_id),
        flight_of(f.flights, flight_id).seats == flight_of(o.flights, flight_id).seats - 2 * seats,
{
    let id = u32_at(d, 0);
    let body = d.subrange(4, d.len() as int);
    let key = (id, client);
    let (first_payload, first_notice) = choose|
        payload: Seq<u8>,
        notice: Option<(SeatUpdate, Seq<ClientAddr>)>,
    |
        {
            &&& handled(o, body, client, now1, payload, m.flights, m.watchlist, notice)
            &&& r1 == Some(OutcomeView { reply: sent(o, id, payload), notice })
            &&& m.cache == o.cache
            &&& m.fail_next == !o.fail_next
            &&& m.semantics == o.semantics
            &&& m.simulate_failure == o.simulate_failure
        };
    lemma_reserve_keeps_index(o.flights, flight_id, seats);
    let (second_payload, second_notice) = choose|
        payload: Seq<u8>,
        notice: Option<(SeatUpdate, Seq<ClientAddr>)>,
    |
        {
            &&& handled(m, body, client, now2, payload, f.flights, f.watchlist, notice)
            &&& r2 == Some(OutcomeView { reply: sent(m, id, payload), notice })
            &&& f.cache == m.cache
            &&& f.fail_next == !m.fail_next
            &&& f.semantics == m.semantics
            &&& f.simulate_failure == m.simulate_failure
        };
    lemma_reserve_keeps_index(m.flights, flight_id, seats);
}

/// A granted seat reservation keeps every id in place and takes the seats
/// from the flight asked for.
proof fn lemma_reserve_keeps_index(s: Seq<FlightView>, flight_id: u32, seats: u32)
    requires
        ids_unique(s),
        has_flight(s, flight_id),
        seats <= flight_of(s, flight_id).seats,
    ensures
        ids_unique(after_seats(s, flight_id, seats)),
        has_flight(after_seats(s, flight_id, seats), flight_id),
        flight_of(after_seats(s, flight_id, seats), flight_id).seats == flight_of(
            s,
            flight_id,
        ).seats - seats,
{
    let i = flight_index(s, flight_id);
    let t = after_seats(s, flight_id, seats);
    assert(0 <= i < s.len() && s[i].id == flight_id);
    assert(t.len() == s.len());
    assert forall|j: int| 0 <= j < t.len() implies #[trigger] t[j].id == s[j].id by {}
    assert(t[i].id == flight_id);
    lemma_flight_index(t, i);
}

} // verus!
