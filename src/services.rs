//! The six services: each turns a decoded request and the server's tables
//! into the payload of its reply, changing the tables where the service
//! says so. Every failure becomes the error reply, tag 0 and a message.
use crate::codec::marshal_string;
use crate::protocol::{response_bytes, ResponseView, SeatUpdate};
use crate::store::{
    earliest_from, has_flight, ids_unique, route_ids, strictly_ascending, FlightStore, FlightView,
    ReserveError,
};
use crate::watchlist::{
    after_notify, entries_of, expiry_after, recipients, with_subscription, ClientAddr, WatchEntry,
    Watchlist,
};
use vstd::prelude::*;

verus! {

/// Decimal digit `d` as a character.
pub open spec fn digit_char(d: nat) -> char {
    ((d % 10 + 48) as u8) as char
}

/// The decimal digits of `n`, without sign or leading zeros.
pub open spec fn decimal(n: nat) -> Seq<char>
    decreases n,
{
    if n < 10 {
        seq![digit_char(n)]
    } else {
        decimal(n / 10).push(digit_char(n % 10))
    }
}

/// Relies on the `Display` of `u32` (through `to_string`): plain decimal digits.
#[verifier::external_body]
fn decimal_text(n: u32) -> (r: String)
    ensures
        r@ == decimal(n as nat),
{
    n.to_string()
}

/// Message for a route with no flights.
pub open spec fn no_route_message() -> Seq<char> {
    "No flight identifiers (IDs) found for the given source and destination."@
}

/// Message for a flight id that names no flight.
pub open spec fn no_flight_message() -> Seq<char> {
    "No flight found for the given flight ID."@
}

/// Message for a seat reservation of `wanted` seats when `available` are free.
pub open spec fn seats_message(wanted: u32, available: u32) -> Seq<char> {
    "Not enough seats available. You tried to reserve "@ + decimal(wanted as nat)
        + " seats, but there are only "@ + decimal(available as nat) + " seats available."@
}

/// Message for a baggage reservation of `wanted` kg when `available` kg are left.
pub open spec fn baggage_message(wanted: u32, available: u32) -> Seq<char> {
    "There is not enough baggage capacity. You tried to reserve "@ + decimal(wanted as nat)
        + " kg of baggage, but there are only "@ + decimal(available as nat)
        + " kg of baggage remaining."@
}

/// Message for a request whose service id names no service.
pub open spec fn unknown_service_message() -> Seq<char> {
    "Unknown service id."@
}

/// The position of the flight with id `id` in `s`, when there is one.
pub open spec fn flight_index(s: Seq<FlightView>, id: u32) -> int {
    choose|j: int| 0 <= j < s.len() && s[j].id == id
}

/// The flight with id `id` in `s`, when there is one.
pub open spec fn flight_of(s: Seq<FlightView>, id: u32) -> FlightView {
    s[flight_index(s, id)]
}

/// With unique ids, a flight's position is the one that holds its id.
pub proof fn lemma_flight_index(s: Seq<FlightView>, i: int)
    requires
        ids_unique(s),
        0 <= i < s.len(),
    ensures
        flight_index(s, s[i].id) == i,
{
    let id = s[i].id;
    assert(0 <= i < s.len() && s[i].id == id);
    let j = flight_index(s, id);
    assert(0 <= j < s.len() && s[j].id == id);
}

/// Reply to a route query.
pub open spec fn route_reply(
    s: Seq<FlightView>,
    source: Seq<char>,
    destination: Seq<char>,
) -> ResponseView {
    if route_ids(s, source, destination).len() == 0 {
        ResponseView::Error { message: no_route_message() }
    } else {
        ResponseView::FlightIds { flight_ids: route_ids(s, source, destination) }
    }
}

/// Reply to a summary query.
pub open spec fn summary_reply(s: Seq<FlightView>, id: u32) -> ResponseView {
    if !has_flight(s, id) {
        ResponseView::Error { message: no_flight_message() }
    } else {
        let f = flight_of(s, id);
        ResponseView::FlightSummary {
            departure_time: f.departure_time,
            airfare_bits: f.airfare_bits,
            seats: f.seats,
            baggage_capacity_kg: f.baggage_capacity_kg,
        }
    }
}

/// Whether `wanted` seats can be taken on flight `id`.
pub open spec fn seats_granted(s: Seq<FlightView>, id: u32, wanted: u32) -> bool {
    has_flight(s, id) && wanted <= flight_of(s, id).seats
}

/// Reply to a seat reservation.
pub open spec fn seats_reply(s: Seq<FlightView>, id: u32, wanted: u32) -> ResponseView {
    if !has_flight(s, id) {
        ResponseView::Error { message: no_flight_message() }
    } else if wanted <= flight_of(s, id).seats {
        ResponseView::SeatsReserved { success: 1 }
    } else {
        ResponseView::Error { message: seats_message(wanted, flight_of(s, id).seats) }
    }
}

/// The table after a seat reservation.
pub open spec fn after_seats(s: Seq<FlightView>, id: u32, wanted: u32) -> Seq<FlightView> {
    if seats_granted(s, id, wanted) {
        let f = flight_of(s, id);
        s.update(flight_index(s, id), FlightView { seats: (f.seats - wanted) as u32, ..f })
    } else {
        s
    }
}

/// Whether `wanted` kg of baggage can be taken on flight `id`.
pub open spec fn baggage_granted(s: Seq<FlightView>, id: u32, wanted: u32) -> bool {
    has_flight(s, id) && wanted <= flight_of(s, id).baggage_capacity_kg
}

/// Reply to a baggage reservation.
pub open spec fn baggage_reply(s: Seq<FlightView>, id: u32, wanted: u32) -> ResponseView {
    if !has_flight(s, id) {
        ResponseView::Error { message: no_flight_message() }
    } else if wanted <= flight_of(s, id).baggage_capacity_kg {
        ResponseView::BaggageReserved { success: 1 }
    } else {
        ResponseView::Error {
            message: baggage_message(wanted, flight_of(s, id).baggage_capacity_kg),
        }
    }
}

/// The table after a baggage reservation.
pub open spec fn after_baggage(s: Seq<FlightView>, id: u32, wanted: u32) -> Seq<FlightView> {
    if baggage_granted(s, id, wanted) {
        let f = flight_of(s, id);
        s.update(
            flight_index(s, id),
            FlightView { baggage_capacity_kg: (f.baggage_capacity_kg - wanted) as u32, ..f },
        )
    } else {
        s
    }
}

/// Reply to a subscription.
pub open spec fn subscribe_reply(s: Seq<FlightView>, id: u32) -> ResponseView {
    if has_flight(s, id) {
        ResponseView::Subscribed { success: 1 }
    } else {
        ResponseView::Error { message: no_flight_message() }
    }
}

/// `ids` are, ascending, the earliest bookable flights from `source`.
pub open spec fn earliest_ids(s: Seq<FlightView>, source: Seq<char>, ids: Seq<u32>) -> bool {
    &&& strictly_ascending(ids)
    &&& forall|id: u32|
        ids.contains(id) <==> exists|j: int|
            0 <= j < s.len() && #[trigger] s[j].id == id && earliest_from(s, s[j], source)
}

/// `payload` is the reply to a query for the earliest flights from `source`.
pub open spec fn earliest_payload(s: Seq<FlightView>, source: Seq<char>, payload: Seq<u8>) -> bool {
    exists|ids: Seq<u32>|
        earliest_ids(s, source, ids) && payload == response_bytes(
            ResponseView::EarliestFlights { flight_ids: ids },
        )
}

/// The payload of the error reply with `message`.
pub fn handle_error(error_message: &str) -> (r: Vec<u8>)
    ensures
        r@ == response_bytes(ResponseView::Error { message: error_message@ }),
{
    let mut buf: Vec<u8> = Vec::new();
    buf.push(0);
    marshal_string(error_message, &mut buf);
    assert(buf@ =~= response_bytes(ResponseView::Error { message: error_message@ }));
    buf
}

/// Service 1: the flights from `source` to `destination`, or an error when
/// there are none.
pub fn handle_query_flight_identifiers(
    store: &FlightStore,
    source: &String,
    destination: &String,
) -> (r: Vec<u8>)
    ensures
        r@ == response_bytes(route_reply(store@, source@, destination@)),
{
    let flight_ids = store.route_ids(source, destination);
    if flight_ids.len() == 0 {
        return handle_error(
            "No flight identifiers (IDs) found for the given source and destination.",
        );
    }
    let reply = crate::protocol::Response::FlightIds { flight_ids };
    reply.encode()
}

/// Service 2: departure time, airfare, seats and baggage capacity of flight
/// `flight_id`, or an error when there is no such flight.
pub fn handle_query_flight_details(store: &FlightStore, flight_id: u32) -> (r: Vec<u8>)
    requires
        store.wf(),
    ensures
        r@ == response_bytes(summary_reply(store@, flight_id)),
{
    match store.position(flight_id) {
        None => handle_error("No flight found for the given flight ID."),
        Some(i) => {
            let f = store.flight(i);
            proof {
                lemma_flight_index(store@, i as int);
            }
            let reply = crate::protocol::Response::FlightSummary {
                departure_time: f.departure_time,
                airfare_bits: f.airfare_bits,
                seats: f.seats,
                baggage_capacity_kg: f.baggage_capacity_kg,
            };
            reply.encode()
        },
    }
}

/// The message of the error reply for a refused seat reservation.
fn seats_refusal(wanted: u32, available: u32) -> (r: String)
    ensures
        r@ == seats_message(wanted, available),
{
    let mut m = String::from_str("Not enough seats available. You tried to reserve ");
    let w = decimal_text(wanted);
    m.append(w.as_str());
    m.append(" seats, but there are only ");
    let a = decimal_text(available);
    m.append(a.as_str());
    m.append(" seats available.");
    m
}

/// The message of the error reply for a refused baggage reservation.
fn baggage_refusal(wanted: u32, available: u32) -> (r: String)
    ensures
        r@ == baggage_message(wanted, available),
{
    let mut m = String::from_str("There is not enough baggage capacity. You tried to reserve ");
    let w = decimal_text(wanted);
    m.append(w.as_str());
    m.append(" kg of baggage, but there are only ");
    let a = decimal_text(available);
    m.append(a.as_str());
    m.append(" kg of baggage remaining.");
    m
}


/// A seat update and the subscribers it goes to.
pub struct Notice {
    pub update: SeatUpdate,
    pub recipients: Vec<ClientAddr>,
}

/// Service 3: reserves `num_seats` seats on flight `flight_id`. On success the
/// subscribers of the flight that are still live at `now` get the new seat
/// count, and lapsed ones are dropped; on failure nothing changes and the
/// reply says why.
pub fn handle_reserve_seats(
    store: &mut FlightStore,
    watchlist: &mut Watchlist,
    flight_id: u32,
    num_seats: u32,
    now: u64,
) -> (r: (Vec<u8>, Option<Notice>))
    requires
        old(store).wf(),
        old(watchlist).wf(),
    ensures
        final(store).wf(),
        final(watchlist).wf(),
        r.0@ == response_bytes(seats_reply(old(store)@, flight_id, num_seats)),
        final(store)@ == after_seats(old(store)@, flight_id, num_seats),
        r.1 is Some <==> seats_granted(old(store)@, flight_id, num_seats),
        r.1 matches Some(n) ==> n.update == (SeatUpdate {
            flight_id,
            seats: (flight_of(old(store)@, flight_id).seats - num_seats) as u32,
        }) && n.recipients@ == recipients(old(watchlist)@, flight_id, now),
        final(watchlist)@ == (if seats_granted(old(store)@, flight_id, num_seats) {
            after_notify(old(watchlist)@, flight_id, now)
        } else {
            old(watchlist)@
        }),
{
    let ghost s = store@;
    let result = store.reserve_seats(flight_id, num_seats);
    proof {
        if has_flight(s, flight_id) {
            let j = choose|j: int| 0 <= j < s.len() && #[trigger] s[j].id == flight_id;
            lemma_flight_index(s, j);
        }
    }
    match result {
        Err(ReserveError::NoSuchFlight) => {
            (handle_error("No flight found for the given flight ID."), None)
        },
        Err(ReserveError::NotEnough { available }) => {
            let message = seats_refusal(num_seats, available);
            (handle_error(message.as_str()), None)
        },
        Ok(seats) => {
            let clients = watchlist.notify(flight_id, now);
            let reply = crate::protocol::Response::SeatsReserved { success: 1 };
            let notice = Notice { update: SeatUpdate { flight_id, seats }, recipients: clients };
            (reply.encode(), Some(notice))
        },
    }
}

/// Service 6: reserves `weight_kg` of baggage capacity on flight `flight_id`;
/// on failure nothing changes and the reply says why.
pub fn handle_reserve_baggage(store: &mut FlightStore, flight_id: u32, weight_kg: u32) -> (r: Vec<
    u8,
>)
    requires
        old(store).wf(),
    ensures
        final(store).wf(),
        r@ == response_bytes(baggage_reply(old(store)@, flight_id, weight_kg)),
        final(store)@ == after_baggage(old(store)@, flight_id, weight_kg),
{
    let ghost s = store@;
    let result = store.reserve_baggage(flight_id, weight_kg);
    proof {
        if has_flight(s, flight_id) {
            let j = choose|j: int| 0 <= j < s.len() && #[trigger] s[j].id == flight_id;
            lemma_flight_index(s, j);
        }
    }
    match result {
        Err(ReserveError::NoSuchFlight) => handle_error("No flight found for the given flight ID."),
        Err(ReserveError::NotEnough { available }) => {
            let message = baggage_refusal(weight_kg, available);
            handle_error(message.as_str())
        },
        Ok(_) => {
            let reply = crate::protocol::Response::BaggageReserved { success: 1 };
            reply.encode()
        },
    }
}

/// Service 4: subscribes `client` to the seat updates of flight `flight_id`
/// for `interval_seconds` from `now`, replacing its earlier subscription
/// there; an unknown flight gets the error reply and changes nothing.
pub fn handle_register_for_updates(
    store: &FlightStore,
    watchlist: &mut Watchlist,
    flight_id: u32,
    interval_seconds: u32,
    client: ClientAddr,
    now: u64,
) -> (r: Vec<u8>)
    requires
        store.wf(),
        old(watchlist).wf(),
    ensures
        final(watchlist).wf(),
        r@ == response_bytes(subscribe_reply(store@, flight_id)),
        final(watchlist)@ == (if has_flight(store@, flight_id) {
            old(watchlist)@.insert(
                flight_id,
                with_subscription(
                    entries_of(old(watchlist)@, flight_id),
                    WatchEntry { expiry: expiry_after(now, interval_seconds), client },
                ),
            )
        } else {
            old(watchlist)@
        }),
{
    if store.position(flight_id).is_none() {
        return handle_error("No flight found for the given flight ID.");
    }
    watchlist.subscribe(flight_id, client, interval_seconds, now);
    let reply = crate::protocol::Response::Subscribed { success: 1 };
    reply.encode()
}

/// Service 5: the ids, ascending, of the flights from `source` with a free
/// seat that leave earliest among those; empty when there is none.
pub fn handle_earliest_flight_ids(store: &FlightStore, source: &String) -> (r: Vec<u8>)
    requires
        store.wf(),
    ensures
        earliest_payload(store@, source@, r@),
{
    let flight_ids = store.earliest_ids(source);
    let ghost ids = flight_ids@;
    let reply = crate::protocol::Response::EarliestFlights { flight_ids };
    let r = reply.encode();
    assert(earliest_ids(store@, source@, ids));
    r
}

} // verus!
