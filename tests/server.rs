use flight_rpc::protocol::{encode_request, Request, Response};
use flight_rpc::server::{InvocationSemantics, Server};
use flight_rpc::services::{
    handle_earliest_flight_ids, handle_error, handle_query_flight_details,
    handle_query_flight_identifiers, handle_register_for_updates, handle_reserve_baggage,
    handle_reserve_seats,
};
use flight_rpc::store::{Flight, FlightStore, ReserveError};
use flight_rpc::watchlist::{ClientAddr, Watchlist};

fn flight(id: u32, source: &str, destination: &str, departure_time: u32, seats: u32) -> Flight {
    Flight {
        id,
        source: source.to_string(),
        destination: destination.to_string(),
        departure_time,
        seats,
        airfare_bits: (id as f32 * 10.1).to_bits(),
        baggage_capacity_kg: 1000,
    }
}

fn table() -> FlightStore {
    let mut store = FlightStore::new();
    assert!(store.add_flight(flight(1, "A", "B", 1_700_000_000, 10)));
    assert!(store.add_flight(flight(2, "A", "B", 1_700_000_000, 20)));
    assert!(store.add_flight(flight(3, "C", "D", 1_700_000_000, 30)));
    store
}

fn addr(port: u16) -> ClientAddr {
    ClientAddr { ip: 0xffff_7f00_0001, port }
}

fn seats_of(server: &Server, id: u32) -> u32 {
    let store = server.store();
    let i = store.position(id).unwrap();
    store.flight(i).seats
}

fn reply_payload(d: &[u8]) -> Response {
    Response::decode(&d[4..]).unwrap()
}

#[test]
fn duplicate_ids_are_refused() {
    let mut store = table();
    assert!(!store.add_flight(flight(2, "X", "Y", 1, 1)));
    assert_eq!(store.len(), 3);
}

#[test]
fn reserve_three_seats_then_summary_and_push() {
    let mut server = Server::new(InvocationSemantics::AtMostOnce, false, table());
    let watcher = addr(5001);
    let booker = addr(5002);
    let sub = encode_request(1, &Request::Subscribe { flight_id: 1, interval_seconds: 60 });
    let out = server.handle_datagram(&sub, watcher, 1000).unwrap();
    assert_eq!(out.reply.unwrap(), vec![0, 0, 0, 1, 4, 1]);

    let reserve = encode_request(1, &Request::ReserveSeats { flight_id: 1, seats: 3 });
    let out = server.handle_datagram(&reserve, booker, 1001).unwrap();
    assert_eq!(out.reply.unwrap(), vec![0, 0, 0, 1, 3, 1]);
    let notice = out.notice.unwrap();
    assert_eq!(notice.recipients, vec![watcher]);
    assert_eq!(notice.update.encode_push(), vec![4, 0, 0, 0, 1, 0, 0, 0, 7]);

    let summary = encode_request(2, &Request::FlightSummary { flight_id: 1 });
    let out = server.handle_datagram(&summary, booker, 1002).unwrap();
    match reply_payload(&out.reply.unwrap()) {
        Response::FlightSummary { seats, departure_time, baggage_capacity_kg, .. } => {
            assert_eq!(seats, 7);
            assert_eq!(departure_time, 1_700_000_000);
            assert_eq!(baggage_capacity_kg, 1000);
        }
        other => panic!("unexpected {:?}", other),
    }
}

#[test]
fn too_many_seats_is_refused_and_changes_nothing() {
    let mut server = Server::new(InvocationSemantics::AtMostOnce, false, table());
    let c = addr(6000);
    let first = encode_request(1, &Request::ReserveSeats { flight_id: 1, seats: 3 });
    server.handle_datagram(&first, c, 10).unwrap();
    let second = encode_request(2, &Request::ReserveSeats { flight_id: 1, seats: 15 });
    let out = server.handle_datagram(&second, c, 11).unwrap();
    assert!(out.notice.is_none());
    let d = out.reply.unwrap();
    assert_eq!(d[4], 0);
    match reply_payload(&d) {
        Response::Error { message } => {
            assert!(message.contains("Not enough seats available"));
            assert_eq!(
                message,
                "Not enough seats available. You tried to reserve 15 seats, but there are only 7 seats available."
            );
        }
        other => panic!("unexpected {:?}", other),
    }
    assert_eq!(seats_of(&server, 1), 7);
}

#[test]
fn earliest_flights_sorted_ascending() {
    let mut store = FlightStore::new();
    assert!(store.add_flight(flight(2, "A", "B", 1_700_000_000, 20)));
    assert!(store.add_flight(flight(3, "C", "D", 1_800_000_000, 30)));
    assert!(store.add_flight(flight(1, "A", "B", 1_700_000_000, 7)));
    let payload = handle_earliest_flight_ids(&store, &"A".to_string());
    assert_eq!(payload, vec![5, 2, 0, 0, 0, 1, 0, 0, 0, 2]);
    assert_eq!(store.earliest_ids(&"A".to_string()), vec![1, 2]);
}

#[test]
fn earliest_skips_full_and_later_flights() {
    let mut store = FlightStore::new();
    assert!(store.add_flight(flight(9, "A", "B", 100, 0)));
    assert!(store.add_flight(flight(4, "A", "C", 300, 5)));
    assert!(store.add_flight(flight(8, "A", "D", 200, 5)));
    assert!(store.add_flight(flight(5, "B", "A", 50, 5)));
    assert_eq!(store.earliest_ids(&"A".to_string()), vec![8]);
}

#[test]
fn earliest_with_no_flight_is_empty() {
    let store = table();
    assert_eq!(handle_earliest_flight_ids(&store, &"Q".to_string()), vec![5, 0]);
}

#[test]
fn at_most_once_replays_cached_reply() {
    let mut server = Server::new(InvocationSemantics::AtMostOnce, false, table());
    let c = addr(7000);
    let d = encode_request(5, &Request::ReserveSeats { flight_id: 1, seats: 1 });
    let first = server.handle_datagram(&d, c, 1).unwrap().reply.unwrap();
    let again = server.handle_datagram(&d, c, 2).unwrap();
    assert!(again.notice.is_none());
    assert_eq!(again.reply.unwrap(), first);
    assert_eq!(seats_of(&server, 1), 9);
}

#[test]
fn at_most_once_key_includes_client() {
    let mut server = Server::new(InvocationSemantics::AtMostOnce, false, table());
    let d = encode_request(5, &Request::ReserveSeats { flight_id: 1, seats: 1 });
    server.handle_datagram(&d, addr(1), 1).unwrap();
    server.handle_datagram(&d, addr(2), 1).unwrap();
    assert_eq!(seats_of(&server, 1), 8);
}

#[test]
fn at_most_once_replays_errors_too() {
    let mut server = Server::new(InvocationSemantics::AtMostOnce, false, table());
    let c = addr(7001);
    let d = encode_request(1, &Request::ReserveSeats { flight_id: 1, seats: 11 });
    let first = server.handle_datagram(&d, c, 1).unwrap().reply.unwrap();
    assert_eq!(first[4], 0);
    let again = server.handle_datagram(&d, c, 2).unwrap().reply.unwrap();
    assert_eq!(again, first);
}

#[test]
fn at_least_once_applies_twice() {
    let mut server = Server::new(InvocationSemantics::AtLeastOnce, false, table());
    let c = addr(8000);
    let d = encode_request(5, &Request::ReserveSeats { flight_id: 1, seats: 1 });
    let first = server.handle_datagram(&d, c, 1).unwrap().reply.unwrap();
    let second = server.handle_datagram(&d, c, 2).unwrap().reply.unwrap();
    assert_eq!(first, second);
    assert_eq!(seats_of(&server, 1), 8);
}

#[test]
fn failure_injection_drops_every_other_reply() {
    let mut server = Server::new(InvocationSemantics::AtMostOnce, true, table());
    let c = addr(9000);
    let d = encode_request(1, &Request::ReserveSeats { flight_id: 2, seats: 5 });
    let first = server.handle_datagram(&d, c, 1).unwrap();
    assert!(first.reply.is_none());
    let retry = server.handle_datagram(&d, c, 2).unwrap();
    assert_eq!(retry.reply.unwrap(), vec![0, 0, 0, 1, 3, 1]);
    assert_eq!(seats_of(&server, 2), 15);
    let third = server.handle_datagram(&d, c, 3).unwrap();
    assert!(third.reply.is_none());
}

#[test]
fn short_datagrams_are_dropped() {
    let mut server = Server::new(InvocationSemantics::AtMostOnce, false, table());
    assert!(server.handle_datagram(&[0, 0, 1], addr(1), 1).is_none());
    assert!(server.handle_datagram(&[0, 0, 0, 1], addr(1), 1).is_none());
    assert!(server.handle_datagram(&[0, 0, 0, 1, 3, 0, 0, 0, 1], addr(1), 1).is_none());
    assert_eq!(seats_of(&server, 1), 10);
    let ok = encode_request(1, &Request::ReserveSeats { flight_id: 1, seats: 1 });
    assert!(server.handle_datagram(&ok, addr(1), 1).unwrap().reply.is_some());
}

#[test]
fn unknown_service_gets_error_reply() {
    let mut server = Server::new(InvocationSemantics::AtLeastOnce, false, table());
    let out = server.handle_datagram(&[0, 0, 0, 3, 9, 1, 2], addr(1), 1).unwrap();
    let d = out.reply.unwrap();
    assert_eq!(&d[..4], &[0, 0, 0, 3]);
    match reply_payload(&d) {
        Response::Error { message } => assert_eq!(message, "Unknown service id."),
        other => panic!("unexpected {:?}", other),
    }
}

#[test]
fn lapsed_subscriber_gets_no_push_and_is_dropped() {
    let mut server = Server::new(InvocationSemantics::AtMostOnce, false, table());
    let short = addr(1);
    let long = addr(2);
    server.handle_datagram(&encode_request(1, &Request::Subscribe { flight_id: 1, interval_seconds: 10 }), short, 100).unwrap();
    server.handle_datagram(&encode_request(1, &Request::Subscribe { flight_id: 1, interval_seconds: 100 }), long, 100).unwrap();
    assert_eq!(server.watchlist().entries(1).len(), 2);
    let booker = addr(3);
    let out = server
        .handle_datagram(&encode_request(1, &Request::ReserveSeats { flight_id: 1, seats: 1 }), booker, 110)
        .unwrap();
    assert_eq!(out.notice.unwrap().recipients, vec![long]);
    let left = server.watchlist().entries(1);
    assert_eq!(left.len(), 1);
    assert_eq!(left[0].client, long);
    assert_eq!(left[0].expiry, 200);
}

#[test]
fn lapsed_entry_stays_until_next_reservation() {
    let mut server = Server::new(InvocationSemantics::AtMostOnce, false, table());
    let w = addr(1);
    server.handle_datagram(&encode_request(1, &Request::Subscribe { flight_id: 1, interval_seconds: 5 }), w, 100).unwrap();
    let q = encode_request(2, &Request::FlightSummary { flight_id: 1 });
    server.handle_datagram(&q, addr(2), 500).unwrap();
    let b = encode_request(3, &Request::ReserveBaggage { flight_id: 1, weight_kg: 10 });
    server.handle_datagram(&b, addr(2), 500).unwrap();
    let other = encode_request(4, &Request::ReserveSeats { flight_id: 2, seats: 1 });
    server.handle_datagram(&other, addr(2), 500).unwrap();
    assert_eq!(server.watchlist().entries(1).len(), 1);
    let r = encode_request(5, &Request::ReserveSeats { flight_id: 1, seats: 1 });
    let out = server.handle_datagram(&r, addr(2), 500).unwrap();
    assert!(out.notice.unwrap().recipients.is_empty());
    assert!(server.watchlist().entries(1).is_empty());
}

#[test]
fn resubscribing_replaces_entry() {
    let store = table();
    let mut watchlist = Watchlist::new();
    let c = addr(4);
    handle_register_for_updates(&store, &mut watchlist, 1, 10, c, 100);
    handle_register_for_updates(&store, &mut watchlist, 1, 50, c, 120);
    let entries = watchlist.entries(1);
    assert_eq!(entries.len(), 1);
    assert_eq!(entries[0].expiry, 170);
}

#[test]
fn subscribe_expiry_saturates() {
    let store = table();
    let mut watchlist = Watchlist::new();
    handle_register_for_updates(&store, &mut watchlist, 1, u32::MAX, addr(1), u64::MAX - 5);
    assert_eq!(watchlist.entries(1)[0].expiry, u64::MAX);
}

#[test]
fn subscribe_unknown_flight_is_error() {
    let store = table();
    let mut watchlist = Watchlist::new();
    let r = handle_register_for_updates(&store, &mut watchlist, 42, 10, addr(1), 100);
    assert_eq!(r, handle_error("No flight found for the given flight ID."));
    assert!(watchlist.entries(42).is_empty());
}

#[test]
fn seats_never_go_below_zero() {
    let mut store = table();
    assert_eq!(store.reserve_seats(1, 11), Err(ReserveError::NotEnough { available: 10 }));
    assert_eq!(store.reserve_seats(1, 10), Ok(0));
    assert_eq!(store.reserve_seats(1, 1), Err(ReserveError::NotEnough { available: 0 }));
    assert_eq!(store.reserve_seats(1, 0), Ok(0));
    assert_eq!(store.reserve_seats(77, 1), Err(ReserveError::NoSuchFlight));
}

#[test]
fn baggage_reservation() {
    let mut store = table();
    assert_eq!(handle_reserve_baggage(&mut store, 3, 40), vec![6, 1]);
    assert_eq!(store.reserve_baggage(3, 961), Err(ReserveError::NotEnough { available: 960 }));
    let r = handle_reserve_baggage(&mut store, 3, 1000);
    match Response::decode(&r).unwrap() {
        Response::Error { message } => assert_eq!(
            message,
            "There is not enough baggage capacity. You tried to reserve 1000 kg of baggage, but there are only 960 kg of baggage remaining."
        ),
        other => panic!("unexpected {:?}", other),
    }
    assert_eq!(handle_reserve_baggage(&mut store, 9, 1), handle_error("No flight found for the given flight ID."));
}

#[test]
fn route_query() {
    let store = table();
    let r = handle_query_flight_identifiers(&store, &"A".to_string(), &"B".to_string());
    assert_eq!(r, vec![1, 2, 0, 0, 0, 1, 0, 0, 0, 2]);
    let none = handle_query_flight_identifiers(&store, &"B".to_string(), &"A".to_string());
    match Response::decode(&none).unwrap() {
        Response::Error { message } => assert_eq!(
            message,
            "No flight identifiers (IDs) found for the given source and destination."
        ),
        other => panic!("unexpected {:?}", other),
    }
}

#[test]
fn summary_of_unknown_flight() {
    let store = table();
    let r = handle_query_flight_details(&store, 4);
    assert_eq!(r, handle_error("No flight found for the given flight ID."));
    let ok = handle_query_flight_details(&store, 3);
    assert_eq!(ok.len(), 17);
    assert_eq!(&ok[9..13], &[0, 0, 0, 30]);
}

#[test]
fn error_payload_layout() {
    assert_eq!(handle_error("ab"), vec![0, 2, b'a', b'b']);
}

#[test]
fn reserve_handler_notifies_only_on_success() {
    let mut store = table();
    let mut watchlist = Watchlist::new();
    let (payload, notice) = handle_reserve_seats(&mut store, &mut watchlist, 3, 31, 0);
    assert_eq!(payload[0], 0);
    assert!(notice.is_none());
    let (payload, notice) = handle_reserve_seats(&mut store, &mut watchlist, 3, 30, 0);
    assert_eq!(payload, vec![3, 1]);
    let n = notice.unwrap();
    assert_eq!(n.update.seats, 0);
    assert!(n.recipients.is_empty());
}
