use flight_rpc::client::{
    prepare_earliest_flight_ids, prepare_get_flight_identifiers, prepare_get_flight_summary,
    prepare_monitor_seat_availability, prepare_reserve_baggage, prepare_reserve_seats, Client,
    InputError, Received,
};
use flight_rpc::protocol::{encode_envelope, Request, Response, SeatUpdate};

#[test]
fn prepare_checks_letters() {
    assert_eq!(prepare_get_flight_identifiers("A", "B").unwrap().encode(), vec![1, 1, b'A', 1, b'B']);
    assert_eq!(prepare_get_flight_identifiers("A1", "B").unwrap_err(), InputError::SourceNotLetters);
    assert_eq!(prepare_get_flight_identifiers("A", "B C").unwrap_err(), InputError::DestinationNotLetters);
    assert_eq!(prepare_earliest_flight_ids("S\u{e3}o").unwrap().encode(), vec![5, 4, b'S', 0xc3, 0xa3, b'o']);
    assert_eq!(prepare_earliest_flight_ids("9").unwrap_err(), InputError::SourceNotLetters);
    assert_eq!(prepare_earliest_flight_ids("").unwrap().encode(), vec![5, 0]);
}

#[test]
fn prepare_numeric_requests() {
    assert_eq!(prepare_get_flight_summary(1).encode(), vec![2, 0, 0, 0, 1]);
    assert_eq!(prepare_reserve_seats(1, 3).encode(), vec![3, 0, 0, 0, 1, 0, 0, 0, 3]);
    assert_eq!(prepare_reserve_baggage(1, 40).unwrap().encode(), vec![6, 0, 0, 0, 1, 0, 0, 0, 40]);
    assert_eq!(prepare_reserve_baggage(1, 41).unwrap_err(), InputError::BaggageTooHeavy);
    assert_eq!(
        prepare_monitor_seat_availability(1, 31_536_000).unwrap().encode(),
        vec![4, 0, 0, 0, 1, 0x01, 0xe1, 0x33, 0x80]
    );
    assert_eq!(prepare_monitor_seat_availability(1, 31_536_001).unwrap_err(), InputError::IntervalTooLong);
}

#[test]
fn input_error_messages() {
    assert_eq!(InputError::BaggageTooHeavy.message(), "Baggage weight must be less than or equal to 40kg");
    assert_eq!(InputError::SourceNotLetters.message(), "Source must be made up of only letters");
}

#[test]
fn correlation_ids_increase_per_request() {
    let mut client = Client::new();
    assert_eq!(client.last_id(), 0);
    let d1 = client.send(&Request::FlightSummary { flight_id: 1 });
    assert_eq!(d1, vec![0, 0, 0, 1, 2, 0, 0, 0, 1]);
    assert_eq!(client.retransmit(), d1);
    assert_eq!(client.retransmit(), d1);
    let reply = encode_envelope(1, &Response::SeatsReserved { success: 1 }.encode());
    assert!(matches!(client.receive(&reply), Received::Reply(Response::SeatsReserved { success: 1 })));
    assert!(client.is_idle());
    let d2 = client.send(&Request::FlightSummary { flight_id: 1 });
    assert_eq!(&d2[..4], &[0, 0, 0, 2]);
    assert_eq!(client.last_id(), 2);
}

#[test]
fn stale_reply_is_discarded() {
    let mut client = Client::new();
    client.send(&Request::FlightSummary { flight_id: 1 });
    let reply = encode_envelope(1, &Response::SeatsReserved { success: 1 }.encode());
    client.receive(&reply);
    let d = client.send(&Request::ReserveSeats { flight_id: 1, seats: 1 });
    let stale = encode_envelope(1, &Response::SeatsReserved { success: 1 }.encode());
    assert!(matches!(client.receive(&stale), Received::Stale));
    assert!(!client.is_idle());
    assert_eq!(client.retransmit(), d);
    assert!(matches!(client.receive(&[0, 0]), Received::Stale));
    let fresh = encode_envelope(2, &Response::SeatsReserved { success: 1 }.encode());
    assert!(matches!(client.receive(&fresh), Received::Reply(_)));
    assert!(client.is_idle());
}

#[test]
fn error_reply_is_delivered() {
    let mut client = Client::new();
    client.send(&Request::FlightSummary { flight_id: 9 });
    let reply = encode_envelope(1, &[0, 2, b'n', b'o']);
    match client.receive(&reply) {
        Received::Reply(Response::Error { message }) => assert_eq!(message, "no"),
        other => panic!("unexpected {:?}", other),
    }
}

#[test]
fn unreadable_reply_ends_wait() {
    let mut client = Client::new();
    client.send(&Request::FlightSummary { flight_id: 9 });
    assert!(matches!(client.receive(&[0, 0, 0, 1, 2, 0]), Received::Unreadable));
    assert!(client.is_idle());
}

#[test]
fn subscription_opens_monitor_window() {
    let mut client = Client::new();
    client.send(&Request::Subscribe { flight_id: 1, interval_seconds: 60 });
    let reply = encode_envelope(1, &Response::Subscribed { success: 1 }.encode());
    assert!(matches!(client.receive(&reply), Received::Reply(Response::Subscribed { success: 1 })));
    assert!(!client.is_idle());
    assert!(client.monitor_open(0));
    assert!(client.monitor_open(59));
    assert!(!client.monitor_open(60));
    let push = SeatUpdate { flight_id: 1, seats: 7 }.encode_push();
    assert_eq!(client.monitor_push(&push), Some(SeatUpdate { flight_id: 1, seats: 7 }));
    assert_eq!(client.monitor_push(&[0, 0, 0, 1, 3, 1]), None);
    client.end_monitoring();
    assert!(client.is_idle());
}

#[test]
fn failed_subscription_opens_no_window() {
    let mut client = Client::new();
    client.send(&Request::Subscribe { flight_id: 5, interval_seconds: 60 });
    let reply = encode_envelope(1, &[0, 1, b'x']);
    client.receive(&reply);
    assert!(client.is_idle());
}
