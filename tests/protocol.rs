use flight_rpc::protocol::{
    decode_envelope, encode_envelope, encode_request, Request, RequestError, RequestType,
    Response, SeatUpdate,
};

fn assert_request_round_trip(r: Request) {
    let bytes = r.encode();
    let back = Request::decode(&bytes).expect("decodes");
    assert_eq!(format!("{:?}", back), format!("{:?}", r));
}

fn assert_response_round_trip(r: Response) {
    let bytes = r.encode();
    let back = Response::decode(&bytes).expect("decodes");
    assert_eq!(format!("{:?}", back), format!("{:?}", r));
}

#[test]
fn request_layouts() {
    let r = Request::ReserveSeats { flight_id: 1, seats: 3 };
    assert_eq!(r.encode(), vec![3, 0, 0, 0, 1, 0, 0, 0, 3]);
    let r = Request::FlightIds { source: "A".to_string(), destination: "B".to_string() };
    assert_eq!(r.encode(), vec![1, 1, b'A', 1, b'B']);
    let r = Request::EarliestFlights { source: "A".to_string() };
    assert_eq!(r.encode(), vec![5, 1, b'A']);
    let r = Request::FlightSummary { flight_id: 258 };
    assert_eq!(r.encode(), vec![2, 0, 0, 1, 2]);
    let r = Request::Subscribe { flight_id: 1, interval_seconds: 60 };
    assert_eq!(r.encode(), vec![4, 0, 0, 0, 1, 0, 0, 0, 60]);
    let r = Request::ReserveBaggage { flight_id: 2, weight_kg: 40 };
    assert_eq!(r.encode(), vec![6, 0, 0, 0, 2, 0, 0, 0, 40]);
}

#[test]
fn request_round_trips() {
    assert_request_round_trip(Request::FlightIds { source: String::new(), destination: "z".repeat(255) });
    assert_request_round_trip(Request::FlightSummary { flight_id: u32::MAX });
    assert_request_round_trip(Request::ReserveSeats { flight_id: 0, seats: u32::MAX });
    assert_request_round_trip(Request::Subscribe { flight_id: 7, interval_seconds: 31_536_000 });
    assert_request_round_trip(Request::EarliestFlights { source: "Paris".to_string() });
    assert_request_round_trip(Request::ReserveBaggage { flight_id: u32::MAX, weight_kg: 0 });
}

#[test]
fn response_round_trips() {
    assert_response_round_trip(Response::Error { message: "No flight found for the given flight ID.".to_string() });
    assert_response_round_trip(Response::Error { message: String::new() });
    assert_response_round_trip(Response::FlightIds { flight_ids: vec![] });
    assert_response_round_trip(Response::FlightIds { flight_ids: (0..255).collect() });
    assert_response_round_trip(Response::FlightSummary {
        departure_time: 1_700_000_000,
        airfare_bits: 10.1f32.to_bits(),
        seats: u32::MAX,
        baggage_capacity_kg: 0,
    });
    assert_response_round_trip(Response::SeatsReserved { success: 1 });
    assert_response_round_trip(Response::Subscribed { success: 1 });
    assert_response_round_trip(Response::EarliestFlights { flight_ids: vec![1, 2] });
    assert_response_round_trip(Response::BaggageReserved { success: 1 });
}

#[test]
fn summary_layout_carries_airfare_bits() {
    let r = Response::FlightSummary {
        departure_time: 1,
        airfare_bits: 10.1f32.to_bits(),
        seats: 7,
        baggage_capacity_kg: 1000,
    };
    let b = r.encode();
    assert_eq!(b.len(), 17);
    assert_eq!(b[0], 2);
    assert_eq!(&b[5..9], &10.1f32.to_be_bytes());
}

#[test]
fn truncated_request_is_reported() {
    assert_eq!(Request::decode(&[]).unwrap_err(), RequestError::Truncated);
    assert_eq!(Request::decode(&[3, 0, 0, 0, 1, 0, 0]).unwrap_err(), RequestError::Truncated);
    assert_eq!(Request::decode(&[1, 5, b'a']).unwrap_err(), RequestError::Truncated);
    assert_eq!(Request::decode(&[2, 0, 0]).unwrap_err(), RequestError::Truncated);
}

#[test]
fn unknown_service_is_reported() {
    assert_eq!(Request::decode(&[9, 0, 0]).unwrap_err(), RequestError::UnknownService(9));
    assert_eq!(Request::decode(&[0]).unwrap_err(), RequestError::UnknownService(0));
}

#[test]
fn trailing_bytes_are_ignored() {
    let r = Request::decode(&[2, 0, 0, 0, 5, 99, 98]).unwrap();
    assert!(matches!(r, Request::FlightSummary { flight_id: 5 }));
}

#[test]
fn bad_responses_decode_to_none() {
    assert!(Response::decode(&[]).is_none());
    assert!(Response::decode(&[7, 1]).is_none());
    assert!(Response::decode(&[3]).is_none());
    assert!(Response::decode(&[1, 2, 0, 0, 0, 1]).is_none());
    assert!(Response::decode(&[0, 4, b'a']).is_none());
}

#[test]
fn push_round_trip_and_layout() {
    let u = SeatUpdate { flight_id: 1, seats: 7 };
    let b = u.encode_push();
    assert_eq!(b, vec![4, 0, 0, 0, 1, 0, 0, 0, 7]);
    assert_eq!(SeatUpdate::decode_push(&b), Some(u));
    assert_eq!(SeatUpdate::decode_push(&b[..8]), None);
    assert_eq!(SeatUpdate::decode_push(&[3, 0, 0, 0, 1, 0, 0, 0, 7]), None);
}

#[test]
fn envelope_round_trip() {
    let d = encode_envelope(u32::MAX, &[4, 1]);
    assert_eq!(d, vec![255, 255, 255, 255, 4, 1]);
    let (id, payload) = decode_envelope(&d).unwrap();
    assert_eq!(id, u32::MAX);
    assert_eq!(payload, &[4, 1]);
    assert!(decode_envelope(&[0, 0, 1]).is_none());
    let (id, payload) = decode_envelope(&[0, 0, 0, 0]).unwrap();
    assert_eq!(id, 0);
    assert!(payload.is_empty());
}

#[test]
fn request_envelope_layout() {
    let d = encode_request(2, &Request::FlightSummary { flight_id: 1 });
    assert_eq!(d, vec![0, 0, 0, 2, 2, 0, 0, 0, 1]);
}

#[test]
fn request_types_by_service_id() {
    assert_eq!(RequestType::from_service_id(0), None);
    assert_eq!(RequestType::from_service_id(7), None);
    for id in 1..=6u8 {
        assert_eq!(RequestType::from_service_id(id).unwrap().service_id(), id);
    }
    assert_eq!(RequestType::from_service_id(3), Some(RequestType::ReserveSeats));
    let r = Request::Subscribe { flight_id: 1, interval_seconds: 1 };
    assert_eq!(r.request_type(), RequestType::RegisterForUpdates);
}
