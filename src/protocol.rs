//! Messages of the reservation protocol: requests, responses and seat-update
//! pushes, with the correlation-id envelope around them.
//!
//! A request payload is the service id followed by its fields; a response
//! payload is the handler tag followed by its fields. On the wire both travel
//! behind the four big-endian bytes of a correlation id. A push has no
//! correlation id: it is the handler tag followed by its fields.
use crate::codec::{
    be_u32, be_u32s, lemma_string_in_buffer, lemma_u32_array_in_buffer, lemma_u32_in_buffer,
    marshal_string, marshal_u32, marshal_u32_array, marshal_u8, string_bytes, u32_array_bytes,
    u32_bytes, unmarshal_string, unmarshal_u32, unmarshal_u32_array, utf8_text,
};
use vstd::prelude::*;
use vstd::utf8::*;

verus! {

/// Handler tag of the error response.
pub const TAG_ERROR: u8 = 0;

/// The six services that a request can ask for, by service id.
#[derive(Clone, Copy, Debug, PartialEq, Eq, Structural)]
pub enum RequestType {
    /// Service 1: flight ids for a route.
    QueryFlightIdentifiers,
    /// Service 2: departure, airfare, seats and baggage of one flight.
    QueryFlightDetails,
    /// Service 3: reserve seats on a flight.
    ReserveSeats,
    /// Service 4: subscribe to seat updates of a flight.
    RegisterForUpdates,
    /// Service 5: the earliest flights with free seats from a place.
    QueryEarliestFlights,
    /// Service 6: reserve baggage capacity on a flight.
    ReserveBaggage,
}

impl RequestType {
    pub open spec fn spec_service_id(self) -> u8 {
        match self {
            RequestType::QueryFlightIdentifiers => 1,
            RequestType::QueryFlightDetails => 2,
            RequestType::ReserveSeats => 3,
            RequestType::RegisterForUpdates => 4,
            RequestType::QueryEarliestFlights => 5,
            RequestType::ReserveBaggage => 6,
        }
    }

    /// The byte that names this service on the wire.
    pub fn service_id(&self) -> (r: u8)
        ensures
            r == self.spec_service_id(),
    {
        match self {
            RequestType::QueryFlightIdentifiers => 1,
            RequestType::QueryFlightDetails => 2,
            RequestType::ReserveSeats => 3,
            RequestType::RegisterForUpdates => 4,
            RequestType::QueryEarliestFlights => 5,
            RequestType::ReserveBaggage => 6,
        }
    }

    /// The service that `id` names, if any.
    pub fn from_service_id(id: u8) -> (r: Option<RequestType>)
        ensures
            r is Some <==> 1 <= id <= 6,
            r matches Some(t) ==> t.spec_service_id() == id,
    {
        match id {
            1 => Some(RequestType::QueryFlightIdentifiers),
            2 => Some(RequestType::QueryFlightDetails),
            3 => Some(RequestType::ReserveSeats),
            4 => Some(RequestType::RegisterForUpdates),
            5 => Some(RequestType::QueryEarliestFlights),
            6 => Some(RequestType::ReserveBaggage),
            _ => None,
        }
    }
}

/// A request as sent by a client, without its correlation id.
#[derive(Debug)]
pub enum Request {
    FlightIds { source: String, destination: String },
    FlightSummary { flight_id: u32 },
    ReserveSeats { flight_id: u32, seats: u32 },
    Subscribe { flight_id: u32, interval_seconds: u32 },
    EarliestFlights { source: String },
    ReserveBaggage { flight_id: u32, weight_kg: u32 },
}

/// Mathematical model of a request.
pub enum RequestView {
    FlightIds { source: Seq<char>, destination: Seq<char> },
    FlightSummary { flight_id: u32 },
    ReserveSeats { flight_id: u32, seats: u32 },
    Subscribe { flight_id: u32, interval_seconds: u32 },
    EarliestFlights { source: Seq<char> },
    ReserveBaggage { flight_id: u32, weight_kg: u32 },
}

impl View for Request {
    type V = RequestView;

    open spec fn view(&self) -> RequestView {
        match self {
            Request::FlightIds { source, destination } => RequestView::FlightIds {
                source: source@,
                destination: destination@,
            },
            Request::FlightSummary { flight_id } => RequestView::FlightSummary {
                flight_id: *flight_id,
            },
            Request::ReserveSeats { flight_id, seats } => RequestView::ReserveSeats {
                flight_id: *flight_id,
                seats: *seats,
            },
            Request::Subscribe { flight_id, interval_seconds } => RequestView::Subscribe {
                flight_id: *flight_id,
                interval_seconds: *interval_seconds,
            },
            Request::EarliestFlights { source } => RequestView::EarliestFlights {
                source: source@,
            },
            Request::ReserveBaggage { flight_id, weight_kg } => RequestView::ReserveBaggage {
                flight_id: *flight_id,
                weight_kg: *weight_kg,
            },
        }
    }
}

/// Payload bytes of a request: service id, then the fields in order.
pub open spec fn request_bytes(r: RequestView) -> Seq<u8> {
    match r {
        RequestView::FlightIds { source, destination } => seq![1u8] + string_bytes(source)
            + string_bytes(destination),
        RequestView::FlightSummary { flight_id } => seq![2u8] + u32_bytes(flight_id),
        RequestView::ReserveSeats { flight_id, seats } => seq![3u8] + u32_bytes(flight_id)
            + u32_bytes(seats),
        RequestView::Subscribe { flight_id, interval_seconds } => seq![4u8] + u32_bytes(flight_id)
            + u32_bytes(interval_seconds),
        RequestView::EarliestFlights { source } => seq![5u8] + string_bytes(source),
        RequestView::ReserveBaggage { flight_id, weight_kg } => seq![6u8] + u32_bytes(flight_id)
            + u32_bytes(weight_kg),
    }
}

/// Whether every string of a request fits its one-byte length prefix.
pub open spec fn request_fits(r: RequestView) -> bool {
    match r {
        RequestView::FlightIds { source, destination } => encode_utf8(source).len() <= 255
            && encode_utf8(destination).len() <= 255,
        RequestView::EarliestFlights { source } => encode_utf8(source).len() <= 255,
        _ => true,
    }
}

/// Why a request payload could not be decoded.
#[derive(Clone, Copy, Debug, PartialEq, Eq, Structural)]
pub enum RequestError {
    /// The payload ends before the fields of its service do.
    Truncated,
    /// The service id names no service.
    UnknownService(u8),
}

/// Whether a string's length byte and bytes lie within `b` from `i` on.
pub open spec fn string_fits(b: Seq<u8>, i: int) -> bool {
    0 <= i < b.len() && i + 1 + b[i] <= b.len()
}

/// The string encoded at `i` of `b`.
pub open spec fn string_at(b: Seq<u8>, i: int) -> Seq<char> {
    utf8_text(b.subrange(i + 1, i + 1 + b[i]))
}

/// The position just past the string encoded at `i` of `b`.
pub open spec fn string_end(b: Seq<u8>, i: int) -> int {
    i + 1 + b[i]
}

/// The big-endian `u32` at `i` of `b`.
pub open spec fn u32_at(b: Seq<u8>, i: int) -> u32 {
    be_u32(b.subrange(i, i + 4))
}

/// What a request payload decodes to. Bytes after the fields are ignored.
pub open spec fn parse_request(b: Seq<u8>) -> Result<RequestView, RequestError> {
    if b.len() == 0 {
        Err(RequestError::Truncated)
    } else if b[0] == 1 {
        if string_fits(b, 1) && string_fits(b, string_end(b, 1)) {
            Ok(
                RequestView::FlightIds {
                    source: string_at(b, 1),
                    destination: string_at(b, string_end(b, 1)),
                },
            )
        } else {
            Err(RequestError::Truncated)
        }
    } else if b[0] == 5 {
        if string_fits(b, 1) {
            Ok(RequestView::EarliestFlights { source: string_at(b, 1) })
        } else {
            Err(RequestError::Truncated)
        }
    } else if b[0] == 2 {
        if b.len() >= 5 {
            Ok(RequestView::FlightSummary { flight_id: u32_at(b, 1) })
        } else {
            Err(RequestError::Truncated)
        }
    } else if b[0] == 3 || b[0] == 4 || b[0] == 6 {
        if b.len() >= 9 {
            let (x, y) = (u32_at(b, 1), u32_at(b, 5));
            Ok(
                if b[0] == 3 {
                    RequestView::ReserveSeats { flight_id: x, seats: y }
                } else if b[0] == 4 {
                    RequestView::Subscribe { flight_id: x, interval_seconds: y }
                } else {
                    RequestView::ReserveBaggage { flight_id: x, weight_kg: y }
                },
            )
        } else {
            Err(RequestError::Truncated)
        }
    } else {
        Err(RequestError::UnknownService(b[0]))
    }
}

/// Reads the two `u32` fields that follow the service id.
fn read_two_u32(b: &[u8]) -> (r: (u32, u32))
    requires
        b@.len() >= 9,
    ensures
        r.0 == u32_at(b@, 1),
        r.1 == u32_at(b@, 5),
{
    let (x, i) = unmarshal_u32(b, 1);
    let (y, _) = unmarshal_u32(b, i);
    (x, y)
}

impl Request {
    /// The service that this request asks for.
    pub fn request_type(&self) -> (r: RequestType)
        ensures
            r.spec_service_id() == request_bytes(self@)[0],
    {
        match self {
            Request::FlightIds { .. } => RequestType::QueryFlightIdentifiers,
            Request::FlightSummary { .. } => RequestType::QueryFlightDetails,
            Request::ReserveSeats { .. } => RequestType::ReserveSeats,
            Request::Subscribe { .. } => RequestType::RegisterForUpdates,
            Request::EarliestFlights { .. } => RequestType::QueryEarliestFlights,
            Request::ReserveBaggage { .. } => RequestType::ReserveBaggage,
        }
    }

    /// The payload bytes of this request.
    pub fn encode(&self) -> (r: Vec<u8>)
        ensures
            r@ == request_bytes(self@),
    {
        let mut buf: Vec<u8> = Vec::new();
        match self {
            Request::FlightIds { source, destination } => {
                marshal_u8(1, &mut buf);
                marshal_string(source.as_str(), &mut buf);
                marshal_string(destination.as_str(), &mut buf);
            },
            Request::FlightSummary { flight_id } => {
                marshal_u8(2, &mut buf);
                marshal_u32(*flight_id, &mut buf);
            },
            Request::ReserveSeats { flight_id, seats } => {
                marshal_u8(3, &mut buf);
                marshal_u32(*flight_id, &mut buf);
                marshal_u32(*seats, &mut buf);
            },
            Request::Subscribe { flight_id, interval_seconds } => {
                marshal_u8(4, &mut buf);
                marshal_u32(*flight_id, &mut buf);
                marshal_u32(*interval_seconds, &mut buf);
            },
            Request::EarliestFlights { source } => {
                marshal_u8(5, &mut buf);
                marshal_string(source.as_str(), &mut buf);
            },
            Request::ReserveBaggage { flight_id, weight_kg } => {
                marshal_u8(6, &mut buf);
                marshal_u32(*flight_id, &mut buf);
                marshal_u32(*weight_kg, &mut buf);
            },
        }
        assert(buf@ =~= request_bytes(self@));
        buf
    }

    /// Decodes a request payload; bytes after its fields are ignored.
    pub fn decode(b: &[u8]) -> (r: Result<Request, RequestError>)
        ensures
            match (r, parse_request(b@)) {
                (Ok(q), Ok(v)) => q@ == v,
                (Err(e), Err(f)) => e == f,
                _ => false,
            },
    {
        let n = b.len();
        if n == 0 {
            return Err(RequestError::Truncated);
        }
        let id = b[0];
        if id == 1 {
            if n < 2 || 2 + (b[1] as usize) > n {
                return Err(RequestError::Truncated);
            }
            let (source, i) = unmarshal_string(b, 1);
            if i >= n || i + 1 + (b[i] as usize) > n {
                return Err(RequestError::Truncated);
            }
            let (destination, _) = unmarshal_string(b, i);
            Ok(Request::FlightIds { source, destination })
        } else if id == 5 {
            if n < 2 || 2 + (b[1] as usize) > n {
                return Err(RequestError::Truncated);
            }
            let (source, _) = unmarshal_string(b, 1);
            Ok(Request::EarliestFlights { source })
        } else if id == 2 {
            if n < 5 {
                return Err(RequestError::Truncated);
            }
            let (flight_id, _) = unmarshal_u32(b, 1);
            Ok(Request::FlightSummary { flight_id })
        } else if id == 3 || id == 4 || id == 6 {
            if n < 9 {
                return Err(RequestError::Truncated);
            }
            let (x, y) = read_two_u32(b);
            if id == 3 {
                Ok(Request::ReserveSeats { flight_id: x, seats: y })
            } else if id == 4 {
                Ok(Request::Subscribe { flight_id: x, interval_seconds: y })
            } else {
                Ok(Request::ReserveBaggage { flight_id: x, weight_kg: y })
            }
        } else {
            Err(RequestError::UnknownService(id))
        }
    }
}


/// Decoding the payload of a request gives the request back, when each of its
/// strings has at most 255 bytes.
pub proof fn lemma_request_round_trip(r: RequestView)
    requires
        request_fits(r),
    ensures
        parse_request(request_bytes(r)) == Ok::<RequestView, RequestError>(r),
{
    let b = request_bytes(r);
    match r {
        RequestView::FlightIds { source, destination } => {
            lemma_string_in_buffer(seq![1u8], source, string_bytes(destination));
            assert(b =~= seq![1u8] + string_bytes(source) + string_bytes(destination));
            let pre2 = seq![1u8] + string_bytes(source);
            lemma_string_in_buffer(pre2, destination, Seq::empty());
            assert(b =~= pre2 + string_bytes(destination) + Seq::<u8>::empty());
        },
        RequestView::EarliestFlights { source } => {
            lemma_string_in_buffer(seq![5u8], source, Seq::empty());
            assert(b =~= seq![5u8] + string_bytes(source) + Seq::<u8>::empty());
        },
        RequestView::FlightSummary { flight_id } => {
            lemma_u32_in_buffer(seq![2u8], flight_id, Seq::empty());
            assert(b =~= seq![2u8] + u32_bytes(flight_id) + Seq::<u8>::empty());
        },
        RequestView::ReserveSeats { flight_id: x, seats: y } => {
            lemma_two_u32_in_buffer(3, x, y);
        },
        RequestView::Subscribe { flight_id: x, interval_seconds: y } => {
            lemma_two_u32_in_buffer(4, x, y);
        },
        RequestView::ReserveBaggage { flight_id: x, weight_kg: y } => {
            lemma_two_u32_in_buffer(6, x, y);
        },
    }
}

/// Both fields of a one-byte tag followed by two `u32` read back.
proof fn lemma_two_u32_in_buffer(tag: u8, x: u32, y: u32)
    ensures
        ({
            let b = seq![tag] + u32_bytes(x) + u32_bytes(y);
            &&& b.len() == 9
            &&& b[0] == tag
            &&& u32_at(b, 1) == x
            &&& u32_at(b, 5) == y
        }),
{
    let b = seq![tag] + u32_bytes(x) + u32_bytes(y);
    lemma_u32_in_buffer(seq![tag], x, u32_bytes(y));
    lemma_u32_in_buffer(seq![tag] + u32_bytes(x), y, Seq::empty());
    assert(b =~= seq![tag] + u32_bytes(x) + Seq::<u8>::empty() + u32_bytes(y));
    assert(b =~= (seq![tag] + u32_bytes(x)) + u32_bytes(y) + Seq::<u8>::empty());
}


/// A response payload as sent by the server, without its correlation id.
#[derive(Debug)]
pub enum Response {
    /// Tag 0: the request failed, for the reason given.
    Error { message: String },
    /// Tag 1: the flights of a route.
    FlightIds { flight_ids: Vec<u32> },
    /// Tag 2: one flight's summary; the airfare is the bit pattern of an IEEE-754 single.
    FlightSummary { departure_time: u32, airfare_bits: u32, seats: u32, baggage_capacity_kg: u32 },
    /// Tag 3: seats were reserved.
    SeatsReserved { success: u8 },
    /// Tag 4: the subscription was recorded.
    Subscribed { success: u8 },
    /// Tag 5: the earliest flights from a place.
    EarliestFlights { flight_ids: Vec<u32> },
    /// Tag 6: baggage capacity was reserved.
    BaggageReserved { success: u8 },
}

/// Mathematical model of a response.
pub enum ResponseView {
    Error { message: Seq<char> },
    FlightIds { flight_ids: Seq<u32> },
    FlightSummary { departure_time: u32, airfare_bits: u32, seats: u32, baggage_capacity_kg: u32 },
    SeatsReserved { success: u8 },
    Subscribed { success: u8 },
    EarliestFlights { flight_ids: Seq<u32> },
    BaggageReserved { success: u8 },
}

impl View for Response {
    type V = ResponseView;

    open spec fn view(&self) -> ResponseView {
        match self {
            Response::Error { message } => ResponseView::Error { message: message@ },
            Response::FlightIds { flight_ids } => ResponseView::FlightIds {
                flight_ids: flight_ids@,
            },
            Response::FlightSummary {
                departure_time,
                airfare_bits,
                seats,
                baggage_capacity_kg,
            } => ResponseView::FlightSummary {
                departure_time: *departure_time,
                airfare_bits: *airfare_bits,
                seats: *seats,
                baggage_capacity_kg: *baggage_capacity_kg,
            },
            Response::SeatsReserved { success } => ResponseView::SeatsReserved {
                success: *success,
            },
            Response::Subscribed { success } => ResponseView::Subscribed { success: *success },
            Response::EarliestFlights { flight_ids } => ResponseView::EarliestFlights {
                flight_ids: flight_ids@,
            },
            Response::BaggageReserved { success } => ResponseView::BaggageReserved {
                success: *success,
            },
        }
    }
}

/// Payload bytes of a response: handler tag, then the fields in order.
pub open spec fn response_bytes(r: ResponseView) -> Seq<u8> {
    match r {
        ResponseView::Error { message } => seq![0u8] + string_bytes(message),
        ResponseView::FlightIds { flight_ids } => seq![1u8] + u32_array_bytes(flight_ids),
        ResponseView::FlightSummary {
            departure_time,
            airfare_bits,
            seats,
            baggage_capacity_kg,
        } => seq![2u8] + u32_bytes(departure_time) + u32_bytes(airfare_bits) + u32_bytes(seats)
            + u32_bytes(baggage_capacity_kg),
        ResponseView::SeatsReserved { success } => seq![3u8, success],
        ResponseView::Subscribed { success } => seq![4u8, success],
        ResponseView::EarliestFlights { flight_ids } => seq![5u8] + u32_array_bytes(flight_ids),
        ResponseView::BaggageReserved { success } => seq![6u8, success],
    }
}

/// Whether every string and array of a response fits its one-byte length prefix.
pub open spec fn response_fits(r: ResponseView) -> bool {
    match r {
        ResponseView::Error { message } => encode_utf8(message).len() <= 255,
        ResponseView::FlightIds { flight_ids } => flight_ids.len() <= 255,
        ResponseView::EarliestFlights { flight_ids } => flight_ids.len() <= 255,
        _ => true,
    }
}

/// Whether an array's count byte and elements lie within `b` from `i` on.
pub open spec fn u32_array_fits(b: Seq<u8>, i: int) -> bool {
    0 <= i < b.len() && i + 1 + 4 * b[i] <= b.len()
}

/// The array of `u32` encoded at `i` of `b`.
pub open spec fn u32_array_at(b: Seq<u8>, i: int) -> Seq<u32> {
    be_u32s(b, i + 1, b[i] as nat)
}

/// What a response payload decodes to: `None` when it is cut short or its
/// tag names no response. Bytes after the fields are ignored.
pub open spec fn parse_response(b: Seq<u8>) -> Option<ResponseView> {
    if b.len() == 0 {
        None
    } else if b[0] == 0 {
        if string_fits(b, 1) {
            Some(ResponseView::Error { message: string_at(b, 1) })
        } else {
            None
        }
    } else if b[0] == 1 || b[0] == 5 {
        if u32_array_fits(b, 1) {
            Some(
                if b[0] == 1 {
                    ResponseView::FlightIds { flight_ids: u32_array_at(b, 1) }
                } else {
                    ResponseView::EarliestFlights { flight_ids: u32_array_at(b, 1) }
                },
            )
        } else {
            None
        }
    } else if b[0] == 2 {
        if b.len() >= 17 {
            Some(
                ResponseView::FlightSummary {
                    departure_time: u32_at(b, 1),
                    airfare_bits: u32_at(b, 5),
                    seats: u32_at(b, 9),
                    baggage_capacity_kg: u32_at(b, 13),
                },
            )
        } else {
            None
        }
    } else if b[0] == 3 || b[0] == 4 || b[0] == 6 {
        if b.len() >= 2 {
            Some(
                if b[0] == 3 {
                    ResponseView::SeatsReserved { success: b[1] }
                } else if b[0] == 4 {
                    ResponseView::Subscribed { success: b[1] }
                } else {
                    ResponseView::BaggageReserved { success: b[1] }
                },
            )
        } else {
            None
        }
    } else {
        None
    }
}

impl Response {
    /// The payload bytes of this response.
    pub fn encode(&self) -> (r: Vec<u8>)
        ensures
            r@ == response_bytes(self@),
    {
        let mut buf: Vec<u8> = Vec::new();
        match self {
            Response::Error { message } => {
                marshal_u8(0, &mut buf);
                marshal_string(message.as_str(), &mut buf);
            },
            Response::FlightIds { flight_ids } => {
                marshal_u8(1, &mut buf);
                marshal_u32_array(flight_ids.as_slice(), &mut buf);
            },
            Response::FlightSummary {
                departure_time,
                airfare_bits,
                seats,
                baggage_capacity_kg,
            } => {
                marshal_u8(2, &mut buf);
                marshal_u32(*departure_time, &mut buf);
                marshal_u32(*airfare_bits, &mut buf);
                marshal_u32(*seats, &mut buf);
                marshal_u32(*baggage_capacity_kg, &mut buf);
            },
            Response::SeatsReserved { success } => {
                marshal_u8(3, &mut buf);
                marshal_u8(*success, &mut buf);
            },
            Response::Subscribed { success } => {
                marshal_u8(4, &mut buf);
                marshal_u8(*success, &mut buf);
            },
            Response::EarliestFlights { flight_ids } => {
                marshal_u8(5, &mut buf);
                marshal_u32_array(flight_ids.as_slice(), &mut buf);
            },
            Response::BaggageReserved { success } => {
                marshal_u8(6, &mut buf);
                marshal_u8(*success, &mut buf);
            },
        }
        assert(buf@ =~= response_bytes(self@));
        buf
    }

    /// Decodes a response payload; bytes after its fields are ignored.
    pub fn decode(b: &[u8]) -> (r: Option<Response>)
        ensures
            match (r, parse_response(b@)) {
                (Some(q), Some(v)) => q@ == v,
                (None, None) => true,
                _ => false,
            },
    {
        let n = b.len();
        if n == 0 {
            return None;
        }
        let tag = b[0];
        if tag == 0 {
            if n < 2 || 2 + (b[1] as usize) > n {
                return None;
            }
            let (message, _) = unmarshal_string(b, 1);
            Some(Response::Error { message })
        } else if tag == 1 || tag == 5 {
            if n < 2 || 2 + 4 * (b[1] as usize) > n {
                return None;
            }
            let (flight_ids, _) = unmarshal_u32_array(b, 1);
            if tag == 1 {
                Some(Response::FlightIds { flight_ids })
            } else {
                Some(Response::EarliestFlights { flight_ids })
            }
        } else if tag == 2 {
            if n < 17 {
                return None;
            }
            let (departure_time, i) = unmarshal_u32(b, 1);
            let (airfare_bits, i) = unmarshal_u32(b, i);
            let (seats, i) = unmarshal_u32(b, i);
            let (baggage_capacity_kg, _) = unmarshal_u32(b, i);
            Some(
                Response::FlightSummary {
                    departure_time,
                    airfare_bits,
                    seats,
                    baggage_capacity_kg,
                },
            )
        } else if tag == 3 || tag == 4 || tag == 6 {
            if n < 2 {
                return None;
            }
            let success = b[1];
            if tag == 3 {
                Some(Response::SeatsReserved { success })
            } else if tag == 4 {
                Some(Response::Subscribed { success })
            } else {
                Some(Response::BaggageReserved { success })
            }
        } else {
            None
        }
    }
}

/// Decoding the payload of a response gives the response back, when its
/// string or array fits its one-byte length prefix.
pub proof fn lemma_response_round_trip(r: ResponseView)
    requires
        response_fits(r),
    ensures
        parse_response(response_bytes(r)) == Some(r),
{
    let b = response_bytes(r);
    match r {
        ResponseView::Error { message } => {
            lemma_string_in_buffer(seq![0u8], message, Seq::empty());
            assert(b =~= seq![0u8] + string_bytes(message) + Seq::<u8>::empty());
        },
        ResponseView::FlightIds { flight_ids } => {
            lemma_u32_array_in_buffer(seq![1u8], flight_ids, Seq::empty());
            assert(b =~= seq![1u8] + u32_array_bytes(flight_ids) + Seq::<u8>::empty());
        },
        ResponseView::EarliestFlights { flight_ids } => {
            lemma_u32_array_in_buffer(seq![5u8], flight_ids, Seq::empty());
            assert(b =~= seq![5u8] + u32_array_bytes(flight_ids) + Seq::<u8>::empty());
        },
        ResponseView::FlightSummary {
            departure_time: a,
            airfare_bits: f,
            seats: s,
            baggage_capacity_kg: g,
        } => {
            let tag = seq![2u8];
            let with_time = tag + u32_bytes(a);
            let with_fare = with_time + u32_bytes(f);
            let with_seats = with_fare + u32_bytes(s);
            lemma_u32_in_buffer(tag, a, u32_bytes(f) + u32_bytes(s) + u32_bytes(g));
            lemma_u32_in_buffer(with_time, f, u32_bytes(s) + u32_bytes(g));
            lemma_u32_in_buffer(with_fare, s, u32_bytes(g));
            lemma_u32_in_buffer(with_seats, g, Seq::empty());
            assert(b =~= tag + u32_bytes(a) + (u32_bytes(f) + u32_bytes(s) + u32_bytes(g)));
            assert(b =~= with_time + u32_bytes(f) + (u32_bytes(s) + u32_bytes(g)));
            assert(b =~= with_fare + u32_bytes(s) + u32_bytes(g));
            assert(b =~= with_seats + u32_bytes(g) + Seq::<u8>::empty());
        },
        _ => {},
    }
}

/// A seat-availability update pushed to a subscriber.
#[derive(Clone, Copy, Debug, PartialEq, Eq, Structural)]
pub struct SeatUpdate {
    pub flight_id: u32,
    pub seats: u32,
}

/// Bytes of a push: tag 4, the flight id and its seats, with no correlation id.
pub open spec fn push_bytes(u: SeatUpdate) -> Seq<u8> {
    seq![4u8] + u32_bytes(u.flight_id) + u32_bytes(u.seats)
}

/// What a push datagram decodes to: `None` when it is cut short or its tag is not 4.
pub open spec fn parse_push(b: Seq<u8>) -> Option<SeatUpdate> {
    if b.len() >= 9 && b[0] == 4 {
        Some(SeatUpdate { flight_id: u32_at(b, 1), seats: u32_at(b, 5) })
    } else {
        None
    }
}

impl SeatUpdate {
    /// The push datagram announcing this update.
    pub fn encode_push(&self) -> (r: Vec<u8>)
        ensures
            r@ == push_bytes(*self),
    {
        let mut buf: Vec<u8> = Vec::new();
        marshal_u8(4, &mut buf);
        marshal_u32(self.flight_id, &mut buf);
        marshal_u32(self.seats, &mut buf);
        assert(buf@ =~= push_bytes(*self));
        buf
    }

    /// Decodes a push datagram.
    pub fn decode_push(b: &[u8]) -> (r: Option<SeatUpdate>)
        ensures
            r == parse_push(b@),
    {
        if b.len() >= 9 && b[0] == 4 {
            let (x, y) = read_two_u32(b);
            Some(SeatUpdate { flight_id: x, seats: y })
        } else {
            None
        }
    }
}

/// Decoding a push gives the update back.
pub proof fn lemma_push_round_trip(u: SeatUpdate)
    ensures
        parse_push(push_bytes(u)) == Some(u),
{
    lemma_two_u32_in_buffer(4, u.flight_id, u.seats);
}

/// A datagram: the correlation id's four bytes, then the payload.
pub open spec fn envelope_bytes(correlation_id: u32, payload: Seq<u8>) -> Seq<u8> {
    u32_bytes(correlation_id) + payload
}

/// Frames a request or response payload behind its correlation id.
pub fn encode_envelope(correlation_id: u32, payload: &[u8]) -> (r: Vec<u8>)
    ensures
        r@ == envelope_bytes(correlation_id, payload@),
{
    let mut buf: Vec<u8> = Vec::new();
    marshal_u32(correlation_id, &mut buf);
    let ghost head = buf@;
    let n = payload.len();
    let mut k: usize = 0;
    while k < n
        invariant
            k <= n,
            n == payload@.len(),
            head == u32_bytes(correlation_id),
            buf@ == head + payload@.take(k as int),
        decreases n - k,
    {
        buf.push(payload[k]);
        assert(payload@.take(k + 1) == payload@.take(k as int).push(payload@[k as int]));
        k += 1;
    }
    assert(payload@.take(n as int) == payload@);
    buf
}

/// Frames a request behind its correlation id.
pub fn encode_request(correlation_id: u32, request: &Request) -> (r: Vec<u8>)
    ensures
        r@ == envelope_bytes(correlation_id, request_bytes(request@)),
{
    let payload = request.encode();
    encode_envelope(correlation_id, payload.as_slice())
}

/// Splits a datagram into its correlation id and payload; `None` when it is
/// shorter than a correlation id.
pub fn decode_envelope(d: &[u8]) -> (r: Option<(u32, &[u8])>)
    ensures
        r is Some <==> d@.len() >= 4,
        r matches Some((id, payload)) ==> id == u32_at(d@, 0) && payload@ == d@.subrange(
            4,
            d@.len() as int,
        ),
{
    if d.len() < 4 {
        None
    } else {
        let (id, i) = unmarshal_u32(d, 0);
        Some((id, &d[i..d.len()]))
    }
}

/// Splitting a framed payload gives back its correlation id and payload.
pub proof fn lemma_envelope_round_trip(correlation_id: u32, payload: Seq<u8>)
    ensures
        ({
            let d = envelope_bytes(correlation_id, payload);
            &&& d.len() >= 4
            &&& u32_at(d, 0) == correlation_id
            &&& d.subrange(4, d.len() as int) == payload
        }),
{
    let d = envelope_bytes(correlation_id, payload);
    lemma_u32_in_buffer(Seq::empty(), correlation_id, payload);
    assert(d =~= Seq::<u8>::empty() + u32_bytes(correlation_id) + payload);
    assert(d.subrange(4, d.len() as int) =~= payload);
}

/// A whole request datagram decodes to its correlation id and request.
pub proof fn lemma_request_datagram_round_trip(correlation_id: u32, r: RequestView)
    requires
        request_fits(r),
    ensures
        ({
            let d = envelope_bytes(correlation_id, request_bytes(r));
            &&& d.len() >= 4
            &&& u32_at(d, 0) == correlation_id
            &&& parse_request(d.subrange(4, d.len() as int)) == Ok::<RequestView, RequestError>(r)
        }),
{
    lemma_envelope_round_trip(correlation_id, request_bytes(r));
    lemma_request_round_trip(r);
}

/// A whole reply datagram decodes to its correlation id and response.
pub proof fn lemma_response_datagram_round_trip(correlation_id: u32, r: ResponseView)
    requires
        response_fits(r),
    ensures
        ({
            let d = envelope_bytes(correlation_id, response_bytes(r));
            &&& d.len() >= 4
            &&& u32_at(d, 0) == correlation_id
            &&& parse_response(d.subrange(4, d.len() as int)) == Some(r)
        }),
{
    lemma_envelope_round_trip(correlation_id, response_bytes(r));
    lemma_response_round_trip(r);
}

} // verus!
