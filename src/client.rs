//! The client side: building request payloads from what the user typed, and
//! the request/retry state machine that correlates replies, drops stale ones
//! and holds the subscription window.
use crate::protocol::{
    envelope_bytes, parse_push, parse_response, request_bytes, u32_at, Request, RequestView,
    Response, ResponseView, SeatUpdate, decode_envelope, encode_envelope,
};
use vstd::prelude::*;
use vstd::string::*;

verus! {

/// Heaviest baggage, in kg, that one reservation may ask for.
pub const MAX_BAGGAGE_KG: u32 = 40;

/// Longest subscription, in seconds: one year.
pub const SECONDS_IN_YEAR: u32 = 31536000;

/// Seconds to wait for a reply before sending the request again.
pub const DEFAULT_TIMEOUT: u32 = 3;

/// Whether `c` has the Unicode `Alphabetic` property.
pub uninterp spec fn alphabetic(c: char) -> bool;

/// Relies on `char::is_alphabetic`: the Unicode `Alphabetic` property of `c`.
#[verifier::external_body]
fn is_alphabetic(c: char) -> (r: bool)
    ensures
        r == alphabetic(c),
{
    c.is_alphabetic()
}

/// Every character of `s` is alphabetic.
pub open spec fn all_letters(s: Seq<char>) -> bool {
    forall|i: int| 0 <= i < s.len() ==> alphabetic(#[trigger] s[i])
}

/// What the user typed that cannot be sent.
#[derive(Clone, Copy, Debug, PartialEq, Eq, Structural)]
pub enum InputError {
    SourceNotLetters,
    DestinationNotLetters,
    BaggageTooHeavy,
    IntervalTooLong,
}

/// The line shown to the user for each input error.
pub open spec fn input_error_message(e: InputError) -> Seq<char> {
    match e {
        InputError::SourceNotLetters => "Source must be made up of only letters"@,
        InputError::DestinationNotLetters => "Destination must be made up of only letters"@,
        InputError::BaggageTooHeavy => "Baggage weight must be less than or equal to 40kg"@,
        InputError::IntervalTooLong => "Monitor interval is too big."@,
    }
}

impl InputError {
    /// A line for the user.
    pub fn message(&self) -> (r: &'static str)
        ensures
            r@ == input_error_message(*self),
    {
        match self {
            InputError::SourceNotLetters => "Source must be made up of only letters",
            InputError::DestinationNotLetters => "Destination must be made up of only letters",
            InputError::BaggageTooHeavy => "Baggage weight must be less than or equal to 40kg",
            InputError::IntervalTooLong => "Monitor interval is too big.",
        }
    }
}

/// Whether every character of `s` is alphabetic.
fn letters_only(s: &str) -> (r: bool)
    ensures
        r == all_letters(s@),
{
    let n = s.unicode_len();
    let mut k: usize = 0;
    while k < n
        invariant
            k <= n,
            n == s@.len(),
            forall|i: int| 0 <= i < k ==> alphabetic(#[trigger] s@[i]),
        decreases n - k,
    {
        if !is_alphabetic(s.get_char(k)) {
            return false;
        }
        k += 1;
    }
    true
}

/// The request for a route query from `source` to `destination`; both must be
/// letters only.
pub fn prepare_get_flight_identifiers(source: &str, destination: &str) -> (r: Result<
    Request,
    InputError,
>)
    ensures
        !all_letters(source@) ==> r == Err::<Request, InputError>(InputError::SourceNotLetters),
        all_letters(source@) && !all_letters(destination@) ==> r == Err::<Request, InputError>(
            InputError::DestinationNotLetters,
        ),
        all_letters(source@) && all_letters(destination@) ==> (r matches Ok(q) && q@ == (
        RequestView::FlightIds { source: source@, destination: destination@ })),
{
    if !letters_only(source) {
        return Err(InputError::SourceNotLetters);
    }
    if !letters_only(destination) {
        return Err(InputError::DestinationNotLetters);
    }
    let request = Request::FlightIds {
        source: String::from_str(source),
        destination: String::from_str(destination),
    };
    Ok(request)
}

/// The request for a summary query for flight `flight_id`.
pub fn prepare_get_flight_summary(flight_id: u32) -> (r: Request)
    ensures
        r@ == (RequestView::FlightSummary { flight_id }),
{
    Request::FlightSummary { flight_id }
}

/// The request for a reservation of `seats` seats on flight `flight_id`.
pub fn prepare_reserve_seats(flight_id: u32, seats: u32) -> (r: Request)
    ensures
        r@ == (RequestView::ReserveSeats { flight_id, seats }),
{
    Request::ReserveSeats { flight_id, seats }
}

/// The request for a subscription to flight `flight_id` for `monitor_interval`
/// seconds, at most a year.
pub fn prepare_monitor_seat_availability(flight_id: u32, monitor_interval: u32) -> (r: Result<
    Request,
    InputError,
>)
    ensures
        monitor_interval > SECONDS_IN_YEAR ==> r == Err::<Request, InputError>(
            InputError::IntervalTooLong,
        ),
        monitor_interval <= SECONDS_IN_YEAR ==> (r matches Ok(q) && q@ == (RequestView::Subscribe {
            flight_id,
            interval_seconds: monitor_interval,
        })),
{
    if monitor_interval > SECONDS_IN_YEAR {
        return Err(InputError::IntervalTooLong);
    }
    Ok(Request::Subscribe { flight_id, interval_seconds: monitor_interval })
}

/// The request for a query for the earliest flights from `source`, which must be
/// letters only.
pub fn prepare_earliest_flight_ids(source: &str) -> (r: Result<Request, InputError>)
    ensures
        !all_letters(source@) ==> r == Err::<Request, InputError>(InputError::SourceNotLetters),
        all_letters(source@) ==> (r matches Ok(q) && q@ == (RequestView::EarliestFlights {
            source: source@,
        })),
{
    if !letters_only(source) {
        return Err(InputError::SourceNotLetters);
    }
    Ok(Request::EarliestFlights { source: String::from_str(source) })
}

/// The request for a reservation of `baggage_weight` kg, at most 40, on flight
/// `flight_id`.
pub fn prepare_reserve_baggage(flight_id: u32, baggage_weight: u32) -> (r: Result<
    Request,
    InputError,
>)
    ensures
        baggage_weight > MAX_BAGGAGE_KG ==> r == Err::<Request, InputError>(
            InputError::BaggageTooHeavy,
        ),
        baggage_weight <= MAX_BAGGAGE_KG ==> (r matches Ok(q) && q@ == (RequestView::ReserveBaggage {
            flight_id,
            weight_kg: baggage_weight,
        })),
{
    if baggage_weight > MAX_BAGGAGE_KG {
        return Err(InputError::BaggageTooHeavy);
    }
    Ok(Request::ReserveBaggage { flight_id, weight_kg: baggage_weight })
}

/// Where the client's single thread of control stands.
#[derive(Debug)]
pub enum Phase {
    /// No request outstanding.
    Idle,
    /// Waiting for the reply to `correlation_id`; `datagram` is what was sent,
    /// and `monitor_seconds` the window to hold if it subscribes.
    Waiting { correlation_id: u32, datagram: Vec<u8>, monitor_seconds: Option<u32> },
    /// Listening for seat updates for `interval_seconds` after a subscription.
    Monitoring { interval_seconds: u32 },
}

/// Mathematical model of a phase.
pub enum PhaseView {
    Idle,
    Waiting { correlation_id: u32, datagram: Seq<u8>, monitor_seconds: Option<u32> },
    Monitoring { interval_seconds: u32 },
}

/// Mathematical model of a client.
pub struct ClientView {
    /// The correlation id of the latest request; 0 before the first.
    pub last_id: u32,
    pub phase: PhaseView,
}

/// What a datagram received while waiting means.
#[derive(Debug)]
pub enum Received {
    /// Too short to hold a correlation id, or the reply to an earlier
    /// request: dropped, and the wait goes on.
    Stale,
    /// The reply to the outstanding request.
    Reply(Response),
    /// The outstanding request's correlation id, with a payload that does
    /// not decode.
    Unreadable,
}

/// The request/retry state machine of a client.
pub struct Client {
    last_id: u32,
    phase: Phase,
}

impl View for Client {
    type V = ClientView;

    closed spec fn view(&self) -> ClientView {
        ClientView {
            last_id: self.last_id,
            phase: match self.phase {
                Phase::Idle => PhaseView::Idle,
                Phase::Waiting { correlation_id, datagram, monitor_seconds } => PhaseView::Waiting {
                    correlation_id,
                    datagram: datagram@,
                    monitor_seconds,
                },
                Phase::Monitoring { interval_seconds } => PhaseView::Monitoring {
                    interval_seconds,
                },
            },
        }
    }
}

/// The subscription window a request opens once it succeeds, if any.
pub open spec fn monitor_window(q: RequestView) -> Option<u32> {
    match q {
        RequestView::Subscribe { interval_seconds, .. } => Some(interval_seconds),
        _ => None,
    }
}

/// The phase after the reply `reply` to a request that would open the
/// window `monitor_seconds`: the window opens on a successful subscription.
pub open spec fn phase_after(monitor_seconds: Option<u32>, reply: ResponseView) -> PhaseView {
    match (monitor_seconds, reply) {
        (Some(s), ResponseView::Subscribed { success }) => if success == 1 {
            PhaseView::Monitoring { interval_seconds: s }
        } else {
            PhaseView::Idle
        },
        _ => PhaseView::Idle,
    }
}

impl Client {
    /// A client that has sent nothing.
    pub fn new() -> (r: Client)
        ensures
            r@ == (ClientView { last_id: 0, phase: PhaseView::Idle }),
    {
        Client { last_id: 0, phase: Phase::Idle }
    }

    /// The correlation id of the latest request.
    pub fn last_id(&self) -> (r: u32)
        ensures
            r == self@.last_id,
    {
        self.last_id
    }

    /// Whether no request is outstanding and no window is open.
    pub fn is_idle(&self) -> (r: bool)
        ensures
            r == (self@.phase is Idle),
    {
        match self.phase {
            Phase::Idle => true,
            _ => false,
        }
    }

    /// Starts a request under the next correlation id and returns the
    /// datagram to send.
    pub fn send(&mut self, request: &Request) -> (r: Vec<u8>)
        requires
            old(self)@.phase is Idle,
            old(self)@.last_id < u32::MAX,
        ensures
            r@ == envelope_bytes((old(self)@.last_id + 1) as u32, request_bytes(request@)),
            final(self)@ == (ClientView {
                last_id: (old(self)@.last_id + 1) as u32,
                phase: PhaseView::Waiting {
                    correlation_id: (old(self)@.last_id + 1) as u32,
                    datagram: r@,
                    monitor_seconds: monitor_window(request@),
                },
            }),
    {
        self.last_id = self.last_id + 1;
        let payload = request.encode();
        let datagram = encode_envelope(self.last_id, payload.as_slice());
        let monitor_seconds = match request {
            Request::Subscribe { interval_seconds, .. } => Some(*interval_seconds),
            _ => None,
        };
        let copy = datagram.clone();
        assert(copy@ == datagram@);
        self.phase = Phase::Waiting {
            correlation_id: self.last_id,
            datagram: copy,
            monitor_seconds,
        };
        datagram
    }

    /// The datagram to send again after a timeout: the very bytes sent first.
    pub fn retransmit(&self) -> (r: Vec<u8>)
        requires
            self@.phase is Waiting,
        ensures
            self@.phase matches PhaseView::Waiting { datagram, .. } && r@ == datagram,
    {
        match &self.phase {
            Phase::Waiting { datagram, .. } => datagram.clone(),
            _ => Vec::new(),
        }
    }

    /// Takes a datagram that arrived while waiting. One that does not carry
    /// the outstanding correlation id is dropped and changes nothing; the one
    /// that does ends the wait.
    pub fn receive(&mut self, d: &[u8]) -> (r: Received)
        requires
            old(self)@.phase is Waiting,
        ensures
            ({
                let (id, monitor_seconds) = match old(self)@.phase {
                    PhaseView::Waiting { correlation_id, monitor_seconds, .. } => (
                        correlation_id,
                        monitor_seconds,
                    ),
                    _ => (0u32, None),
                };
                if d@.len() < 4 || u32_at(d@, 0) != id {
                    r is Stale && final(self)@ == old(self)@
                } else {
                    match parse_response(d@.subrange(4, d@.len() as int)) {
                        Some(v) => (r matches Received::Reply(q) && q@ == v) && final(self)@ == (
                        ClientView {
                            last_id: old(self)@.last_id,
                            phase: phase_after(monitor_seconds, v),
                        }),
                        None => r is Unreadable && final(self)@ == (ClientView {
                            last_id: old(self)@.last_id,
                            phase: PhaseView::Idle,
                        }),
                    }
                }
            }),
    {
        let (id, monitor_seconds) = match &self.phase {
            Phase::Waiting { correlation_id, monitor_seconds, .. } => (
                *correlation_id,
                *monitor_seconds,
            ),
            _ => (0u32, None),
        };
        let (got, payload) = match decode_envelope(d) {
            None => return Received::Stale,
            Some(parts) => parts,
        };
        if got != id {
            return Received::Stale;
        }
        match Response::decode(payload) {
            None => {
                self.phase = Phase::Idle;
                Received::Unreadable
            },
            Some(reply) => {
                self.phase = match (monitor_seconds, &reply) {
                    (Some(s), Response::Subscribed { success }) => if *success == 1 {
                        Phase::Monitoring { interval_seconds: s }
                    } else {
                        Phase::Idle
                    },
                    _ => Phase::Idle,
                };
                Received::Reply(reply)
            },
        }
    }

    /// Whether the subscription window is still open `elapsed_seconds` after
    /// it opened.
    pub fn monitor_open(&self, elapsed_seconds: u64) -> (r: bool)
        requires
            self@.phase is Monitoring,
        ensures
            self@.phase matches PhaseView::Monitoring { interval_seconds } && r == (elapsed_seconds
                < interval_seconds),
    {
        match self.phase {
            Phase::Monitoring { interval_seconds } => elapsed_seconds < interval_seconds as u64,
            _ => false,
        }
    }

    /// The seat update that a datagram received inside the window carries;
    /// anything else is passed over.
    pub fn monitor_push(&self, d: &[u8]) -> (r: Option<SeatUpdate>)
        ensures
            r == parse_push(d@),
    {
        SeatUpdate::decode_push(d)
    }

    /// Closes the subscription window.
    pub fn end_monitoring(&mut self)
        requires
            old(self)@.phase is Monitoring,
        ensures
            final(self)@ == (ClientView { last_id: old(self)@.last_id, phase: PhaseView::Idle }),
    {
        self.phase = Phase::Idle;
    }
}

} // verus!
