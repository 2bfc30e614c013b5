//! The flight table: flight records keyed by a unique id, with the lookups
//! and the check-then-decrement reservations that the services need.
use vstd::prelude::*;

verus! {

/// One flight. The airfare is kept as the bit pattern of an IEEE-754 single.
#[derive(Debug)]
pub struct Flight {
    pub id: u32,
    pub source: String,
    pub destination: String,
    /// Unix time in seconds.
    pub departure_time: u32,
    pub seats: u32,
    pub airfare_bits: u32,
    pub baggage_capacity_kg: u32,
}

/// Mathematical model of a flight.
pub struct FlightView {
    pub id: u32,
    pub source: Seq<char>,
    pub destination: Seq<char>,
    pub departure_time: u32,
    pub seats: u32,
    pub airfare_bits: u32,
    pub baggage_capacity_kg: u32,
}

impl View for Flight {
    type V = FlightView;

    open spec fn view(&self) -> FlightView {
        FlightView {
            id: self.id,
            source: self.source@,
            destination: self.destination@,
            departure_time: self.departure_time,
            seats: self.seats,
            airfare_bits: self.airfare_bits,
            baggage_capacity_kg: self.baggage_capacity_kg,
        }
    }
}

impl Flight {
    /// Takes `num_seats` seats if that many are free; otherwise changes nothing.
    pub fn reserve_seats(&mut self, num_seats: u32) -> (r: bool)
        ensures
            r == (num_seats <= old(self).seats),
            final(self)@ == (if r {
                FlightView { seats: (old(self).seats - num_seats) as u32, ..old(self)@ }
            } else {
                old(self)@
            }),
    {
        if self.seats >= num_seats {
            self.seats = self.seats - num_seats;
            true
        } else {
            false
        }
    }

    /// Takes `baggage_kg` of baggage capacity if that much is left; otherwise
    /// changes nothing.
    pub fn reserve_baggage(&mut self, baggage_kg: u32) -> (r: bool)
        ensures
            r == (baggage_kg <= old(self).baggage_capacity_kg),
            final(self)@ == (if r {
                FlightView {
                    baggage_capacity_kg: (old(self).baggage_capacity_kg - baggage_kg) as u32,
                    ..old(self)@
                }
            } else {
                old(self)@
            }),
    {
        if self.baggage_capacity_kg >= baggage_kg {
            self.baggage_capacity_kg = self.baggage_capacity_kg - baggage_kg;
            true
        } else {
            false
        }
    }
}

/// No two flights of `s` share an id.
pub open spec fn ids_unique(s: Seq<FlightView>) -> bool {
    forall|i: int, j: int|
        0 <= i < s.len() && 0 <= j < s.len() && i != j ==> #[trigger] s[i].id != #[trigger] s[j].id
}

/// Some flight of `s` has id `id`.
pub open spec fn has_flight(s: Seq<FlightView>, id: u32) -> bool {
    exists|j: int| 0 <= j < s.len() && #[trigger] s[j].id == id
}

/// The ids of the flights of `s` from `source` to `destination`, in table order.
pub open spec fn route_ids(s: Seq<FlightView>, source: Seq<char>, destination: Seq<char>) -> Seq<
    u32,
> {
    s.filter(|f: FlightView| f.source == source && f.destination == destination).map_values(
        |f: FlightView| f.id,
    )
}

/// A flight that can be booked from `source`: it leaves there and has a free seat.
pub open spec fn bookable_from(f: FlightView, source: Seq<char>) -> bool {
    f.source == source && f.seats > 0
}

/// Among the bookable flights from `source`, `f` leaves no later than any other.
pub open spec fn earliest_from(s: Seq<FlightView>, f: FlightView, source: Seq<char>) -> bool {
    &&& bookable_from(f, source)
    &&& forall|j: int|
        0 <= j < s.len() && bookable_from(s[j], source) ==> f.departure_time
            <= #[trigger] s[j].departure_time
}

/// `f` can be booked from `source` and leaves at `m`.
pub open spec fn leaves_at(f: FlightView, source: Seq<char>, m: u32) -> bool {
    bookable_from(f, source) && f.departure_time == m
}

/// Among the first `n` flights of `s`, some bookable one from `source` leaves
/// at `m` and none leaves before.
pub open spec fn first_departure(s: Seq<FlightView>, n: int, source: Seq<char>, m: u32) -> bool {
    &&& exists|j: int| 0 <= j < n && #[trigger] leaves_at(s[j], source, m)
    &&& forall|j: int|
        0 <= j < n && bookable_from(#[trigger] s[j], source) ==> m <= s[j].departure_time
}

/// `v` is in strictly ascending order.
pub open spec fn strictly_ascending(v: Seq<u32>) -> bool {
    forall|i: int, j: int| 0 <= i < j < v.len() ==> #[trigger] v[i] < #[trigger] v[j]
}

/// The table of flights.
pub struct FlightStore {
    flights: Vec<Flight>,
}

impl View for FlightStore {
    type V = Seq<FlightView>;

    closed spec fn view(&self) -> Seq<FlightView> {
        self.flights@.map_values(|f: Flight| f@)
    }
}

/// Relies on `<[u32]>::sort`: the result is ascending and holds the same elements.
#[verifier::external_body]
fn sort_ids(v: &mut Vec<u32>)
    ensures
        final(v)@.to_multiset() == old(v)@.to_multiset(),
        forall|i: int, j: int| 0 <= i < j < final(v)@.len() ==> final(v)@[i] <= final(v)@[j],
{
    v.sort();
}

impl FlightStore {
    /// Flight ids are unique.
    pub open spec fn wf(&self) -> bool {
        ids_unique(self@)
    }

    /// An empty table.
    pub fn new() -> (r: FlightStore)
        ensures
            r@ == Seq::<FlightView>::empty(),
            r.wf(),
    {
        FlightStore { flights: Vec::new() }
    }

    /// The number of flights.
    pub fn len(&self) -> (r: usize)
        ensures
            r == self@.len(),
    {
        self.flights.len()
    }

    /// The flight at position `i`, in table order.
    pub fn flight(&self, i: usize) -> (r: &Flight)
        requires
            i < self@.len(),
        ensures
            r@ == self@[i as int],
    {
        &self.flights[i]
    }

    /// The position of the flight with id `id`, if there is one.
    pub fn position(&self, id: u32) -> (r: Option<usize>)
        requires
            self.wf(),
        ensures
            r is None <==> !has_flight(self@, id),
            r matches Some(i) ==> i < self@.len() && self@[i as int].id == id,
    {
        let mut k: usize = 0;
        while k < self.flights.len()
            invariant
                k <= self.flights@.len(),
                self@.len() == self.flights@.len(),
                forall|j: int| 0 <= j < k ==> #[trigger] self@[j].id != id,
            decreases self.flights@.len() - k,
        {
            if self.flights[k].id == id {
                assert(self@[k as int].id == id);
                return Some(k);
            }
            k += 1;
        }
        None
    }

    /// The ids of the flights from `source` to `destination`, in table order.
    pub fn route_ids(&self, source: &String, destination: &String) -> (r: Vec<u32>)
        ensures
            r@ == route_ids(self@, source@, destination@),
    {
        let ghost pred = |f: FlightView| f.source == source@ && f.destination == destination@;
        let mut out: Vec<u32> = Vec::new();
        let mut k: usize = 0;
        while k < self.flights.len()
            invariant
                k <= self.flights@.len(),
                self@.len() == self.flights@.len(),
                pred == (|f: FlightView| f.source == source@ && f.destination == destination@),
                out@ == self@.take(k as int).filter(pred).map_values(|f: FlightView| f.id),
            decreases self.flights@.len() - k,
        {
            let f = &self.flights[k];
            proof {
                assert(self@.take(k + 1) == self@.take(k as int).push(self@[k as int]));
                self@.take(k as int).lemma_filter_push(self@[k as int], pred);
            }
            if f.source == *source && f.destination == *destination {
                out.push(f.id);
                assert(out@ =~= self@.take(k + 1).filter(pred).map_values(|f: FlightView| f.id));
            } else {
                assert(out@ =~= self@.take(k + 1).filter(pred).map_values(|f: FlightView| f.id));
            }
            k += 1;
        }
        assert(self@.take(k as int) == self@);
        out
    }

    /// The earliest departure among the flights from `source` with a free
    /// seat, or `None` when there is no such flight.
    fn earliest_departure(&self, source: &String) -> (r: Option<u32>)
        ensures
            r is None <==> forall|j: int|
                0 <= j < self@.len() ==> !bookable_from(#[trigger] self@[j], source@),
            r matches Some(m) ==> first_departure(self@, self@.len() as int, source@, m),
    {
        let mut best: Option<u32> = None;
        let mut k: usize = 0;
        while k < self.flights.len()
            invariant
                k <= self.flights@.len(),
                self@.len() == self.flights@.len(),
                best is None <==> forall|j: int|
                    0 <= j < k ==> !bookable_from(#[trigger] self@[j], source@),
                best matches Some(m) ==> first_departure(self@, k as int, source@, m),
            decreases self.flights@.len() - k,
        {
            let f = &self.flights[k];
            assert(f@ == self@[k as int]);
            if f.source == *source && f.seats > 0 {
                assert(leaves_at(self@[k as int], source@, f.departure_time));
                match best {
                    None => {
                        best = Some(f.departure_time);
                    },
                    Some(m) => {
                        if f.departure_time < m {
                            best = Some(f.departure_time);
                        }
                    },
                }
            }
            k += 1;
        }
        best
    }

    /// The ids of the flights from `source` with a free seat that leave
    /// earliest among those, ascending; empty when there is none.
    pub fn earliest_ids(&self, source: &String) -> (r: Vec<u32>)
        requires
            self.wf(),
        ensures
            strictly_ascending(r@),
            forall|id: u32|
                r@.contains(id) <==> exists|j: int|
                    0 <= j < self@.len() && #[trigger] self@[j].id == id && earliest_from(
                        self@,
                        self@[j],
                        source@,
                    ),
    {
        let mut out: Vec<u32> = Vec::new();
        let m = match self.earliest_departure(source) {
            None => return out,
            Some(m) => m,
        };
        let mut k: usize = 0;
        while k < self.flights.len()
            invariant
                k <= self.flights@.len(),
                self@.len() == self.flights@.len(),
                ids_unique(self@),
                out@.no_duplicates(),
                forall|id: u32|
                    out@.contains(id) <==> exists|j: int|
                        0 <= j < k && #[trigger] self@[j].id == id && leaves_at(
                            self@[j],
                            source@,
                            m,
                        ),
            decreases self.flights@.len() - k,
        {
            let f = &self.flights[k];
            assert(f@ == self@[k as int]);
            if f.source == *source && f.seats > 0 && f.departure_time == m {
                let ghost prev = out@;
                assert(!prev.contains(f.id)) by {
                    if prev.contains(f.id) {
                        let j = choose|j: int|
                            0 <= j < k && #[trigger] self@[j].id == f.id && leaves_at(
                                self@[j],
                                source@,
                                m,
                            );
                        assert(self@[j].id == self@[k as int].id);
                    }
                }
                out.push(f.id);
                assert forall|id: u32|
                    out@.contains(id) <==> exists|j: int|
                        0 <= j < k + 1 && #[trigger] self@[j].id == id && leaves_at(
                            self@[j],
                            source@,
                            m,
                        ) by {
                    if out@.contains(id) {
                        let i = choose|i: int| 0 <= i < out@.len() && out@[i] == id;
                        if i == prev.len() {
                            assert(self@[k as int].id == id);
                        } else {
                            assert(prev[i] == id);
                            assert(prev.contains(id));
                        }
                    }
                    if exists|j: int|
                        0 <= j < k + 1 && #[trigger] self@[j].id == id && leaves_at(
                            self@[j],
                            source@,
                            m,
                        ) {
                        let j = choose|j: int|
                            0 <= j < k + 1 && #[trigger] self@[j].id == id && leaves_at(
                                self@[j],
                                source@,
                                m,
                            );
                        if j == k {
                            assert(out@[prev.len() as int] == id);
                        } else {
                            assert(prev.contains(id));
                            let i = choose|i: int| 0 <= i < prev.len() && prev[i] == id;
                            assert(out@[i] == id);
                        }
                    }
                }
            }
            k += 1;
        }
        proof {
            let w = choose|j: int|
                0 <= j < self@.len() && #[trigger] leaves_at(self@[j], source@, m);
            assert forall|j: int| 0 <= j < self@.len() implies leaves_at(self@[j], source@, m)
                == earliest_from(self@, #[trigger] self@[j], source@) by {
                if earliest_from(self@, self@[j], source@) {
                    assert(self@[j].departure_time <= self@[w].departure_time);
                }
            }
        }
        let ghost unsorted = out@;
        sort_ids(&mut out);
        proof {
            unsorted.lemma_multiset_has_no_duplicates();
            out@.lemma_multiset_has_no_duplicates_conv();
            unsorted.to_multiset_ensures();
            out@.to_multiset_ensures();
            assert forall|id: u32|
                out@.contains(id) <==> exists|j: int|
                    0 <= j < self@.len() && #[trigger] self@[j].id == id && earliest_from(
                        self@,
                        self@[j],
                        source@,
                    ) by {
                assert(out@.to_multiset().count(id) == unsorted.to_multiset().count(id));
                if unsorted.contains(id) {
                    let j = choose|j: int|
                        0 <= j < self@.len() && #[trigger] self@[j].id == id && leaves_at(
                            self@[j],
                            source@,
                            m,
                        );
                    assert(earliest_from(self@, self@[j], source@));
                }
            }
        }
        out
    }

    /// Adds `flight` unless a flight with its id is already there.
    pub fn add_flight(&mut self, flight: Flight) -> (r: bool)
        requires
            old(self).wf(),
        ensures
            final(self).wf(),
            r == !has_flight(old(self)@, flight.id),
            final(self)@ == (if r {
                old(self)@.push(flight@)
            } else {
                old(self)@
            }),
    {
        if self.position(flight.id).is_some() {
            return false;
        }
        let ghost f = flight@;
        self.flights.push(flight);
        assert(self@ =~= old(self)@.push(f));
        true
    }

    /// Reserves `num_seats` seats on flight `id`: `Ok` with the seats left, or
    /// why not. Nothing changes unless the reservation succeeds.
    pub fn reserve_seats(&mut self, id: u32, num_seats: u32) -> (r: Result<u32, ReserveError>)
        requires
            old(self).wf(),
        ensures
            final(self).wf(),
            !has_flight(old(self)@, id) ==> r == Err::<u32, ReserveError>(
                ReserveError::NoSuchFlight,
            ) && final(self)@ == old(self)@,
            forall|j: int|
                0 <= j < old(self)@.len() && #[trigger] old(self)@[j].id == id ==> if num_seats
                    <= old(self)@[j].seats {
                    &&& r == Ok::<u32, ReserveError>((old(self)@[j].seats - num_seats) as u32)
                    &&& final(self)@ == old(self)@.update(
                        j,
                        FlightView {
                            seats: (old(self)@[j].seats - num_seats) as u32,
                            ..old(self)@[j]
                        },
                    )
                } else {
                    &&& r == Err::<u32, ReserveError>(
                        ReserveError::NotEnough { available: old(self)@[j].seats },
                    )
                    &&& final(self)@ == old(self)@
                },
    {
        match self.position(id) {
            None => Err(ReserveError::NoSuchFlight),
            Some(i) => {
                let ghost before = self@;
                let mut flight = self.flights.remove(i);
                let ok = flight.reserve_seats(num_seats);
                let left = flight.seats;
                self.flights.insert(i, flight);
                assert(self@ =~= before.update(i as int, self@[i as int]));
                if ok {
                    Ok(left)
                } else {
                    assert(self@ =~= before);
                    Err(ReserveError::NotEnough { available: left })
                }
            },
        }
    }

    /// Reserves `baggage_kg` of baggage capacity on flight `id`: `Ok` with the
    /// capacity left, or why not. Nothing changes unless it succeeds.
    pub fn reserve_baggage(&mut self, id: u32, baggage_kg: u32) -> (r: Result<u32, ReserveError>)
        requires
            old(self).wf(),
        ensures
            final(self).wf(),
            !has_flight(old(self)@, id) ==> r == Err::<u32, ReserveError>(
                ReserveError::NoSuchFlight,
            ) && final(self)@ == old(self)@,
            forall|j: int|
                0 <= j < old(self)@.len() && #[trigger] old(self)@[j].id == id ==> if baggage_kg
                    <= old(self)@[j].baggage_capacity_kg {
                    &&& r == Ok::<u32, ReserveError>(
                        (old(self)@[j].baggage_capacity_kg - baggage_kg) as u32,
                    )
                    &&& final(self)@ == old(self)@.update(
                        j,
                        FlightView {
                            baggage_capacity_kg: (old(self)@[j].baggage_capacity_kg
                                - baggage_kg) as u32,
                            ..old(self)@[j]
                        },
                    )
                } else {
                    &&& r == Err::<u32, ReserveError>(
                        ReserveError::NotEnough { available: old(self)@[j].baggage_capacity_kg },
                    )
                    &&& final(self)@ == old(self)@
                },
    {
        match self.position(id) {
            None => Err(ReserveError::NoSuchFlight),
            Some(i) => {
                let ghost before = self@;
                let mut flight = self.flights.remove(i);
                let ok = flight.reserve_baggage(baggage_kg);
                let left = flight.baggage_capacity_kg;
                self.flights.insert(i, flight);
                assert(self@ =~= before.update(i as int, self@[i as int]));
                if ok {
                    Ok(left)
                } else {
                    assert(self@ =~= before);
                    Err(ReserveError::NotEnough { available: left })
                }
            },
        }
    }
}

/// Why a reservation was refused.
#[derive(Clone, Copy, Debug, PartialEq, Eq, Structural)]
pub enum ReserveError {
    /// No flight has the id asked for.
    NoSuchFlight,
    /// The flight has only `available` left.
    NotEnough { available: u32 },
}

} // verus!
