//! Seat-update subscriptions: per flight, the clients to push to and until
//! when. Expired entries stay until the next update of their flight, which
//! drops them.
use std::collections::HashMap;
use vstd::prelude::*;

verus! {

broadcast use vstd::std_specs::hash::group_hash_axioms;

/// The network address of a client. An IPv4 address is held as its
/// IPv4-mapped IPv6 form.
#[derive(Clone, Copy, Debug, PartialEq, Eq, Structural, Hash)]
pub struct ClientAddr {
    pub ip: u128,
    pub port: u16,
}

/// One subscription: push to `client` while the clock is before `expiry`.
#[derive(Clone, Copy, Debug, PartialEq, Eq, Structural)]
pub struct WatchEntry {
    /// Unix time in seconds after which the subscription has lapsed.
    pub expiry: u64,
    pub client: ClientAddr,
}

/// The end of a subscription of `interval_seconds` taken at `now`; a sum past
/// the clock's range is held at its largest value.
pub open spec fn expiry_after(now: u64, interval_seconds: u32) -> u64 {
    if now + interval_seconds <= u64::MAX {
        (now + interval_seconds) as u64
    } else {
        u64::MAX
    }
}

/// The entries of `list` for clients other than `client`.
pub open spec fn without_client(list: Seq<WatchEntry>, client: ClientAddr) -> Seq<WatchEntry> {
    list.filter(|e: WatchEntry| e.client != client)
}

/// `list` after `e` subscribes: an earlier entry of its client is replaced.
pub open spec fn with_subscription(list: Seq<WatchEntry>, e: WatchEntry) -> Seq<WatchEntry> {
    without_client(list, e.client).push(e)
}

/// The entries of `list` that are still live at `now`.
pub open spec fn live_at(list: Seq<WatchEntry>, now: u64) -> Seq<WatchEntry> {
    list.filter(|e: WatchEntry| e.expiry > now)
}

/// The entries of flight `flight_id` in `m`; none when it has no list.
pub open spec fn entries_of(m: Map<u32, Seq<WatchEntry>>, flight_id: u32) -> Seq<WatchEntry> {
    if m.contains_key(flight_id) {
        m[flight_id]
    } else {
        Seq::empty()
    }
}

/// The map after an update of `flight_id` at `now`: its lapsed entries are
/// dropped. A flight with no list is left without one.
pub open spec fn after_notify(m: Map<u32, Seq<WatchEntry>>, flight_id: u32, now: u64) -> Map<
    u32,
    Seq<WatchEntry>,
> {
    if m.contains_key(flight_id) {
        m.insert(flight_id, live_at(m[flight_id], now))
    } else {
        m
    }
}

/// The clients that an update of `flight_id` at `now` is pushed to, in the
/// order of their entries.
pub open spec fn recipients(m: Map<u32, Seq<WatchEntry>>, flight_id: u32, now: u64) -> Seq<
    ClientAddr,
> {
    live_at(entries_of(m, flight_id), now).map_values(|e: WatchEntry| e.client)
}

/// No client has two entries in `list`.
pub open spec fn clients_unique(list: Seq<WatchEntry>) -> bool {
    forall|i: int, j: int|
        0 <= i < list.len() && 0 <= j < list.len() && i != j ==> #[trigger] list[i].client
            != #[trigger] list[j].client
}

/// Every flight's list has at most one entry per client.
pub open spec fn one_entry_per_client(m: Map<u32, Seq<WatchEntry>>) -> bool {
    forall|id: u32| #[trigger] m.contains_key(id) ==> clients_unique(m[id])
}

/// Keeping some entries of a list keeps its clients distinct.
pub proof fn lemma_filter_clients_unique(list: Seq<WatchEntry>, keep: spec_fn(WatchEntry) -> bool)
    requires
        clients_unique(list),
    ensures
        clients_unique(list.filter(keep)),
    decreases list.len(),
{
    if list.len() > 0 {
        let init = list.drop_last();
        let last = list.last();
        assert(clients_unique(init));
        lemma_filter_clients_unique(init, keep);
        assert(init.push(last) == list);
        init.lemma_filter_push(last, keep);
        if keep(last) {
            let f = init.filter(keep);
            assert forall|i: int| 0 <= i < f.len() implies #[trigger] f[i].client
                != last.client by {
                init.lemma_filter_contains_rev(keep, f[i]);
                assert(f.contains(f[i]));
                let j = choose|j: int| 0 <= j < init.len() && init[j] == f[i];
                assert(list[j] == init[j]);
                assert(list[list.len() - 1] == last);
            }
            assert(clients_unique(f.push(last)));
        }
    }
}

/// An entry that has lapsed at `now` gets no push from an update at `now`,
/// and the update drops it from its flight's list.
pub proof fn lemma_lapsed_entry_dropped(
    m: Map<u32, Seq<WatchEntry>>,
    flight_id: u32,
    now: u64,
    e: WatchEntry,
)
    requires
        one_entry_per_client(m),
        entries_of(m, flight_id).contains(e),
        e.expiry <= now,
    ensures
        !recipients(m, flight_id, now).contains(e.client),
        !entries_of(after_notify(m, flight_id, now), flight_id).contains(e),
{
    let list = entries_of(m, flight_id);
    let keep = |x: WatchEntry| x.expiry > now;
    let live = list.filter(keep);
    assert(live == live_at(list, now));
    if live.contains(e) {
        list.lemma_filter_contains_rev(keep, e);
    }
    if recipients(m, flight_id, now).contains(e.client) {
        let clients = live.map_values(|x: WatchEntry| x.client);
        assert(clients == recipients(m, flight_id, now));
        let i = choose|i: int| 0 <= i < clients.len() && #[trigger] clients[i] == e.client;
        live.lemma_filter_contains_rev(keep, live[i]);
        list.lemma_filter_contains_rev(keep, live[i]);
        assert(live.contains(live[i]));
        assert(list.contains(live[i]));
        let a = choose|a: int| 0 <= a < list.len() && list[a] == live[i];
        let b = choose|b: int| 0 <= b < list.len() && list[b] == e;
        assert(clients_unique(list));
        assert(keep(live[i]));
    }
}

/// The watchlist of every flight.
pub struct Watchlist {
    entries: HashMap<u32, Vec<WatchEntry>>,
}

impl View for Watchlist {
    type V = Map<u32, Seq<WatchEntry>>;

    closed spec fn view(&self) -> Map<u32, Seq<WatchEntry>> {
        self.entries@.map_values(|v: Vec<WatchEntry>| v@)
    }
}

impl Watchlist {
    /// At most one entry per client in each flight's list.
    pub open spec fn wf(&self) -> bool {
        one_entry_per_client(self@)
    }

    /// No subscriptions.
    pub fn new() -> (r: Watchlist)
        ensures
            r.wf(),
            r@ == Map::<u32, Seq<WatchEntry>>::empty(),
    {
        let r = Watchlist { entries: HashMap::new() };
        assert(r@ =~= Map::<u32, Seq<WatchEntry>>::empty());
        r
    }

    /// The entries of flight `flight_id`, in the order they were made.
    pub fn entries(&self, flight_id: u32) -> (r: Vec<WatchEntry>)
        ensures
            r@ == entries_of(self@, flight_id),
    {
        match self.entries.get(&flight_id) {
            Some(list) => {
                let mut out: Vec<WatchEntry> = Vec::new();
                let mut k: usize = 0;
                while k < list.len()
                    invariant
                        k <= list@.len(),
                        out@ == list@.take(k as int),
                    decreases list@.len() - k,
                {
                    out.push(list[k]);
                    assert(out@ =~= list@.take(k + 1));
                    k += 1;
                }
                assert(out@ =~= list@);
                out
            },
            None => Vec::new(),
        }
    }

    /// Takes the list of `flight_id` out of the map, or an empty one.
    fn take_list(&mut self, flight_id: u32) -> (r: Vec<WatchEntry>)
        ensures
            r@ == entries_of(old(self)@, flight_id),
            final(self)@ == old(self)@.remove(flight_id),
    {
        let r = match self.entries.remove(&flight_id) {
            Some(list) => list,
            None => Vec::new(),
        };
        assert(self@ =~= old(self)@.remove(flight_id));
        r
    }

    /// Records that `client` wants the seat updates of `flight_id` for
    /// `interval_seconds` from `now`, replacing its earlier entry there.
    pub fn subscribe(&mut self, flight_id: u32, client: ClientAddr, interval_seconds: u32, now: u64)
        requires
            old(self).wf(),
        ensures
            final(self).wf(),
            final(self)@ == old(self)@.insert(
                flight_id,
                with_subscription(
                    entries_of(old(self)@, flight_id),
                    WatchEntry { expiry: expiry_after(now, interval_seconds), client },
                ),
            ),
    {
        let expiry = now.saturating_add(interval_seconds as u64);
        let list = self.take_list(flight_id);
        let ghost mid = self@;
        let ghost pred = |e: WatchEntry| e.client != client;
        let mut kept: Vec<WatchEntry> = Vec::new();
        let mut k: usize = 0;
        while k < list.len()
            invariant
                k <= list@.len(),
                pred == (|e: WatchEntry| e.client != client),
                kept@ == list@.take(k as int).filter(pred),
            decreases list@.len() - k,
        {
            let e = list[k];
            proof {
                assert(list@.take(k + 1) == list@.take(k as int).push(e));
                list@.take(k as int).lemma_filter_push(e, pred);
            }
            if e.client != client {
                kept.push(e);
            }
            k += 1;
        }
        assert(list@.take(k as int) == list@);
        let entry = WatchEntry { expiry, client };
        assert(entry.expiry == expiry_after(now, interval_seconds));
        kept.push(entry);
        let ghost kept_view = kept@;
        self.entries.insert(flight_id, kept);
        assert(self@ =~= mid.insert(flight_id, kept_view));
        assert(self@ =~= old(self)@.insert(
            flight_id,
            with_subscription(entries_of(old(self)@, flight_id), entry),
        ));
        proof {
            let l = entries_of(old(self)@, flight_id);
            lemma_filter_clients_unique(l, pred);
            let f = l.filter(pred);
            assert forall|i: int| 0 <= i < f.len() implies #[trigger] f[i].client != client by {
                l.lemma_filter_pred(pred, i);
            }
            assert(clients_unique(f.push(entry)));
        }
    }

    /// Drops the entries of `flight_id` that have lapsed at `now` and returns
    /// the clients of those left, in order. A flight with no list keeps none.
    pub fn notify(&mut self, flight_id: u32, now: u64) -> (r: Vec<ClientAddr>)
        requires
            old(self).wf(),
        ensures
            final(self).wf(),
            final(self)@ == after_notify(old(self)@, flight_id, now),
            r@ == recipients(old(self)@, flight_id, now),
    {
        if !self.entries.contains_key(&flight_id) {
            assert(live_at(Seq::empty(), now) =~= Seq::empty()) by {
                reveal(Seq::filter);
            }
            return Vec::new();
        }
        let list = self.take_list(flight_id);
        let ghost mid = self@;
        let ghost pred = |e: WatchEntry| e.expiry > now;
        let mut kept: Vec<WatchEntry> = Vec::new();
        let mut clients: Vec<ClientAddr> = Vec::new();
        let mut k: usize = 0;
        while k < list.len()
            invariant
                k <= list@.len(),
                pred == (|e: WatchEntry| e.expiry > now),
                kept@ == list@.take(k as int).filter(pred),
                clients@ == kept@.map_values(|e: WatchEntry| e.client),
            decreases list@.len() - k,
        {
            let e = list[k];
            proof {
                assert(list@.take(k + 1) == list@.take(k as int).push(e));
                list@.take(k as int).lemma_filter_push(e, pred);
            }
            if e.expiry > now {
                kept.push(e);
                clients.push(e.client);
                assert(clients@ =~= kept@.map_values(|e: WatchEntry| e.client));
            }
            k += 1;
        }
        assert(list@.take(k as int) == list@);
        let ghost kept_view = kept@;
        self.entries.insert(flight_id, kept);
        assert(self@ =~= mid.insert(flight_id, kept_view));
        proof {
            lemma_filter_clients_unique(old(self)@[flight_id], pred);
        }
        assert(self@ =~= old(self)@.insert(flight_id, live_at(old(self)@[flight_id], now)));
        clients
    }
}

} // verus!
