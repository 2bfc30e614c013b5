//! The response cache of at-most-once delivery: the reply payload computed
//! for each `(correlation id, client)` pair, kept for good.
use crate::watchlist::ClientAddr;
use vstd::prelude::*;

verus! {

/// One cached reply.
struct CacheEntry {
    correlation_id: u32,
    client: ClientAddr,
    payload: Vec<u8>,
}

/// The replies sent so far, by correlation id and client.
pub struct ResponseCache {
    entries: Vec<CacheEntry>,
    model: Ghost<Map<(u32, ClientAddr), Seq<u8>>>,
}

impl View for ResponseCache {
    type V = Map<(u32, ClientAddr), Seq<u8>>;

    closed spec fn view(&self) -> Map<(u32, ClientAddr), Seq<u8>> {
        self.model@
    }
}

impl ResponseCache {
    /// Each key is held once, and the model maps it to its payload.
    pub closed spec fn wf(&self) -> bool {
        &&& forall|i: int, j: int|
            0 <= i < self.entries@.len() && 0 <= j < self.entries@.len() && i != j ==> (
            #[trigger] self.entries@[i].correlation_id, self.entries@[i].client) != (
            #[trigger] self.entries@[j].correlation_id, self.entries@[j].client)
        &&& forall|k: (u32, ClientAddr)|
            #[trigger] self.model@.contains_key(k) <==> exists|j: int|
                0 <= j < self.entries@.len() && (#[trigger] self.entries@[j].correlation_id,
                self.entries@[j].client) == k
        &&& forall|j: int|
            0 <= j < self.entries@.len() ==> self.model@[(
                #[trigger] self.entries@[j].correlation_id,
                self.entries@[j].client,
            )] == self.entries@[j].payload@
    }

    /// An empty cache.
    pub fn new() -> (r: ResponseCache)
        ensures
            r.wf(),
            r@ == Map::<(u32, ClientAddr), Seq<u8>>::empty(),
    {
        ResponseCache { entries: Vec::new(), model: Ghost(Map::empty()) }
    }

    fn position(&self, correlation_id: u32, client: ClientAddr) -> (r: Option<usize>)
        requires
            self.wf(),
        ensures
            r is None <==> !self@.contains_key((correlation_id, client)),
            r matches Some(i) ==> i < self.entries@.len() && self.entries@[i as int].correlation_id
                == correlation_id && self.entries@[i as int].client == client,
    {
        let mut k: usize = 0;
        while k < self.entries.len()
            invariant
                self.wf(),
                k <= self.entries@.len(),
                forall|j: int|
                    0 <= j < k ==> (#[trigger] self.entries@[j].correlation_id,
                    self.entries@[j].client) != (correlation_id, client),
            decreases self.entries@.len() - k,
        {
            let e = &self.entries[k];
            if e.correlation_id == correlation_id && e.client == client {
                assert((self.entries@[k as int].correlation_id, self.entries@[k as int].client) == (
                correlation_id, client));
                assert(self.model@.contains_key((correlation_id, client)));
                return Some(k);
            }
            k += 1;
        }
        None
    }

    /// The payload cached for `(correlation_id, client)`, if any.
    pub fn get(&self, correlation_id: u32, client: ClientAddr) -> (r: Option<&Vec<u8>>)
        requires
            self.wf(),
        ensures
            r is Some <==> self@.contains_key((correlation_id, client)),
            r matches Some(p) ==> p@ == self@[(correlation_id, client)],
    {
        match self.position(correlation_id, client) {
            Some(i) => Some(&self.entries[i].payload),
            None => None,
        }
    }

    /// Caches `payload` for `(correlation_id, client)`, replacing what was there.
    pub fn insert(&mut self, correlation_id: u32, client: ClientAddr, payload: Vec<u8>)
        requires
            old(self).wf(),
        ensures
            final(self).wf(),
            final(self)@ == old(self)@.insert((correlation_id, client), payload@),
    {
        let key = Ghost((correlation_id, client));
        let ghost p = payload@;
        match self.position(correlation_id, client) {
            Some(i) => {
                self.entries.set(i, CacheEntry { correlation_id, client, payload });
            },
            None => {
                self.entries.push(CacheEntry { correlation_id, client, payload });
            },
        }
        self.model = Ghost(self.model@.insert(key@, p));
        assert forall|k: (u32, ClientAddr)|
            #[trigger] self.model@.contains_key(k) implies exists|j: int|
                0 <= j < self.entries@.len() && (#[trigger] self.entries@[j].correlation_id,
                self.entries@[j].client) == k by {
            if k != key@ {
                let j = choose|j: int|
                    0 <= j < old(self).entries@.len() && (
                    #[trigger] old(self).entries@[j].correlation_id,
                    old(self).entries@[j].client) == k;
                assert((self.entries@[j].correlation_id, self.entries@[j].client) == k);
            } else {
                let j = if old(self).entries@.len() < self.entries@.len() {
                    old(self).entries@.len() as int
                } else {
                    choose|j: int|
                        0 <= j < old(self).entries@.len() && (
                        #[trigger] old(self).entries@[j].correlation_id,
                        old(self).entries@[j].client) == k
                };
                assert((self.entries@[j].correlation_id, self.entries@[j].client) == k);
            }
        }
    }
}

} // verus!
