//! The flow-statistics engine: per-address traffic counters and TCP-health
//! heuristics, updated from the capture path, with periodic rate
//! recomputation and target-set totals.
//!
//! Every operation's contract ties the new state to the model transition of
//! the same name in `model`.

use vstd::prelude::*;
use crate::assoc::{assoc_map, lemma_assoc_map_lookup, lemma_assoc_map_push, lemma_assoc_map_update,
    unique_keys};
use crate::model::{AddrModel, AddressKey, entry_or_fresh, fresh_model, packet_step, rate_step,
    rx_fits, rx_step, tx_fits, tx_step};
use crate::packet::{DecodedPacket, TcpSegmentInfo};
use crate::portmap::PortTable;

verus! {

/// The statistics of one observed address. Created on the first packet that
/// touches the address and never removed.
pub struct PerAddressState {
    pub tx_packet_count: u64,
    pub rx_packet_count: u64,
    pub tx_byte_count: u64,
    pub rx_byte_count: u64,
    pub tx_last_bytes: u64,
    pub rx_last_bytes: u64,
    pub last_time_ms: u64,
    pub tx_current_bps: u128,
    pub rx_current_bps: u128,
    pub tx_bytes_per_sec: u64,
    pub rx_bytes_per_sec: u64,
    pub expected_seq: PortTable<u32>,
    pub retransmissions: u64,
    pub duplicate_acks: u64,
    pub last_retransmissions: u64,
    pub last_duplicate_acks: u64,
    pub retransmissions_per_sec: u64,
    pub duplicate_acks_per_sec: u64,
    pub last_window_size: PortTable<u16>,
    pub window_size_changes: u64,
    pub last_window_size_changes: u64,
    pub window_size_changes_per_sec: u64,
}

impl View for PerAddressState {
    type V = AddrModel;

    open spec fn view(&self) -> AddrModel {
        AddrModel {
            tx_packets: self.tx_packet_count as int,
            rx_packets: self.rx_packet_count as int,
            tx_bytes: self.tx_byte_count as int,
            rx_bytes: self.rx_byte_count as int,
            tx_last_bytes: self.tx_last_bytes as int,
            rx_last_bytes: self.rx_last_bytes as int,
            last_time: self.last_time_ms as int,
            tx_bps: self.tx_current_bps as int,
            rx_bps: self.rx_current_bps as int,
            tx_bytes_per_sec: self.tx_bytes_per_sec as int,
            rx_bytes_per_sec: self.rx_bytes_per_sec as int,
            expected_seq: self.expected_seq@,
            retransmissions: self.retransmissions as int,
            duplicate_acks: self.duplicate_acks as int,
            last_retransmissions: self.last_retransmissions as int,
            last_duplicate_acks: self.last_duplicate_acks as int,
            retransmissions_per_sec: self.retransmissions_per_sec as int,
            duplicate_acks_per_sec: self.duplicate_acks_per_sec as int,
            last_window: self.last_window_size@,
            window_changes: self.window_size_changes as int,
            last_window_changes: self.last_window_size_changes as int,
            window_changes_per_sec: self.window_size_changes_per_sec as int,
        }
    }
}

impl PerAddressState {
    /// The port tables hold each port once, and every sample baseline is at
    /// most its cumulative counter.
    pub open spec fn wf(&self) -> bool {
        &&& self.expected_seq.wf()
        &&& self.last_window_size.wf()
        &&& self.tx_last_bytes <= self.tx_byte_count
        &&& self.rx_last_bytes <= self.rx_byte_count
        &&& self.last_retransmissions <= self.retransmissions
        &&& self.last_duplicate_acks <= self.duplicate_acks
        &&& self.last_window_size_changes <= self.window_size_changes
    }

    /// A zeroed state whose sample timestamp is `now_ms`.
    pub fn new(now_ms: u64) -> (r: PerAddressState)
        ensures
            r.wf(),
            r@ == fresh_model(now_ms as int),
    {
        let r = PerAddressState {
            tx_packet_count: 0,
            rx_packet_count: 0,
            tx_byte_count: 0,
            rx_byte_count: 0,
            tx_last_bytes: 0,
            rx_last_bytes: 0,
            last_time_ms: now_ms,
            tx_current_bps: 0,
            rx_current_bps: 0,
            tx_bytes_per_sec: 0,
            rx_bytes_per_sec: 0,
            expected_seq: PortTable::new(),
            retransmissions: 0,
            duplicate_acks: 0,
            last_retransmissions: 0,
            last_duplicate_acks: 0,
            retransmissions_per_sec: 0,
            duplicate_acks_per_sec: 0,
            last_window_size: PortTable::new(),
            window_size_changes: 0,
            last_window_size_changes: 0,
            window_size_changes_per_sec: 0,
        };
        proof {
            assert(r@ =~= fresh_model(now_ms as int));
        }
        r
    }

    /// One transmit-direction packet: counters, then the TCP heuristics when
    /// a header is present.
    fn apply_tx(&mut self, bytes: u64, tcp: Option<TcpSegmentInfo>)
        requires
            old(self).wf(),
            tx_fits(old(self)@, bytes),
        ensures
            final(self).wf(),
            final(self)@ == tx_step(old(self)@, bytes, tcp),
    {
        self.tx_packet_count = self.tx_packet_count + 1;
        self.tx_byte_count = self.tx_byte_count + bytes;
        match tcp {
            Option::Some(t) => {
                let port = t.source_port;
                match self.expected_seq.get(port) {
                    Option::Some(expected) => {
                        if t.sequence < expected {
                            self.retransmissions = self.retransmissions + 1;
                        }
                    },
                    Option::None => {},
                }
                if t.payload_len > 0 || t.syn || t.fin {
                    let next: u32 = (((t.sequence as u128) + (t.payload_len as u128) + 1)
                        % 0x1_0000_0000) as u32;
                    self.expected_seq.set(port, next);
                }
                match self.last_window_size.get(port) {
                    Option::Some(w) => {
                        if w != t.window {
                            self.window_size_changes = self.window_size_changes + 1;
                        }
                    },
                    Option::None => {},
                }
                self.last_window_size.set(port, t.window);
                proof {
                    assert(self@ =~= tx_step(old(self)@, bytes, tcp));
                }
            },
            Option::None => {
                proof {
                    assert(self@ =~= tx_step(old(self)@, bytes, tcp));
                }
            },
        }
    }

    /// One receive-direction packet: counters, then the TCP heuristics when a
    /// header is present.
    fn apply_rx(&mut self, bytes: u64, tcp: Option<TcpSegmentInfo>)
        requires
            old(self).wf(),
            rx_fits(old(self)@, bytes),
        ensures
            final(self).wf(),
            final(self)@ == rx_step(old(self)@, bytes, tcp),
    {
        self.rx_packet_count = self.rx_packet_count + 1;
        self.rx_byte_count = self.rx_byte_count + bytes;
        match tcp {
            Option::Some(t) => {
                let port = t.dest_port;
                if t.ack && t.payload_len == 0 {
                    self.duplicate_acks = self.duplicate_acks + 1;
                }
                match self.last_window_size.get(port) {
                    Option::Some(w) => {
                        if w != t.window {
                            self.window_size_changes = self.window_size_changes + 1;
                        }
                    },
                    Option::None => {},
                }
                self.last_window_size.set(port, t.window);
                proof {
                    assert(self@ =~= rx_step(old(self)@, bytes, tcp));
                }
            },
            Option::None => {
                proof {
                    assert(self@ =~= rx_step(old(self)@, bytes, tcp));
                }
            },
        }
    }

    /// One rate recomputation at `now_ms`, a no-op until a full second has
    /// elapsed since this address's last sample.
    fn apply_rate(&mut self, now_ms: u64)
        requires
            old(self).wf(),
        ensures
            final(self).wf(),
            final(self)@ == rate_step(old(self)@, now_ms as int),
    {
        if now_ms >= self.last_time_ms && now_ms - self.last_time_ms >= 1000 {
            let elapsed: u64 = now_ms - self.last_time_ms;
            let txd: u64 = self.tx_byte_count - self.tx_last_bytes;
            let rxd: u64 = self.rx_byte_count - self.rx_last_bytes;
            self.tx_current_bps = (txd as u128) * 8000 / (elapsed as u128);
            self.rx_current_bps = (rxd as u128) * 8000 / (elapsed as u128);
            self.tx_bytes_per_sec = txd;
            self.rx_bytes_per_sec = rxd;
            self.retransmissions_per_sec = self.retransmissions - self.last_retransmissions;
            self.duplicate_acks_per_sec = self.duplicate_acks - self.last_duplicate_acks;
            self.window_size_changes_per_sec = self.window_size_changes
                - self.last_window_size_changes;
            self.tx_last_bytes = self.tx_byte_count;
            self.rx_last_bytes = self.rx_byte_count;
            self.last_retransmissions = self.retransmissions;
            self.last_duplicate_acks = self.duplicate_acks;
            self.last_window_size_changes = self.window_size_changes;
            self.last_time_ms = now_ms;
            proof {
                assert(self@ =~= rate_step(old(self)@, now_ms as int));
            }
        } else {
            proof {
                assert(self@ =~= rate_step(old(self)@, now_ms as int));
            }
        }
    }
}

/// The engine: a map from address to its statistics, owned exclusively; the
/// caller serializes access (one logical writer at a time).
pub struct FlowStats {
    pairs: Vec<(AddressKey, PerAddressState)>,
}

impl View for FlowStats {
    type V = Map<AddressKey, AddrModel>;

    closed spec fn view(&self) -> Map<AddressKey, AddrModel> {
        assoc_map(self.entries())
    }
}

impl FlowStats {
    /// The per-address models in order of first observation.
    pub closed spec fn entries(&self) -> Seq<(AddressKey, AddrModel)> {
        self.pairs@.map_values(|p: (AddressKey, PerAddressState)| (p.0, p.1@))
    }

    /// Every address is held once and every per-address state is well formed.
    pub closed spec fn wf(&self) -> bool {
        &&& unique_keys(self.entries())
        &&& forall|i: int| 0 <= i < self.pairs@.len() ==> (#[trigger] self.pairs@[i]).1.wf()
    }

    /// An engine that has seen no traffic.
    pub fn new() -> (r: FlowStats)
        ensures
            r.wf(),
            r@ == Map::<AddressKey, AddrModel>::empty(),
            r.entries() == Seq::<(AddressKey, AddrModel)>::empty(),
    {
        let r = FlowStats { pairs: Vec::new() };
        proof {
            assert(r.entries() =~= Seq::<(AddressKey, AddrModel)>::empty());
            assert(r@ =~= Map::<AddressKey, AddrModel>::empty());
        }
        r
    }

    /// How many addresses have been observed.
    pub fn len(&self) -> (n: usize)
        ensures
            n == self.entries().len(),
    {
        self.pairs.len()
    }

    /// The address and state at position `i`, in order of first observation.
    pub fn entry_at(&self, i: usize) -> (r: (AddressKey, &PerAddressState))
        requires
            i < self.entries().len(),
        ensures
            r.0 == self.entries()[i as int].0,
            r.1@ == self.entries()[i as int].1,
            self.wf() ==> r.1.wf(),
    {
        (self.pairs[i].0, &self.pairs[i].1)
    }

    fn find(&self, addr: AddressKey) -> (r: Option<usize>)
        ensures
            match r {
                Some(i) => i < self.pairs@.len() && self.pairs@[i as int].0 == addr,
                None => forall|j: int| 0 <= j < self.pairs@.len() ==> self.pairs@[j].0 != addr,
            },
    {
        let n = self.pairs.len();
        let mut i: usize = 0;
        while i < n
            invariant
                n == self.pairs@.len(),
                i <= n,
                forall|j: int| 0 <= j < i ==> self.pairs@[j].0 != addr,
            decreases n - i,
        {
            if self.pairs[i].0 == addr {
                return Some(i);
            }
            i = i + 1;
        }
        None
    }

    /// The state recorded for `addr`, if any.
    pub fn get(&self, addr: AddressKey) -> (r: Option<&PerAddressState>)
        requires
            self.wf(),
        ensures
            match r {
                Some(st) => self@.contains_key(addr) && st@ == self@[addr] && st.wf(),
                None => !self@.contains_key(addr),
            },
    {
        proof {
            lemma_assoc_map_lookup(self.entries(), addr);
        }
        match self.find(addr) {
            Some(i) => {
                proof {
                    assert(self.entries()[i as int] == (addr, self.pairs@[i as int].1@));
                }
                Some(&self.pairs[i].1)
            },
            None => {
                proof {
                    assert(forall|j: int|
                        0 <= j < self.entries().len() ==> self.entries()[j].0
                            == self.pairs@[j].0);
                }
                None
            },
        }
    }

    /// Whether a transmit-direction record for `addr` with `bytes` bytes has
    /// room in every counter it would touch; a caller checks this before
    /// `record_transmit`.
    pub fn can_record_transmit(&self, addr: AddressKey, bytes: u64) -> (r: bool)
        requires
            self.wf(),
        ensures
            r == (self@.contains_key(addr) ==> tx_fits(self@[addr], bytes)),
    {
        match self.get(addr) {
            Some(st) => st.tx_packet_count < u64::MAX && bytes <= u64::MAX - st.tx_byte_count
                && st.retransmissions < u64::MAX && st.window_size_changes < u64::MAX,
            None => true,
        }
    }

    /// Whether a receive-direction record for `addr` with `bytes` bytes has
    /// room in every counter it would touch; a caller checks this before
    /// `record_receive`.
    pub fn can_record_receive(&self, addr: AddressKey, bytes: u64) -> (r: bool)
        requires
            self.wf(),
        ensures
            r == (self@.contains_key(addr) ==> rx_fits(self@[addr], bytes)),
    {
        match self.get(addr) {
            Some(st) => st.rx_packet_count < u64::MAX && bytes <= u64::MAX - st.rx_byte_count
                && st.duplicate_acks < u64::MAX && st.window_size_changes < u64::MAX,
            None => true,
        }
    }

    /// Records one transmitted packet for `addr`: `bytes` frame bytes and, for
    /// TCP, the transmit-direction heuristics keyed by the source port. A
    /// state stamped `now_ms` is created when the address is new.
    pub fn record_transmit(
        &mut self,
        addr: AddressKey,
        bytes: u64,
        tcp: Option<TcpSegmentInfo>,
        now_ms: u64,
    )
        requires
            old(self).wf(),
            old(self)@.contains_key(addr) ==> tx_fits(old(self)@[addr], bytes),
        ensures
            final(self).wf(),
            final(self)@ == old(self)@.insert(
                addr,
                tx_step(entry_or_fresh(old(self)@, addr, now_ms as int), bytes, tcp),
            ),
    {
        proof {
            lemma_assoc_map_lookup(self.entries(), addr);
        }
        match self.find(addr) {
            Some(i) => {
                proof {
                    assert(self.entries()[i as int] == (addr, self.pairs@[i as int].1@));
                    assert(self@[addr] == self.pairs@[i as int].1@);
                }
                let (key, mut st) = self.pairs.remove(i);
                st.apply_tx(bytes, tcp);
                let ghost new_m = st@;
                self.pairs.insert(i, (key, st));
                proof {
                    assert(self.pairs@ =~= old(self).pairs@.update(i as int, (addr, self.pairs@[i as int].1)));
                    assert(self.entries() =~= old(self).entries().update(i as int, (addr, new_m)));
                    lemma_assoc_map_update(old(self).entries(), i as int, new_m);
                    assert(self@ =~= old(self)@.insert(
                        addr,
                        tx_step(entry_or_fresh(old(self)@, addr, now_ms as int), bytes, tcp),
                    ));
                }
            },
            None => {
                proof {
                    assert(forall|j: int|
                        0 <= j < self.entries().len() ==> self.entries()[j].0
                            == self.pairs@[j].0);
                    assert(!self@.contains_key(addr));
                }
                let mut st = PerAddressState::new(now_ms);
                st.apply_tx(bytes, tcp);
                let ghost new_m = st@;
                self.pairs.push((addr, st));
                proof {
                    assert(self.entries() =~= old(self).entries().push((addr, new_m)));
                    lemma_assoc_map_push(old(self).entries(), addr, new_m);
                    assert(self@ =~= old(self)@.insert(
                        addr,
                        tx_step(entry_or_fresh(old(self)@, addr, now_ms as int), bytes, tcp),
                    ));
                }
            },
        }
    }

    /// Records one received packet for `addr`: `bytes` frame bytes and, for
    /// TCP, the receive-direction heuristics keyed by the destination port. A
    /// state stamped `now_ms` is created when the address is new.
    pub fn record_receive(
        &mut self,
        addr: AddressKey,
        bytes: u64,
        tcp: Option<TcpSegmentInfo>,
        now_ms: u64,
    )
        requires
            old(self).wf(),
            old(self)@.contains_key(addr) ==> rx_fits(old(self)@[addr], bytes),
        ensures
            final(self).wf(),
            final(self)@ == old(self)@.insert(
                addr,
                rx_step(entry_or_fresh(old(self)@, addr, now_ms as int), bytes, tcp),
            ),
    {
        proof {
            lemma_assoc_map_lookup(self.entries(), addr);
        }
        match self.find(addr) {
            Some(i) => {
                proof {
                    assert(self.entries()[i as int] == (addr, self.pairs@[i as int].1@));
                    assert(self@[addr] == self.pairs@[i as int].1@);
                }
                let (key, mut st) = self.pairs.remove(i);
                st.apply_rx(bytes, tcp);
                let ghost new_m = st@;
                self.pairs.insert(i, (key, st));
                proof {
                    assert(self.pairs@ =~= old(self).pairs@.update(i as int, (addr, self.pairs@[i as int].1)));
                    assert(self.entries() =~= old(self).entries().update(i as int, (addr, new_m)));
                    lemma_assoc_map_update(old(self).entries(), i as int, new_m);
                    assert(self@ =~= old(self)@.insert(
                        addr,
                        rx_step(entry_or_fresh(old(self)@, addr, now_ms as int), bytes, tcp),
                    ));
                }
            },
            None => {
                proof {
                    assert(forall|j: int|
                        0 <= j < self.entries().len() ==> self.entries()[j].0
                            == self.pairs@[j].0);
                    assert(!self@.contains_key(addr));
                }
                let mut st = PerAddressState::new(now_ms);
                st.apply_rx(bytes, tcp);
                let ghost new_m = st@;
                self.pairs.push((addr, st));
                proof {
                    assert(self.entries() =~= old(self).entries().push((addr, new_m)));
                    lemma_assoc_map_push(old(self).entries(), addr, new_m);
                    assert(self@ =~= old(self)@.insert(
                        addr,
                        rx_step(entry_or_fresh(old(self)@, addr, now_ms as int), bytes, tcp),
                    ));
                }
            },
        }
    }

    /// Recomputes the per-second derivatives of every address whose sampling
    /// interval has completed; the others keep their previous rates.
    pub fn recompute_rates(&mut self, now_ms: u64)
        requires
            old(self).wf(),
        ensures
            final(self).wf(),
            final(self).entries().len() == old(self).entries().len(),
            forall|i: int|
                0 <= i < old(self).entries().len() ==> (#[trigger] final(self).entries()[i]) == (
                old(self).entries()[i].0,
                rate_step(old(self).entries()[i].1, now_ms as int),
                ),
            final(self)@.dom() =~= old(self)@.dom(),
            forall|k: AddressKey|
                old(self)@.contains_key(k) ==> final(self)@[k] == rate_step(
                    old(self)@[k],
                    now_ms as int,
                ),
    {
        let n = self.pairs.len();
        let mut i: usize = 0;
        while i < n
            invariant
                n == self.pairs@.len(),
                i <= n,
                self.pairs@.len() == old(self).pairs@.len(),
                forall|j: int|
                    0 <= j < i ==> (#[trigger] self.pairs@[j]).0 == old(self).pairs@[j].0
                        && self.pairs@[j].1@ == rate_step(old(self).pairs@[j].1@, now_ms as int),
                forall|j: int| i <= j < n ==> (#[trigger] self.pairs@[j]) == old(self).pairs@[j],
                forall|j: int| 0 <= j < n ==> (#[trigger] self.pairs@[j]).1.wf(),
            decreases n - i,
        {
            let ghost pre = self.pairs@;
            let (key, mut st) = self.pairs.remove(i);
            st.apply_rate(now_ms);
            let ghost npair = (key, st);
            self.pairs.insert(i, (key, st));
            proof {
                assert(self.pairs@ =~= pre.update(i as int, npair));
            }
            i = i + 1;
        }
        proof {
            let oe = old(self).entries();
            let ne = self.entries();
            assert(forall|j: int|
                0 <= j < n ==> (#[trigger] ne[j]) == (self.pairs@[j].0, self.pairs@[j].1@));
            assert(forall|j: int|
                0 <= j < n ==> (#[trigger] oe[j]) == (old(self).pairs@[j].0, old(
                    self,
                ).pairs@[j].1@));
            assert(forall|j: int|
                0 <= j < n ==> (#[trigger] ne[j]) == (oe[j].0, rate_step(oe[j].1, now_ms as int)));
            assert(unique_keys(ne)) by {
                assert(forall|a: int, b: int| 0 <= a < b < n ==> oe[a].0 != oe[b].0);
            }
            assert forall|k: AddressKey| old(self)@.contains_key(k) implies self@.contains_key(k)
                && self@[k] == rate_step(old(self)@[k], now_ms as int) by {
                lemma_assoc_map_lookup(oe, k);
                lemma_assoc_map_lookup(ne, k);
                let j = choose|j: int| 0 <= j < oe.len() && oe[j].0 == k;
                assert(ne[j].0 == k);
                assert(ne[j].1 == rate_step(oe[j].1, now_ms as int));
            }
            assert forall|k: AddressKey| self@.contains_key(k) implies old(self)@.contains_key(
                k,
            ) by {
                lemma_assoc_map_lookup(oe, k);
                lemma_assoc_map_lookup(ne, k);
                let j = choose|j: int| 0 <= j < ne.len() && ne[j].0 == k;
                assert(oe[j].0 == k);
            }
            assert forall|k: AddressKey|
                self@.dom().contains(k) == old(self)@.dom().contains(k) by {
                lemma_assoc_map_lookup(oe, k);
                lemma_assoc_map_lookup(ne, k);
                if old(self)@.contains_key(k) {
                    let j = choose|j: int| 0 <= j < oe.len() && oe[j].0 == k;
                    assert(ne[j].0 == k);
                }
                if self@.contains_key(k) {
                    let j = choose|j: int| 0 <= j < ne.len() && ne[j].0 == k;
                    assert(oe[j].0 == k);
                }
            }
            assert(self@.dom() =~= old(self)@.dom());
        }
    }

    /// Dispatches one decoded packet of `frame_len` captured bytes: an IPv4
    /// packet updates transmit statistics of its source and receive statistics
    /// of its destination, each only when in the target set; an IPv6 packet is
    /// recorded as transmit traffic of its source without a target-set check.
    /// An update whose counters have no headroom left is skipped.
    pub fn apply_packet(
        &mut self,
        pkt: &DecodedPacket,
        frame_len: u64,
        target: &Vec<AddressKey>,
        now_ms: u64,
    )
        requires
            old(self).wf(),
        ensures
            final(self).wf(),
            final(self)@ == packet_step(old(self)@, *pkt, frame_len, target@, now_ms as int),
    {
        match *pkt {
            DecodedPacket::V4 { src, dst, tcp } => {
                let ks = AddressKey::V4(src);
                let kd = AddressKey::V4(dst);
                if contains_address(target, ks) && self.can_record_transmit(ks, frame_len) {
                    self.record_transmit(ks, frame_len, tcp, now_ms);
                }
                if contains_address(target, kd) && self.can_record_receive(kd, frame_len) {
                    self.record_receive(kd, frame_len, tcp, now_ms);
                }
            },
            DecodedPacket::V6 { src, dst: _ } => {
                let k = AddressKey::V6(src);
                if self.can_record_transmit(k, frame_len) {
                    self.record_transmit(k, frame_len, None, now_ms);
                }
            },
        }
    }
}

/// Whether `a` is one of the addresses in `v`.
pub fn contains_address(v: &Vec<AddressKey>, a: AddressKey) -> (r: bool)
    ensures
        r == v@.contains(a),
{
    let n = v.len();
    let mut i: usize = 0;
    while i < n
        invariant
            n == v@.len(),
            i <= n,
            forall|j: int| 0 <= j < i ==> v@[j] != a,
        decreases n - i,
    {
        if v[i] == a {
            assert(v@[i as int] == a);
            return true;
        }
        i = i + 1;
    }
    false
}

} // verus!
