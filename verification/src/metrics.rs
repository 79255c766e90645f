//! Aggregate totals over the target set, and the guard that keeps exported
//! cumulative counters monotonic: an exporter only ever adds the positive
//! delta since its last export, never re-sets an absolute value.

use vstd::prelude::*;
use crate::engine::{contains_address, FlowStats};
use crate::model::{AddrModel, AddressKey};

verus! {

/// The mathematical totals over a pair sequence: each field the plain sum of
/// that field over the entries whose address is in the target set.
#[verifier::ext_equal]
pub struct TotalsModel {
    pub tx_bytes: int,
    pub rx_bytes: int,
    pub tx_bytes_per_sec: int,
    pub rx_bytes_per_sec: int,
    pub tx_bps: int,
    pub rx_bps: int,
    pub retransmissions_per_sec: int,
    pub duplicate_acks_per_sec: int,
    pub window_changes_per_sec: int,
}

/// The totals of no entries.
pub open spec fn totals_zero() -> TotalsModel {
    TotalsModel {
        tx_bytes: 0,
        rx_bytes: 0,
        tx_bytes_per_sec: 0,
        rx_bytes_per_sec: 0,
        tx_bps: 0,
        rx_bps: 0,
        retransmissions_per_sec: 0,
        duplicate_acks_per_sec: 0,
        window_changes_per_sec: 0,
    }
}

/// `t` with one address's statistics added.
pub open spec fn totals_add(t: TotalsModel, s: AddrModel) -> TotalsModel {
    TotalsModel {
        tx_bytes: t.tx_bytes + s.tx_bytes,
        rx_bytes: t.rx_bytes + s.rx_bytes,
        tx_bytes_per_sec: t.tx_bytes_per_sec + s.tx_bytes_per_sec,
        rx_bytes_per_sec: t.rx_bytes_per_sec + s.rx_bytes_per_sec,
        tx_bps: t.tx_bps + s.tx_bps,
        rx_bps: t.rx_bps + s.rx_bps,
        retransmissions_per_sec: t.retransmissions_per_sec + s.retransmissions_per_sec,
        duplicate_acks_per_sec: t.duplicate_acks_per_sec + s.duplicate_acks_per_sec,
        window_changes_per_sec: t.window_changes_per_sec + s.window_changes_per_sec,
    }
}

/// The totals over `es` restricted to the target set: an entry contributes
/// exactly when its address is in `target`, so addresses outside the set never
/// count, however much traffic they carry.
pub open spec fn totals_of(
    es: Seq<(AddressKey, AddrModel)>,
    target: Seq<AddressKey>,
) -> TotalsModel
    decreases es.len(),
{
    if es.len() == 0 {
        totals_zero()
    } else {
        let rest = totals_of(es.drop_last(), target);
        if target.contains(es.last().0) {
            totals_add(rest, es.last().1)
        } else {
            rest
        }
    }
}

/// All fields of `t` are nonnegative.
pub open spec fn totals_nonneg(t: TotalsModel) -> bool {
    &&& t.tx_bytes >= 0
    &&& t.rx_bytes >= 0
    &&& t.tx_bytes_per_sec >= 0
    &&& t.rx_bytes_per_sec >= 0
    &&& t.tx_bps >= 0
    &&& t.rx_bps >= 0
    &&& t.retransmissions_per_sec >= 0
    &&& t.duplicate_acks_per_sec >= 0
    &&& t.window_changes_per_sec >= 0
}

/// `x` held to the range of `u128`.
pub open spec fn cap128(x: int) -> int {
    if x > u128::MAX {
        u128::MAX as int
    } else {
        x
    }
}

/// Aggregate statistics over the target set, each the corresponding
/// mathematical sum held to the range of `u128`.
#[derive(Clone, Copy, Debug, PartialEq, Eq, Structural)]
pub struct Totals {
    pub tx_bytes: u128,
    pub rx_bytes: u128,
    pub tx_bytes_per_sec: u128,
    pub rx_bytes_per_sec: u128,
    pub tx_bps: u128,
    pub rx_bps: u128,
    pub retransmissions_per_sec: u128,
    pub duplicate_acks_per_sec: u128,
    pub window_changes_per_sec: u128,
}

/// Addition held to the range of `u128`.
pub fn sat_add_u128(a: u128, b: u128) -> (r: u128)
    ensures
        r == cap128(a + b),
{
    if b > u128::MAX - a {
        u128::MAX
    } else {
        a + b
    }
}

impl FlowStats {
    /// The aggregate totals over `target`: for each statistic, the sum of the
    /// per-address values of exactly the observed addresses in the target set.
    pub fn totals(&self, target: &Vec<AddressKey>) -> (t: Totals)
        requires
            self.wf(),
        ensures
            ({
                let m = totals_of(self.entries(), target@);
                &&& t.tx_bytes == cap128(m.tx_bytes)
                &&& t.rx_bytes == cap128(m.rx_bytes)
                &&& t.tx_bytes_per_sec == cap128(m.tx_bytes_per_sec)
                &&& t.rx_bytes_per_sec == cap128(m.rx_bytes_per_sec)
                &&& t.tx_bps == cap128(m.tx_bps)
                &&& t.rx_bps == cap128(m.rx_bps)
                &&& t.retransmissions_per_sec == cap128(m.retransmissions_per_sec)
                &&& t.duplicate_acks_per_sec == cap128(m.duplicate_acks_per_sec)
                &&& t.window_changes_per_sec == cap128(m.window_changes_per_sec)
            }),
    {
        let ghost es = self.entries();
        let n = self.len();
        let mut t = Totals {
            tx_bytes: 0,
            rx_bytes: 0,
            tx_bytes_per_sec: 0,
            rx_bytes_per_sec: 0,
            tx_bps: 0,
            rx_bps: 0,
            retransmissions_per_sec: 0,
            duplicate_acks_per_sec: 0,
            window_changes_per_sec: 0,
        };
        let mut i: usize = 0;
        proof {
            assert(es.take(0) =~= Seq::<(AddressKey, AddrModel)>::empty());
        }
        while i < n
            invariant
                self.wf(),
                es == self.entries(),
                n == es.len(),
                i <= n,
                totals_nonneg(totals_of(es.take(i as int), target@)),
                ({
                    let m = totals_of(es.take(i as int), target@);
                    &&& t.tx_bytes == cap128(m.tx_bytes)
                    &&& t.rx_bytes == cap128(m.rx_bytes)
                    &&& t.tx_bytes_per_sec == cap128(m.tx_bytes_per_sec)
                    &&& t.rx_bytes_per_sec == cap128(m.rx_bytes_per_sec)
                    &&& t.tx_bps == cap128(m.tx_bps)
                    &&& t.rx_bps == cap128(m.rx_bps)
                    &&& t.retransmissions_per_sec == cap128(m.retransmissions_per_sec)
                    &&& t.duplicate_acks_per_sec == cap128(m.duplicate_acks_per_sec)
                    &&& t.window_changes_per_sec == cap128(m.window_changes_per_sec)
                }),
            decreases n - i,
        {
            let e = self.entry_at(i);
            proof {
                assert(es.take(i + 1).drop_last() =~= es.take(i as int));
                assert(es.take(i + 1).last() == es[i as int]);
            }
            if contains_address(target, e.0) {
                t.tx_bytes = sat_add_u128(t.tx_bytes, e.1.tx_byte_count as u128);
                t.rx_bytes = sat_add_u128(t.rx_bytes, e.1.rx_byte_count as u128);
                t.tx_bytes_per_sec = sat_add_u128(t.tx_bytes_per_sec, e.1.tx_bytes_per_sec as u128);
                t.rx_bytes_per_sec = sat_add_u128(t.rx_bytes_per_sec, e.1.rx_bytes_per_sec as u128);
                t.tx_bps = sat_add_u128(t.tx_bps, e.1.tx_current_bps);
                t.rx_bps = sat_add_u128(t.rx_bps, e.1.rx_current_bps);
                t.retransmissions_per_sec = sat_add_u128(
                    t.retransmissions_per_sec,
                    e.1.retransmissions_per_sec as u128,
                );
                t.duplicate_acks_per_sec = sat_add_u128(
                    t.duplicate_acks_per_sec,
                    e.1.duplicate_acks_per_sec as u128,
                );
                t.window_changes_per_sec = sat_add_u128(
                    t.window_changes_per_sec,
                    e.1.window_size_changes_per_sec as u128,
                );
            }
            i = i + 1;
        }
        proof {
            assert(es.take(n as int) =~= es);
        }
        t
    }
}

/// How much an exported monotonic counter must be advanced so that it reads
/// `current`: the positive delta over the previously exported value, and zero
/// when the current value does not exceed it.
pub fn export_delta(previous: u128, current: u128) -> (d: u128)
    ensures
        d == if current > previous {
            current - previous
        } else {
            0int
        },
{
    if current > previous {
        current - previous
    } else {
        0
    }
}

} // verus!
