//! What the dashboard shows: one row per observed address, sorted by
//! descending combined bit rate, with the in-subnet/external split.

use vstd::prelude::*;
use vstd::multiset::Multiset;
use vstd::seq_lib::{to_multiset_build, to_multiset_contains, to_multiset_remove};
use vstd::string::StringExecFns;
use crate::engine::{contains_address, FlowStats};
use crate::metrics::{cap128, sat_add_u128};
use crate::model::{AddrModel, AddressKey};

verus! {

/// One dashboard row: an address, its current derivatives, and whether it
/// belongs to the monitored subnet (rows of outside correspondents are shown
/// too, marked).
#[derive(Clone, Copy, Debug, PartialEq, Eq, Structural)]
pub struct DisplayRow {
    pub addr: AddressKey,
    pub tx_bytes_per_sec: u64,
    pub rx_bytes_per_sec: u64,
    pub tx_bps: u128,
    pub rx_bps: u128,
    pub retransmissions_per_sec: u64,
    pub duplicate_acks_per_sec: u64,
    pub window_changes_per_sec: u64,
    pub in_target: bool,
}

/// The row that one engine entry yields.
pub open spec fn spec_row(p: (AddressKey, AddrModel), target: Seq<AddressKey>) -> DisplayRow {
    DisplayRow {
        addr: p.0,
        tx_bytes_per_sec: p.1.tx_bytes_per_sec as u64,
        rx_bytes_per_sec: p.1.rx_bytes_per_sec as u64,
        tx_bps: p.1.tx_bps as u128,
        rx_bps: p.1.rx_bps as u128,
        retransmissions_per_sec: p.1.retransmissions_per_sec as u64,
        duplicate_acks_per_sec: p.1.duplicate_acks_per_sec as u64,
        window_changes_per_sec: p.1.window_changes_per_sec as u64,
        in_target: target.contains(p.0),
    }
}

/// The rows of all engine entries, unsorted.
pub open spec fn rows_of(
    es: Seq<(AddressKey, AddrModel)>,
    target: Seq<AddressKey>,
) -> Seq<DisplayRow> {
    es.map_values(|p: (AddressKey, AddrModel)| spec_row(p, target))
}

/// The sort key: the combined bit rate, held to the range of `u128`.
pub open spec fn row_key(r: DisplayRow) -> int {
    cap128(r.tx_bps + r.rx_bps)
}

/// Rows in descending key order.
pub open spec fn sorted_desc(s: Seq<DisplayRow>) -> bool {
    forall|i: int, j: int| 0 <= i <= j < s.len() ==> row_key(s[i]) >= row_key(s[j])
}

proof fn lemma_empty_to_multiset(s: Seq<DisplayRow>)
    requires
        s.len() == 0,
    ensures
        s.to_multiset() =~= Multiset::<DisplayRow>::empty(),
{
    assert forall|r: DisplayRow| s.to_multiset().count(r) == 0 by {
        to_multiset_contains(s, r);
    }
}

fn row_key_exec(r: &DisplayRow) -> (k: u128)
    ensures
        k == row_key(*r),
{
    sat_add_u128(r.tx_bps, r.rx_bps)
}

/// Sorts rows by descending combined bit rate: the result is a permutation of
/// the input, in descending key order.
fn sort_rows_desc(v: Vec<DisplayRow>) -> (r: Vec<DisplayRow>)
    ensures
        sorted_desc(r@),
        r@.to_multiset() == v@.to_multiset(),
        r@.len() == v@.len(),
{
    let mut rest = v;
    let ghost orig = rest@;
    let mut out: Vec<DisplayRow> = Vec::new();
    proof {
        lemma_empty_to_multiset(out@);
        assert(out@.to_multiset().add(rest@.to_multiset()) =~= orig.to_multiset());
    }
    while rest.len() > 0
        invariant
            out@.to_multiset().add(rest@.to_multiset()) == orig.to_multiset(),
            out@.len() + rest@.len() == orig.len(),
            sorted_desc(out@),
            forall|a: int, b: int|
                0 <= a < out@.len() && 0 <= b < rest@.len() ==> row_key(out@[a]) >= row_key(
                    rest@[b],
                ),
        decreases rest@.len(),
    {
        let mut best: usize = 0;
        let mut best_key: u128 = row_key_exec(&rest[0]);
        let mut k: usize = 1;
        while k < rest.len()
            invariant
                0 < rest@.len(),
                best < k,
                k <= rest@.len(),
                best_key == row_key(rest@[best as int]),
                forall|j: int| 0 <= j < k ==> row_key(rest@[j]) <= row_key(rest@[best as int]),
            decreases rest@.len() - k,
        {
            let kk = row_key_exec(&rest[k]);
            if kk > best_key {
                best = k;
                best_key = kk;
            }
            k = k + 1;
        }
        let ghost pre_rest = rest@;
        let ghost pre_out = out@;
        let m = rest.remove(best);
        out.push(m);
        proof {
            to_multiset_remove(pre_rest, best as int);
            to_multiset_build(pre_out, m);
            assert(pre_rest.contains(m)) by {
                assert(pre_rest[best as int] == m);
            }
            to_multiset_contains(pre_rest, m);
            assert(out@.to_multiset().add(rest@.to_multiset()) =~= orig.to_multiset());
            assert forall|b: int| 0 <= b < rest@.len() implies row_key(m) >= row_key(
                rest@[b],
            ) by {
                if b < best {
                    assert(rest@[b] == pre_rest[b]);
                } else {
                    assert(rest@[b] == pre_rest[b + 1]);
                }
            }
        }
    }
    proof {
        lemma_empty_to_multiset(rest@);
        assert(out@.to_multiset() =~= orig.to_multiset());
    }
    out
}

impl FlowStats {
    /// The dashboard rows: one per observed address, flagged by target-set
    /// membership, sorted by descending combined bit rate. The result is a
    /// permutation of the engine's rows.
    pub fn sorted_rows(&self, target: &Vec<AddressKey>) -> (r: Vec<DisplayRow>)
        requires
            self.wf(),
        ensures
            sorted_desc(r@),
            r@.to_multiset() == rows_of(self.entries(), target@).to_multiset(),
            r@.len() == self.entries().len(),
    {
        let ghost es = self.entries();
        let n = self.len();
        let mut rows: Vec<DisplayRow> = Vec::new();
        let mut i: usize = 0;
        while i < n
            invariant
                self.wf(),
                es == self.entries(),
                n == es.len(),
                i <= n,
                rows@.len() == i,
                forall|j: int| 0 <= j < i ==> rows@[j] == rows_of(es, target@)[j],
            decreases n - i,
        {
            let e = self.entry_at(i);
            let in_t = contains_address(target, e.0);
            rows.push(
                DisplayRow {
                    addr: e.0,
                    tx_bytes_per_sec: e.1.tx_bytes_per_sec,
                    rx_bytes_per_sec: e.1.rx_bytes_per_sec,
                    tx_bps: e.1.tx_current_bps,
                    rx_bps: e.1.rx_current_bps,
                    retransmissions_per_sec: e.1.retransmissions_per_sec,
                    duplicate_acks_per_sec: e.1.duplicate_acks_per_sec,
                    window_changes_per_sec: e.1.window_size_changes_per_sec,
                    in_target: in_t,
                },
            );
            i = i + 1;
        }
        proof {
            assert(rows@ =~= rows_of(es, target@));
        }
        sort_rows_desc(rows)
    }
}

/// How many of the rows lie in the target set.
pub open spec fn spec_count_in_target(s: Seq<DisplayRow>) -> int
    decreases s.len(),
{
    if s.len() == 0 {
        0
    } else {
        spec_count_in_target(s.drop_last()) + if s.last().in_target {
            1int
        } else {
            0int
        }
    }
}

/// Counts the rows whose address is in the target set; the rest are external
/// correspondents.
pub fn count_in_target(rows: &Vec<DisplayRow>) -> (n: usize)
    ensures
        n == spec_count_in_target(rows@),
        n <= rows@.len(),
{
    let len = rows.len();
    let mut n: usize = 0;
    let mut i: usize = 0;
    proof {
        assert(rows@.take(0) =~= Seq::<DisplayRow>::empty());
    }
    while i < len
        invariant
            len == rows@.len(),
            i <= len,
            n <= i,
            n == spec_count_in_target(rows@.take(i as int)),
        decreases len - i,
    {
        proof {
            assert(rows@.take(i + 1).drop_last() =~= rows@.take(i as int));
            assert(rows@.take(i + 1).last() == rows@[i as int]);
        }
        if rows[i].in_target {
            n = n + 1;
        }
        i = i + 1;
    }
    proof {
        assert(rows@.take(len as int) =~= rows@);
    }
    n
}

/// The decimal digit `d` as a character.
pub open spec fn digit_char(d: int) -> char {
    if d == 0 {
        '0'
    } else if d == 1 {
        '1'
    } else if d == 2 {
        '2'
    } else if d == 3 {
        '3'
    } else if d == 4 {
        '4'
    } else if d == 5 {
        '5'
    } else if d == 6 {
        '6'
    } else if d == 7 {
        '7'
    } else if d == 8 {
        '8'
    } else {
        '9'
    }
}

/// The decimal digits of `n`, most significant first.
pub open spec fn spec_decimal(n: int) -> Seq<char>
    decreases n,
{
    if n < 10 {
        seq![digit_char(n)]
    } else {
        spec_decimal(n / 10).push(digit_char(n % 10))
    }
}

/// `n` scaled by `base` with one decimal digit, rounded half up: the digits of
/// the whole part, a point, and the tenths digit.
pub open spec fn spec_one_decimal(n: int, base: int) -> Seq<char> {
    let tenths = (20 * n + base) / (2 * base);
    spec_decimal(tenths / 10) + seq!['.'] + seq![digit_char(tenths % 10)]
}

/// A byte count in short form: scaled to a binary unit with one decimal digit
/// and the unit letter, or the plain digits below one kibibyte.
pub open spec fn spec_format_bytes_short(n: int) -> Seq<char> {
    if n >= 1_073_741_824 {
        spec_one_decimal(n, 1_073_741_824) + seq!['G']
    } else if n >= 1_048_576 {
        spec_one_decimal(n, 1_048_576) + seq!['M']
    } else if n >= 1_024 {
        spec_one_decimal(n, 1_024) + seq!['K']
    } else {
        spec_decimal(n)
    }
}

/// A bit rate in short form: scaled to a decimal unit with one decimal digit
/// and the unit letter, or the plain digits below one thousand.
pub open spec fn spec_format_bps_short(n: int) -> Seq<char> {
    if n >= 1_000_000_000 {
        spec_one_decimal(n, 1_000_000_000) + seq!['G']
    } else if n >= 1_000_000 {
        spec_one_decimal(n, 1_000_000) + seq!['M']
    } else if n >= 1_000 {
        spec_one_decimal(n, 1_000) + seq!['K']
    } else {
        spec_decimal(n)
    }
}

fn digit_str(d: u64) -> (r: &'static str)
    requires
        d < 10,
    ensures
        r@ == seq![digit_char(d as int)],
{
    proof {
        reveal_strlit("0");
        reveal_strlit("1");
        reveal_strlit("2");
        reveal_strlit("3");
        reveal_strlit("4");
        reveal_strlit("5");
        reveal_strlit("6");
        reveal_strlit("7");
        reveal_strlit("8");
        reveal_strlit("9");
    }
    if d == 0 {
        "0"
    } else if d == 1 {
        "1"
    } else if d == 2 {
        "2"
    } else if d == 3 {
        "3"
    } else if d == 4 {
        "4"
    } else if d == 5 {
        "5"
    } else if d == 6 {
        "6"
    } else if d == 7 {
        "7"
    } else if d == 8 {
        "8"
    } else {
        "9"
    }
}

/// The decimal digits of `n`.
pub fn decimal_string(n: u128) -> (r: String)
    ensures
        r@ == spec_decimal(n as int),
    decreases n,
{
    if n < 10 {
        let mut s = String::new();
        s.append(digit_str(n as u64));
        proof {
            assert(s@ =~= spec_decimal(n as int));
        }
        s
    } else {
        let mut s = decimal_string(n / 10);
        s.append(digit_str((n % 10) as u64));
        proof {
            assert(s@ =~= spec_decimal(n as int));
        }
        s
    }
}

fn one_decimal_string(n: u128, base: u128) -> (r: String)
    requires
        base >= 1,
        20 * n + base <= u128::MAX,
        2 * base <= u128::MAX,
    ensures
        r@ == spec_one_decimal(n as int, base as int),
{
    let tenths: u128 = (20 * n + base) / (2 * base);
    let mut s = decimal_string(tenths / 10);
    proof {
        reveal_strlit(".");
    }
    s.append(".");
    s.append(digit_str((tenths % 10) as u64));
    proof {
        assert(s@ =~= spec_one_decimal(n as int, base as int));
    }
    s
}

/// A byte count for a fixed-width column: one decimal digit with a G, M or K
/// binary-unit suffix, or the plain digits below one kibibyte.
pub fn format_bytes_short(bytes: u64) -> (r: String)
    ensures
        r@ == spec_format_bytes_short(bytes as int),
{
    proof {
        reveal_strlit("G");
        reveal_strlit("M");
        reveal_strlit("K");
    }
    if bytes >= 1_073_741_824 {
        let mut s = one_decimal_string(bytes as u128, 1_073_741_824);
        s.append("G");
        proof {
            assert(s@ =~= spec_format_bytes_short(bytes as int));
        }
        s
    } else if bytes >= 1_048_576 {
        let mut s = one_decimal_string(bytes as u128, 1_048_576);
        s.append("M");
        proof {
            assert(s@ =~= spec_format_bytes_short(bytes as int));
        }
        s
    } else if bytes >= 1_024 {
        let mut s = one_decimal_string(bytes as u128, 1_024);
        s.append("K");
        proof {
            assert(s@ =~= spec_format_bytes_short(bytes as int));
        }
        s
    } else {
        decimal_string(bytes as u128)
    }
}

/// A bit rate for a fixed-width column: one decimal digit with a G, M or K
/// decimal-unit suffix, or the plain digits below one thousand.
pub fn format_bps_short(bps: u128) -> (r: String)
    requires
        20 * bps + 2_000_000_000 <= u128::MAX,
    ensures
        r@ == spec_format_bps_short(bps as int),
{
    proof {
        reveal_strlit("G");
        reveal_strlit("M");
        reveal_strlit("K");
    }
    if bps >= 1_000_000_000 {
        let mut s = one_decimal_string(bps, 1_000_000_000);
        s.append("G");
        proof {
            assert(s@ =~= spec_format_bps_short(bps as int));
        }
        s
    } else if bps >= 1_000_000 {
        let mut s = one_decimal_string(bps, 1_000_000);
        s.append("M");
        proof {
            assert(s@ =~= spec_format_bps_short(bps as int));
        }
        s
    } else if bps >= 1_000 {
        let mut s = one_decimal_string(bps, 1_000);
        s.append("K");
        proof {
            assert(s@ =~= spec_format_bps_short(bps as int));
        }
        s
    } else {
        decimal_string(bps)
    }
}

} // verus!
