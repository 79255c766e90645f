//! Address-range resolution: from an interface's IPv4 address and prefix
//! length to the usable host addresses of its subnet (network and broadcast
//! addresses excluded).

use vstd::prelude::*;

verus! {

/// The subnet mask for a prefix length: the top `prefix` bits set.
pub open spec fn spec_mask(prefix: u8) -> u32
    recommends
        prefix <= 32,
{
    if prefix >= 32 {
        0xFFFF_FFFFu32
    } else {
        !(0xFFFF_FFFFu32 >> prefix)
    }
}

/// The network address: the interface address with the host bits cleared.
pub open spec fn spec_network(ip: u32, prefix: u8) -> u32 {
    ip & spec_mask(prefix)
}

/// The broadcast address: the network address with the host bits set.
pub open spec fn spec_broadcast(ip: u32, prefix: u8) -> u32 {
    spec_network(ip, prefix) | !spec_mask(prefix)
}

/// How many addresses lie strictly between the network and broadcast
/// addresses.
pub open spec fn spec_host_count(ip: u32, prefix: u8) -> int {
    if spec_broadcast(ip, prefix) > spec_network(ip, prefix) + 1 {
        spec_broadcast(ip, prefix) - spec_network(ip, prefix) - 1
    } else {
        0
    }
}

/// The usable host addresses of the subnet `ip/prefix`, in increasing order:
/// every address strictly between the network address and the broadcast
/// address. Prefixes 31 and 32 leave no usable host, so the result is empty.
pub fn subnet_hosts(ip: u32, prefix: u8) -> (r: Vec<u32>)
    requires
        prefix <= 32,
    ensures
        r@.len() == spec_host_count(ip, prefix),
        forall|i: int|
            0 <= i < r@.len() ==> r@[i] == spec_network(ip, prefix) + 1 + i,
        forall|x: u32|
            #[trigger] r@.contains(x) <==> spec_network(ip, prefix) < x < spec_broadcast(
                ip,
                prefix,
            ),
{
    if prefix >= 31 {
        proof {
            assert(spec_broadcast(ip, prefix) <= spec_network(ip, prefix) + 1) by {
                if prefix == 31 {
                    assert((ip & !(0xFFFF_FFFFu32 >> 31u8)) | !(!(0xFFFF_FFFFu32 >> 31u8))
                        <= (ip & !(0xFFFF_FFFFu32 >> 31u8)) + 1) by (bit_vector);
                } else {
                    assert((ip & 0xFFFF_FFFFu32) | !0xFFFF_FFFFu32 == ip & 0xFFFF_FFFFu32)
                        by (bit_vector);
                }
            }
        }
        return Vec::new();
    }
    let mask: u32 = !(0xFFFF_FFFFu32 >> prefix);
    let network: u32 = ip & mask;
    let broadcast: u32 = network | !mask;
    proof {
        assert(network <= 0xFFFF_FFFCu32 && network + 3 <= broadcast) by (bit_vector)
            requires
                prefix < 31u8,
                mask == !(0xFFFF_FFFFu32 >> prefix),
                network == ip & mask,
                broadcast == network | !mask,
        ;
        assert(network == spec_network(ip, prefix));
        assert(broadcast == spec_broadcast(ip, prefix));
    }
    let mut r: Vec<u32> = Vec::new();
    let mut a: u32 = network + 1;
    while a < broadcast
        invariant
            network + 1 <= a <= broadcast,
            r@.len() == a - network - 1,
            forall|i: int| 0 <= i < r@.len() ==> r@[i] == network + 1 + i,
        decreases broadcast - a,
    {
        r.push(a);
        a = a + 1;
    }
    proof {
        assert forall|x: u32|
            #[trigger] r@.contains(x) <==> network < x < broadcast by {
            if network < x < broadcast {
                let i: int = x - network - 1;
                assert(r@[i] == x);
            }
        }
    }
    r
}

} // verus!
