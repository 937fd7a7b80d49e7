//! Choosing the receiver's address among those its mDNS record resolves to.

use vstd::prelude::*;

verus! {

/// mDNS service type under which receivers advertise themselves.
pub const MDNS_SERVICE_TYPE: &'static str = "_lanaudio._udp.local.";

/// Picks the address to connect to: IPv4 addresses come first for
/// compatibility, in the order given; without one, the first address.
pub fn pick_address(is_ipv4: &Vec<bool>) -> (picked: Option<usize>)
    ensures
        match picked {
            Some(i) => {
                &&& i < is_ipv4@.len()
                &&& (is_ipv4@[i as int] || forall|j: int| 0 <= j < is_ipv4@.len() ==> !is_ipv4@[j])
                &&& is_ipv4@[i as int] ==> forall|j: int| 0 <= j < i ==> !is_ipv4@[j]
                &&& !is_ipv4@[i as int] ==> i == 0
            },
            None => is_ipv4@.len() == 0,
        },
{
    let mut i: usize = 0;
    while i < is_ipv4.len()
        invariant
            i <= is_ipv4@.len(),
            forall|j: int| 0 <= j < i ==> !is_ipv4@[j],
        decreases is_ipv4@.len() - i,
    {
        if is_ipv4[i] {
            return Some(i);
        }
        i = i + 1;
    }
    if is_ipv4.len() > 0 {
        Some(0)
    } else {
        None
    }
}

} // verus!
