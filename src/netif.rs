use vstd::prelude::*;
use crate::util::IPv4Addr;

verus! {

/// The interface's own address, 10.0.0.2.
pub const LOCAL_IP: IPv4Addr = 0x0a000002;

/// The address that outbound datagrams carry as their source.
pub fn get_ipaddr() -> (r: IPv4Addr)
    ensures
        r == LOCAL_IP,
{
    LOCAL_IP
}

} // verus!
