use vstd::prelude::*;
use crate::buf::NetBuffer;
use crate::netif::{get_ipaddr, LOCAL_IP};
use crate::util::{
    be16_at, be32_at, checksum_of, compute_checksum, get_be32, lemma_checksum_fill, IPv4Addr,
};

verus! {

pub const PROTO_ICMP: u8 = 1;
pub const PROTO_TCP: u8 = 6;
pub const PROTO_UDP: u8 = 17;

/// Bytes in a header without options.
pub const IP_HEADER_LEN: usize = 20;
pub const DEFAULT_TTL: u8 = 64;
/// Version 4, header of 5 words.
pub const VERSION_IHL: u8 = 0x45;

//    0               1               2               3
//    +-------+-------+---------------+-------------------------------+
//  0 |Version|  IHL  |Type of Service|          Total Length         |
//    +-------+-------+---------------+-----+-------------------------+
//  4 |         Identification        |Flags|      Fragment Offset    |
//    +---------------+---------------+-----+-------------------------+
//  8 |  Time to Live |    Protocol   |         Header Checksum       |
//    +---------------+---------------+-------------------------------+
// 12 |                       Source Address                          |
//    +---------------------------------------------------------------+
// 16 |                    Destination Address                        |
//    +-----------------------------------------------+---------------+
// 20 |                    Options                    |    Padding    |
//    +-----------------------------------------------+---------------+

/// The upper-layer protocols that inbound datagrams are handed to.
#[derive(Clone, Copy, Debug, PartialEq, Eq, Structural)]
pub enum Protocol {
    Icmp,
    Tcp,
    Udp,
}

/// What became of an inbound frame.
#[derive(Clone, Copy, Debug, PartialEq, Eq, Structural)]
pub enum Verdict {
    /// The version nibble is not 4: not ours, dropped without a word.
    NotIpv4,
    /// Empty, or the header length is under 20 bytes or over what was captured.
    Malformed,
    /// The header's checksum does not come out zero; `checksum` is what it came to.
    BadChecksum { checksum: u16 },
    /// No handler for protocol `number`.
    UnknownProtocol { number: u8 },
    /// The header was stripped; the rest goes to the handler of `protocol`.
    Deliver { protocol: Protocol, source: IPv4Addr, dest: IPv4Addr },
}

/// Version nibble of the first byte.
pub open spec fn version_of(w: Seq<u8>) -> nat {
    (w[0] / 16) as nat
}

/// Header length in bytes: the low nibble of the first byte, in 32-bit words.
pub open spec fn header_len_of(w: Seq<u8>) -> nat {
    ((w[0] % 16) * 4) as nat
}

pub open spec fn protocol_of(p: u8) -> Option<Protocol> {
    if p == PROTO_ICMP {
        Some(Protocol::Icmp)
    } else if p == PROTO_TCP {
        Some(Protocol::Tcp)
    } else if p == PROTO_UDP {
        Some(Protocol::Udp)
    } else {
        None
    }
}

/// What inbound processing decides about the captured bytes `w`.
pub open spec fn verdict_of(w: Seq<u8>) -> Verdict {
    if w.len() == 0 {
        Verdict::Malformed
    } else if version_of(w) != 4 {
        Verdict::NotIpv4
    } else if header_len_of(w) < IP_HEADER_LEN || header_len_of(w) > w.len() {
        Verdict::Malformed
    } else if checksum_of(w.subrange(0, header_len_of(w) as int)) != 0 {
        Verdict::BadChecksum {
            checksum: checksum_of(w.subrange(0, header_len_of(w) as int)) as u16,
        }
    } else {
        match protocol_of(w[9]) {
            Some(p) => Verdict::Deliver {
                protocol: p,
                source: be32_at(w, 12) as u32,
                dest: be32_at(w, 16) as u32,
            },
            None => Verdict::UnknownProtocol { number: w[9] },
        }
    }
}

/// Validates the IPv4 header at the front of `packet`'s window and decides
/// where the datagram goes. On `Deliver` the header is stripped, so that the
/// window is the upper-layer payload; on every other verdict the buffer is
/// left as it was.
pub fn ip_input(packet: &mut NetBuffer) -> (r: Verdict)
    requires
        old(packet).wf(),
    ensures
        final(packet).wf(),
        r == verdict_of(old(packet).window()),
        old(packet).window().len() > 0 && version_of(old(packet).window()) != 4 ==> r
            == Verdict::NotIpv4,
        old(packet).window().len() > 0 && version_of(old(packet).window()) == 4 && (header_len_of(
            old(packet).window(),
        ) < IP_HEADER_LEN || header_len_of(old(packet).window()) > old(packet).window().len())
            ==> r == Verdict::Malformed,
        r is Deliver ==> {
            &&& IP_HEADER_LEN <= header_len_of(old(packet).window()) <= old(packet).window().len()
            &&& checksum_of(old(packet).window().subrange(0, header_len_of(old(packet).window()) as int)) == 0
            &&& final(packet).store() == old(packet).store()
            &&& final(packet).start() == old(packet).start() + header_len_of(old(packet).window())
            &&& final(packet).end() == old(packet).end()
            &&& final(packet).window() == old(packet).window().subrange(
                header_len_of(old(packet).window()) as int,
                old(packet).window().len() as int,
            )
        },
        !(r is Deliver) ==> {
            &&& final(packet).store() == old(packet).store()
            &&& final(packet).start() == old(packet).start()
            &&& final(packet).end() == old(packet).end()
        },
{
    let len = packet.payload_len();
    if len == 0 {
        return Verdict::Malformed;
    }
    let first = packet.byte(0);
    if first / 16 != 4 {
        return Verdict::NotIpv4;
    }
    let header_len = ((first % 16) as usize) * 4;
    if header_len < IP_HEADER_LEN || header_len > len {
        return Verdict::Malformed;
    }
    let w = packet.payload();
    let checksum = compute_checksum(vstd::slice::slice_subrange(w, 0, header_len));
    if checksum != 0 {
        return Verdict::BadChecksum { checksum };
    }
    let protocol = w[9];
    let source = get_be32(w, 12);
    let dest = get_be32(w, 16);
    let dispatched = if protocol == PROTO_ICMP {
        Protocol::Icmp
    } else if protocol == PROTO_TCP {
        Protocol::Tcp
    } else if protocol == PROTO_UDP {
        Protocol::Udp
    } else {
        return Verdict::UnknownProtocol { number: protocol };
    };
    packet.remove_header(header_len);
    Verdict::Deliver { protocol: dispatched, source, dest }
}

/// The fields that outbound processing writes into the 20-byte header `h`.
pub open spec fn header_fields(
    h: Seq<u8>,
    total: nat,
    id: u16,
    protocol: u8,
    source: IPv4Addr,
    dest: IPv4Addr,
) -> bool {
    &&& h[0] == VERSION_IHL
    &&& be16_at(h, 2) == total
    &&& be16_at(h, 4) == id
    &&& h[8] == DEFAULT_TTL
    &&& h[9] == protocol
    &&& be32_at(h, 12) == source
    &&& be32_at(h, 16) == dest
}

/// Prepends a 20-byte IPv4 header to `packet`'s window, which holds the
/// upper-layer payload, and returns the datagram ready to send. The header
/// carries identification `id`, the interface's own address as source,
/// `dest_addr` as destination, and a checksum that makes the header's own
/// checksum come out zero. Type of service and the flags and fragment offset
/// keep whatever the reserved room held.
pub fn ip_output(packet: NetBuffer, protocol: u8, dest_addr: IPv4Addr, id: u16) -> (r: NetBuffer)
    requires
        packet.wf(),
        IP_HEADER_LEN <= packet.headroom(),
    ensures
        r.wf(),
        r.start() == packet.start() - IP_HEADER_LEN,
        r.end() == packet.end(),
        r.window().subrange(IP_HEADER_LEN as int, r.window().len() as int) == packet.window(),
        header_fields(r.window(), r.window().len(), id, protocol, LOCAL_IP, dest_addr),
        checksum_of(r.window().subrange(0, IP_HEADER_LEN as int)) == 0,
        r.window()[1] == packet.store()[r.start() + 1int],
        r.window()[6] == packet.store()[r.start() + 6int],
        r.window()[7] == packet.store()[r.start() + 7int],
{
    let mut packet = packet;
    packet.add_header(IP_HEADER_LEN);
    let ghost framed = packet.window();
    let total = packet.payload_len() as u16;
    packet.set_byte(0, VERSION_IHL);
    packet.set_be16(2, total);
    packet.set_be16(4, id);
    packet.set_byte(8, DEFAULT_TTL);
    packet.set_byte(9, protocol);
    packet.set_be16(10, 0);
    packet.set_be32(12, get_ipaddr());
    packet.set_be32(16, dest_addr);
    let ghost zeroed = packet.window().subrange(0, IP_HEADER_LEN as int);
    let checksum = compute_checksum(vstd::slice::slice_subrange(packet.payload(), 0, IP_HEADER_LEN));
    packet.set_be16(10, checksum);
    proof {
        lemma_checksum_fill(zeroed, 5);
        assert(packet.window().subrange(0, IP_HEADER_LEN as int) =~= zeroed.update(
            10,
            (checksum_of(zeroed) / 256) as u8,
        ).update(11, (checksum_of(zeroed) % 256) as u8));
        assert(packet.window().subrange(IP_HEADER_LEN as int, packet.window().len() as int)
            =~= framed.subrange(IP_HEADER_LEN as int, framed.len() as int));
    }
    packet
}

/// The identification value handed out `k` calls after one that handed out
/// `start`: the counter wraps at 65536.
pub open spec fn id_after(start: u16, k: nat) -> u16 {
    ((start + k) % 65536) as u16
}

/// The source of identification values for outbound datagrams: each call
/// of `next_id` hands out the current value and moves on by one, wrapping at
/// 65536. Callers on several threads share one counter behind a lock.
pub struct IdCounter {
    next: u16,
}

impl IdCounter {
    /// The value that the next call hands out.
    pub closed spec fn value(&self) -> u16 {
        self.next
    }

    /// A counter that starts at zero.
    pub fn new() -> (r: IdCounter)
        ensures
            r.value() == 0,
    {
        IdCounter { next: 0 }
    }

    /// Hands out the current value and advances by one, wrapping at 65536.
    pub fn next_id(&mut self) -> (r: u16)
        ensures
            r == old(self).value(),
            final(self).value() == id_after(old(self).value(), 1),
    {
        let r = self.next;
        self.next = if r == 65535 {
            0
        } else {
            r + 1
        };
        r
    }
}

/// Advancing the counter once from the value `k` calls on gives the value
/// `k + 1` calls on: the `k`-th call from `start` hands out `id_after(start, k)`.
pub proof fn lemma_id_successor(start: u16, k: nat)
    ensures
        id_after(id_after(start, k), 1) == id_after(start, k + 1),
{
    let a = start + k;
    vstd::arithmetic::div_mod::lemma_add_mod_noop(a % 65536, 1, 65536);
    vstd::arithmetic::div_mod::lemma_mod_twice(a, 65536);
    vstd::arithmetic::div_mod::lemma_add_mod_noop(a, 1, 65536);
}

/// Any two of at most 65536 consecutive calls hand out different values.
pub proof fn lemma_ids_distinct(start: u16, i: nat, j: nat)
    requires
        i < j < i + 65536,
    ensures
        id_after(start, i) != id_after(start, j),
{
    let a = start + i;
    let b = start + j;
    vstd::arithmetic::div_mod::lemma_fundamental_div_mod(a, 65536);
    vstd::arithmetic::div_mod::lemma_fundamental_div_mod(b, 65536);
    vstd::arithmetic::div_mod::lemma_mod_pos_bound(a, 65536);
    vstd::arithmetic::div_mod::lemma_mod_pos_bound(b, 65536);
    if a % 65536 == b % 65536 {
        assert(b - a == 65536 * (b / 65536 - a / 65536));
        assert(false) by (nonlinear_arith)
            requires
                0 < b - a < 65536,
                b - a == 65536 * (b / 65536 - a / 65536),
        ;
    }
}

} // verus!
