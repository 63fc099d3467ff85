use vstd::prelude::*;

verus! {

/// An IP network prefix: address bits together with a prefix length, the form
/// in which the store remembers the creator of a link. The address is held as
/// plain integers so that the truncation rule can be stated field by field.
#[derive(Clone, Copy, PartialEq, Eq, Structural, Debug)]
pub enum IpNetwork {
    /// An IPv4 network: the four address octets and a prefix length in bits.
    V4 { o0: u8, o1: u8, o2: u8, o3: u8, prefix_len: u8 },
    /// An IPv6 network: the eight 16-bit segments and a prefix length in bits.
    V6 {
        s0: u16,
        s1: u16,
        s2: u16,
        s3: u16,
        s4: u16,
        s5: u16,
        s6: u16,
        s7: u16,
        prefix_len: u8,
    },
}

/// The anonymized form of an address: an IPv4 address is truncated to its /24
/// network (the last octet zeroed), an IPv6 address keeps only its first four
/// segments and is recorded as a /120 prefix.
pub open spec fn spec_anonymize_ip(ip: IpNetwork) -> IpNetwork {
    match ip {
        IpNetwork::V4 { o0, o1, o2, .. } => (IpNetwork::V4 {
            o0: o0,
            o1: o1,
            o2: o2,
            o3: 0,
            prefix_len: 24,
        }),
        IpNetwork::V6 { s0, s1, s2, s3, .. } => (IpNetwork::V6 {
            s0: s0,
            s1: s1,
            s2: s2,
            s3: s3,
            s4: 0,
            s5: 0,
            s6: 0,
            s7: 0,
            prefix_len: 120,
        }),
    }
}

/// Truncates an address to a coarse network prefix before it is stored, so
/// that only the network a creator came from is kept, never the full address.
pub fn anonymize_ip(ip: IpNetwork) -> (r: IpNetwork)
    ensures
        r == spec_anonymize_ip(ip),
{
    match ip {
        IpNetwork::V4 { o0, o1, o2, o3: _, prefix_len: _ } => IpNetwork::V4 {
            o0: o0,
            o1: o1,
            o2: o2,
            o3: 0,
            prefix_len: 24,
        },
        IpNetwork::V6 { s0, s1, s2, s3, s4: _, s5: _, s6: _, s7: _, prefix_len: _ } => IpNetwork::V6 {
            s0: s0,
            s1: s1,
            s2: s2,
            s3: s3,
            s4: 0,
            s5: 0,
            s6: 0,
            s7: 0,
            prefix_len: 120,
        },
    }
}

/// Two IPv4 addresses anonymize to the same network prefix exactly when they
/// agree on their first three octets; the input prefix lengths and last
/// octets never influence the result.
pub proof fn lemma_anonymize_ip_v4_groups(
    a0: u8,
    a1: u8,
    a2: u8,
    a3: u8,
    ap: u8,
    b0: u8,
    b1: u8,
    b2: u8,
    b3: u8,
    bp: u8,
)
    ensures
        spec_anonymize_ip(IpNetwork::V4 { o0: a0, o1: a1, o2: a2, o3: a3, prefix_len: ap })
            == spec_anonymize_ip(IpNetwork::V4 { o0: b0, o1: b1, o2: b2, o3: b3, prefix_len: bp })
            <==> (a0 == b0 && a1 == b1 && a2 == b2),
{
}

/// Two IPv6 addresses anonymize to the same network prefix exactly when they
/// agree on their first four segments.
pub proof fn lemma_anonymize_ip_v6_groups(a: IpNetwork, b: IpNetwork)
    requires
        a matches IpNetwork::V6 { .. },
        b matches IpNetwork::V6 { .. },
    ensures
        spec_anonymize_ip(a) == spec_anonymize_ip(b) <==> {
            &&& a matches IpNetwork::V6 { s0: a0, s1: a1, s2: a2, s3: a3, .. }
            &&& b matches IpNetwork::V6 { s0: b0, s1: b1, s2: b2, s3: b3, .. }
            &&& a0 == b0
            &&& a1 == b1
            &&& a2 == b2
            &&& a3 == b3
        },
{
}

} // verus!
