use vstd::prelude::*;

verus! {

/// The UDP port of the NTP service.
pub const NTP_PORT: u16 = 123;

/// The NTP server to ask, from the IPv4 addresses that the DNS lookup of the
/// pool name gave: the first one, on the NTP port; none when the lookup gave
/// no address.
pub fn ntp_server(addresses: &[[u8; 4]]) -> (r: Option<([u8; 4], u16)>)
    ensures
        r is None <==> addresses@.len() == 0,
        r matches Some(server) ==> server.0 == addresses@[0] && server.1 == NTP_PORT,
{
    if addresses.len() == 0 {
        None
    } else {
        Some((addresses[0], NTP_PORT))
    }
}

/// The 64-bit seed of the network stack from two 32-bit random draws, the
/// first draw in the high half.
pub fn network_seed(high: u32, low: u32) -> (r: u64)
    ensures
        r as int == high as int * 0x1_0000_0000 + low as int,
{
    let r: u64 = ((high as u64) << 32u64) | (low as u64);
    assert(((high as u64) << 32u64) | (low as u64) == (high as u64) * 0x1_0000_0000u64 + (
    low as u64)) by (bit_vector);
    r
}

/// Different pairs of draws give different seeds.
pub proof fn lemma_seed_keeps_both_draws(h1: u32, l1: u32, h2: u32, l2: u32)
    requires
        h1 as int * 0x1_0000_0000 + l1 as int == h2 as int * 0x1_0000_0000 + l2 as int,
    ensures
        h1 == h2 && l1 == l2,
{
}

} // verus!
