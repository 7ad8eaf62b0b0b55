use vstd::prelude::*;

verus! {

/// The world server address to list, `localhost:8085` on this machine and
/// `vpn.gtker.com:8085` elsewhere, for a client at `ip`: its IPv4
/// address, or `None` for an IPv6 client. Only the IPv4 loopback address
/// gets the local one.
pub fn get_world_server_string(ip: Option<[u8; 4]>) -> (r: String)
    ensures
        ip == Some([127u8, 0u8, 0u8, 1u8]) ==> r@ == "localhost:8085"@,
        ip != Some([127u8, 0u8, 0u8, 1u8]) ==> r@ == "vpn.gtker.com:8085"@,
{
    match ip {
        Some(a) => {
            if a[0] == 127 && a[1] == 0 && a[2] == 0 && a[3] == 1 {
                assert(a =~= [127u8, 0u8, 0u8, 1u8]);
                String::from_str("localhost:8085")
            } else {
                String::from_str("vpn.gtker.com:8085")
            }
        },
        None => String::from_str("vpn.gtker.com:8085"),
    }
}

} // verus!
