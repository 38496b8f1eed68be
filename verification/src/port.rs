use vstd::prelude::*;

use rand::Rng;

use crate::numfmt::{dec_digits, push_decimal};

verus! {

/// The loopback address for one port, as the server binds it.
pub open spec fn address_of(port: u16) -> Seq<char> {
    "localhost:"@ + dec_digits(port as nat)
}

/// Relies on `rand::Rng::gen_range`: returns a uniformly drawn value
/// inside the given (nonempty) range.
#[verifier::external_body]
fn random_port() -> (r: u16)
    ensures
        1024 <= r <= 65535,
{
    rand::thread_rng().gen_range(1024..=65535)
}

/// Draws one candidate port from the non-reserved TCP range and
/// renders the loopback address to probe for it.
pub fn candidate_address() -> (r: (u16, String))
    ensures
        1024 <= r.0 <= 65535,
        r.1@ == address_of(r.0),
{
    let port = random_port();
    let mut addr = String::new();
    addr.append("localhost:");
    push_decimal(&mut addr, port as u64);
    proof {
        assert(addr@ =~= address_of(port));
    }
    (port, addr)
}

} // verus!
