//! Handing out the addresses a host resolves to.
use crate::errors::ClientError;
use rand::seq::SliceRandom;
use vstd::prelude::*;

verus! {

/// Puts `items` in a random order.
///
/// Calls `rand::seq::SliceRandom::shuffle` with `rand::rng()`. Trusted: the
/// items afterwards are those before, each as often; their order is left
/// unsaid (it is random).
#[verifier::external_body]
fn shuffle<T>(items: &mut Vec<T>)
    ensures
        final(items)@.to_multiset() == old(items)@.to_multiset(),
{
    items.shuffle(&mut rand::rng());
}

/// The addresses to try for `host`, given what the lookup of `host` found
/// (`None` where it failed): the addresses found, in a random order, or the
/// error of a failed lookup.
pub fn resolved_addresses<T>(host: String, found: Option<Vec<T>>) -> (r: Result<
    Vec<T>,
    ClientError,
>)
    ensures
        found is None ==> (r matches Err(ClientError::Resolve { host: h, message }) && h == host
            && message@ == "Failed to resolve host"@),
        found matches Some(addrs) ==> (r matches Ok(out) && out@.to_multiset()
            == addrs@.to_multiset()),
{
    match found {
        None => Err(ClientError::Resolve { host, message: "Failed to resolve host".to_owned() }),
        Some(addrs) => {
            let mut ips = addrs;
            shuffle(&mut ips);
            Ok(ips)
        },
    }
}

} // verus!
