use vstd::prelude::*;
use crate::error::ErrorCode;
use crate::identity::Identity;

verus! {

/// The deployment-wide configuration: who administers the races, which wallet
/// takes the non-winner cut, and who signs the issuance of participation credits.
#[derive(Clone, Copy, Debug)]
pub struct RaceAdmin {
    pub authority: Identity,
    pub burn_wallet: Identity,
    pub mint_authority: Identity,
}

/// Creates the registry, once: where `registry` already holds one it fails
/// with `AlreadyInitialized` and leaves it as it is.
pub fn initialize(
    registry: &mut Option<RaceAdmin>,
    authority: Identity,
    burn_wallet: Identity,
    mint_authority: Identity,
) -> (r: Result<(), ErrorCode>)
    ensures
        r == if old(registry).is_some() {
            Err::<(), ErrorCode>(ErrorCode::AlreadyInitialized)
        } else {
            Ok::<(), ErrorCode>(())
        },
        old(registry).is_some() ==> *final(registry) == *old(registry),
        old(registry).is_none() ==> *final(registry) == Some(RaceAdmin { authority, burn_wallet, mint_authority }),
{
    if registry.is_some() {
        return Err(ErrorCode::AlreadyInitialized);
    }
    *registry = Some(RaceAdmin { authority, burn_wallet, mint_authority });
    Ok(())
}

} // verus!
