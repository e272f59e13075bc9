use vstd::prelude::*;
use crate::ident::fresh_identifier;
use crate::registry::{NftState, has_id, index_of, with_lock, with_owner};
use crate::text::{is_valid_principal, valid_identifier, valid_principal};
use crate::types::{LockState, MetadataModel, Nft, NftError, NftMetadata, NftModel};

verus! {

/// The maturity applied on staking an asset that was minted without one, in
/// the time units that the caller uses for `now` when staking.
pub const DEFAULT_MATURITY: u64 = 5;

/// A freshly minted record: unlocked, with the maturity kept for later staking.
pub open spec fn new_record(
    id: Seq<char>,
    owner: Seq<char>,
    metadata: MetadataModel,
    maturity: Option<u64>,
) -> NftModel {
    NftModel { id, owner, metadata, maturity, lock_state: LockState::Unlocked }
}

/// What minting under the identifier `id` answers.
pub open spec fn mint_outcome(recs: Seq<NftModel>, id: Seq<char>, owner: Seq<char>) -> Result<
    (),
    NftError,
> {
    if !valid_principal(owner) {
        Err(NftError::InvalidRecipient)
    } else if has_id(recs, id) {
        Err(NftError::DuplicateIdentifier)
    } else {
        Ok(())
    }
}

/// The records after minting under the identifier `id`.
pub open spec fn mint_after(
    recs: Seq<NftModel>,
    id: Seq<char>,
    owner: Seq<char>,
    metadata: MetadataModel,
    maturity: Option<u64>,
) -> Seq<NftModel> {
    if mint_outcome(recs, id, owner) is Ok {
        recs.push(new_record(id, owner, metadata, maturity))
    } else {
        recs
    }
}

/// Mints a record under the given identifier.
pub fn mint_with_id(
    state: &mut NftState,
    id: String,
    owner: String,
    metadata: NftMetadata,
    maturity: Option<u64>,
) -> (r: Result<(), NftError>)
    requires
        old(state).wf(),
        valid_identifier(id@),
    ensures
        final(state).wf(),
        r == mint_outcome(old(state)@, id@, owner@),
        final(state)@ == mint_after(old(state)@, id@, owner@, metadata@, maturity),
{
    if !is_valid_principal(&owner) {
        return Err(NftError::InvalidRecipient);
    }
    let nft = Nft { id, owner, metadata, maturity, lock_state: LockState::Unlocked };
    state.insert(nft)
}

/// Mints a record under a fresh random identifier and returns that identifier.
/// Fails with `InvalidRecipient` on a malformed owner, and with
/// `DuplicateIdentifier` only if the random identifier is already taken.
pub fn mint_nft(
    state: &mut NftState,
    owner: String,
    metadata: NftMetadata,
    maturity: Option<u64>,
) -> (r: Result<String, NftError>)
    requires
        old(state).wf(),
    ensures
        final(state).wf(),
        !valid_principal(owner@) <==> r == Err::<String, NftError>(NftError::InvalidRecipient),
        r matches Err(e) ==> final(state)@ == old(state)@ && (e == NftError::InvalidRecipient
            || e == NftError::DuplicateIdentifier),
        r == Err::<String, NftError>(NftError::DuplicateIdentifier) ==> exists|x: Seq<char>|
            valid_identifier(x) && #[trigger] has_id(old(state)@, x),
        r matches Ok(id) ==> valid_identifier(id@) && !has_id(old(state)@, id@) && final(state)@
            == old(state)@.push(new_record(id@, owner@, metadata@, maturity)),
{
    if !is_valid_principal(&owner) {
        return Err(NftError::InvalidRecipient);
    }
    let id = fresh_identifier();
    match mint_with_id(state, id.clone(), owner, metadata, maturity) {
        Ok(()) => Ok(id),
        Err(e) => Err(e),
    }
}

/// What transferring the record `id` to `to` answers.
pub open spec fn transfer_outcome(recs: Seq<NftModel>, id: Seq<char>, to: Seq<char>) -> Result<
    (),
    NftError,
> {
    if !has_id(recs, id) {
        Err(NftError::NotFound)
    } else if recs[index_of(recs, id)].lock_state is Staked {
        Err(NftError::AssetLocked)
    } else if !valid_principal(to) {
        Err(NftError::InvalidRecipient)
    } else {
        Ok(())
    }
}

/// The records after transferring the record `id` to `to`: only its owner changes.
pub open spec fn transfer_after(recs: Seq<NftModel>, id: Seq<char>, to: Seq<char>) -> Seq<
    NftModel,
> {
    if transfer_outcome(recs, id, to) is Ok {
        recs.update(index_of(recs, id), with_owner(recs[index_of(recs, id)], to))
    } else {
        recs
    }
}

/// Moves the record `id` to the owner `to`, unless it is staked.
pub fn transfer_nft(state: &mut NftState, id: &String, to: &String) -> (r: Result<(), NftError>)
    requires
        old(state).wf(),
    ensures
        final(state).wf(),
        r == transfer_outcome(old(state)@, id@, to@),
        final(state)@ == transfer_after(old(state)@, id@, to@),
{
    let i = match state.find(id) {
        Some(i) => i,
        None => return Err(NftError::NotFound),
    };
    let rec = state.record_at(i);
    if let LockState::Staked { .. } = rec.lock_state {
        return Err(NftError::AssetLocked);
    }
    if !is_valid_principal(to) {
        return Err(NftError::InvalidRecipient);
    }
    state.set_owner(i, to.clone());
    Ok(())
}

/// What staking the record `id` answers.
pub open spec fn stake_outcome(recs: Seq<NftModel>, id: Seq<char>) -> Result<(), NftError> {
    if !has_id(recs, id) {
        Err(NftError::NotFound)
    } else if recs[index_of(recs, id)].lock_state is Staked {
        Err(NftError::AlreadyStaked)
    } else {
        Ok(())
    }
}

/// The maturity that staking applies to `r`.
pub open spec fn maturity_of(r: NftModel) -> u64 {
    match r.maturity {
        Some(m) => m,
        None => DEFAULT_MATURITY,
    }
}

/// The records after staking the record `id` at time `now`.
pub open spec fn stake_after(recs: Seq<NftModel>, id: Seq<char>, now: u64) -> Seq<NftModel> {
    if stake_outcome(recs, id) is Ok {
        let r = recs[index_of(recs, id)];
        recs.update(
            index_of(recs, id),
            with_lock(r, LockState::Staked { since: now, maturity: maturity_of(r) }),
        )
    } else {
        recs
    }
}

/// Stakes the record `id` at time `now`, which locks it. The unit of time is
/// the caller's (a block height, or seconds).
pub fn stake_nft(state: &mut NftState, id: &String, now: u64) -> (r: Result<(), NftError>)
    requires
        old(state).wf(),
    ensures
        final(state).wf(),
        r == stake_outcome(old(state)@, id@),
        final(state)@ == stake_after(old(state)@, id@, now),
{
    let i = match state.find(id) {
        Some(i) => i,
        None => return Err(NftError::NotFound),
    };
    let rec = state.record_at(i);
    if let LockState::Staked { .. } = rec.lock_state {
        return Err(NftError::AlreadyStaked);
    }
    let maturity = match rec.maturity {
        Some(m) => m,
        None => DEFAULT_MATURITY,
    };
    state.set_lock(i, LockState::Staked { since: now, maturity });
    Ok(())
}

/// What unstaking the record `id` answers.
pub open spec fn unstake_outcome(recs: Seq<NftModel>, id: Seq<char>) -> Result<(), NftError> {
    if !has_id(recs, id) {
        Err(NftError::NotFound)
    } else if recs[index_of(recs, id)].lock_state is Unlocked {
        Err(NftError::NotStaked)
    } else {
        Ok(())
    }
}

/// The records after unstaking the record `id`.
pub open spec fn unstake_after(recs: Seq<NftModel>, id: Seq<char>) -> Seq<NftModel> {
    if unstake_outcome(recs, id) is Ok {
        recs.update(
            index_of(recs, id),
            with_lock(recs[index_of(recs, id)], LockState::Unlocked),
        )
    } else {
        recs
    }
}

/// Unstakes the record `id`, which unlocks it. No minimum staking duration
/// is enforced: the maturity is recorded for the caller's policy.
pub fn unstake_nft(state: &mut NftState, id: &String) -> (r: Result<(), NftError>)
    requires
        old(state).wf(),
    ensures
        final(state).wf(),
        r == unstake_outcome(old(state)@, id@),
        final(state)@ == unstake_after(old(state)@, id@),
{
    let i = match state.find(id) {
        Some(i) => i,
        None => return Err(NftError::NotFound),
    };
    let rec = state.record_at(i);
    if let LockState::Unlocked = rec.lock_state {
        return Err(NftError::NotStaked);
    }
    state.set_lock(i, LockState::Unlocked);
    Ok(())
}

} // verus!
