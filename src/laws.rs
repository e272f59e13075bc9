use vstd::prelude::*;
use crate::airdrop::{airdrop_effect, entry_of, identifiers};
use crate::disclosure::disclosed;
use crate::engine::{
    maturity_of,     mint_after, mint_outcome, new_record, stake_after, stake_outcome, transfer_outcome,
    transfer_after, unstake_after, unstake_outcome,
};
use crate::packet::{decode_packet, lemma_packet_round_trip, packet_of};
use crate::registry::{
    with_owner,     has_id, index_of, insert_after, insert_outcome, lemma_index_of, lookup, registry_ok, unique_ids,
    with_lock,
};
use crate::text::{valid_identifier, valid_principal};
use crate::types::{LockState, MetadataModel, NftError, NftModel};

verus! {

/// One call of `mint_with_id`.
pub struct MintCall {
    pub id: Seq<char>,
    pub owner: Seq<char>,
    pub metadata: MetadataModel,
    pub maturity: Option<u64>,
}

/// The records after the mints of `calls`, in order.
pub open spec fn mint_all(recs: Seq<NftModel>, calls: Seq<MintCall>) -> Seq<NftModel>
    decreases calls.len(),
{
    if calls.len() == 0 {
        recs
    } else {
        let c = calls.last();
        mint_after(mint_all(recs, calls.drop_last()), c.id, c.owner, c.metadata, c.maturity)
    }
}

/// One mint keeps the registry's invariant.
pub proof fn lemma_mint_keeps_invariant(
    recs: Seq<NftModel>,
    id: Seq<char>,
    owner: Seq<char>,
    metadata: MetadataModel,
    maturity: Option<u64>,
)
    requires
        registry_ok(recs),
        valid_identifier(id),
    ensures
        registry_ok(mint_after(recs, id, owner, metadata, maturity)),
        mint_outcome(recs, id, owner) is Ok ==> lookup(mint_after(recs, id, owner, metadata, maturity), id)
            == Some(new_record(id, owner, metadata, maturity)),
        forall|other: Seq<char>|
            other != id ==> #[trigger] lookup(mint_after(recs, id, owner, metadata, maturity), other)
                == lookup(recs, other),
{
    let after = mint_after(recs, id, owner, metadata, maturity);
    if mint_outcome(recs, id, owner) is Ok {
        let n = recs.len();
        assert(after[n as int].id == id);
        assert forall|i: int, j: int|
            0 <= i < after.len() && 0 <= j < after.len() && i != j implies (#[trigger] after[i]).id
            != (#[trigger] after[j]).id by {
            if i < n && j < n {
                assert(after[i] == recs[i] && after[j] == recs[j]);
            } else if i < n {
                assert(after[i] == recs[i]);
            } else if j < n {
                assert(after[j] == recs[j]);
            }
        }
        assert forall|i: int| 0 <= i < after.len() implies (#[trigger] after[i]).valid() by {
            if i < n {
                assert(after[i] == recs[i]);
            }
        }
        lemma_index_of(after, id, n as int);
        assert forall|other: Seq<char>| other != id implies #[trigger] lookup(after, other)
            == lookup(recs, other) by {
            if has_id(recs, other) {
                let k = index_of(recs, other);
                assert(after[k] == recs[k]);
                lemma_index_of(recs, other, k);
                lemma_index_of(after, other, k);
            } else if has_id(after, other) {
                let k = index_of(after, other);
                if k < n {
                    assert(after[k] == recs[k]);
                }
            }
        }
    }
}

/// Whatever mints are made, no two records share an identifier, every record
/// keeps a well-formed identifier and owner, and a mint under an identifier
/// that is present fails with `DuplicateIdentifier`, changing nothing.
pub proof fn law_unique_identifiers(recs: Seq<NftModel>, calls: Seq<MintCall>)
    requires
        registry_ok(recs),
        forall|k: int| 0 <= k < calls.len() ==> valid_identifier(#[trigger] calls[k].id),
    ensures
        registry_ok(mint_all(recs, calls)),
        forall|i: int, j: int|
            0 <= i < mint_all(recs, calls).len() && 0 <= j < mint_all(recs, calls).len() && i != j
                ==> (#[trigger] mint_all(recs, calls)[i]).id != (#[trigger] mint_all(
                recs,
                calls,
            )[j]).id,
    decreases calls.len(),
{
    if calls.len() > 0 {
        law_unique_identifiers(recs, calls.drop_last());
        let c = calls.last();
        assert(valid_identifier(calls[calls.len() - 1].id));
        lemma_mint_keeps_invariant(
            mint_all(recs, calls.drop_last()),
            c.id,
            c.owner,
            c.metadata,
            c.maturity,
        );
    }
}

/// Inserting a record whose identifier is present fails with
/// `DuplicateIdentifier` and changes nothing; so does a mint under it.
pub proof fn law_duplicate_insert(
    recs: Seq<NftModel>,
    r: NftModel,
    owner: Seq<char>,
    metadata: MetadataModel,
    maturity: Option<u64>,
)
    requires
        registry_ok(recs),
        has_id(recs, r.id),
        valid_principal(owner),
    ensures
        insert_outcome(recs, r) == Err::<(), NftError>(NftError::DuplicateIdentifier),
        insert_after(recs, r) == recs,
        mint_outcome(recs, r.id, owner) == Err::<(), NftError>(NftError::DuplicateIdentifier),
        mint_after(recs, r.id, owner, metadata, maturity) == recs,
{
}

/// A transfer of a present record fails with `AssetLocked` exactly when the
/// record is staked.
pub proof fn law_lock_blocks_transfer(recs: Seq<NftModel>, id: Seq<char>, to: Seq<char>)
    requires
        registry_ok(recs),
        has_id(recs, id),
    ensures
        transfer_outcome(recs, id, to) == Err::<(), NftError>(NftError::AssetLocked) <==> lookup(
            recs,
            id,
        )->0.lock_state is Staked,
{
}

/// After a mint of shielded metadata, a viewer without credential sees neither
/// description nor attributes, while the owner's credential shows them as minted.
pub proof fn law_disclosure_gating(
    recs: Seq<NftModel>,
    id: Seq<char>,
    owner: Seq<char>,
    metadata: MetadataModel,
    maturity: Option<u64>,
)
    requires
        registry_ok(recs),
        valid_identifier(id),
        mint_outcome(recs, id, owner) is Ok,
        metadata.shielded,
    ensures
        ({
            let r = lookup(mint_after(recs, id, owner, metadata, maturity), id)->0;
            &&& disclosed(r, None).description is None
            &&& disclosed(r, None).attributes is None
            &&& disclosed(r, Some(owner)).description == Some(metadata.description)
            &&& disclosed(r, Some(owner)).attributes == Some(metadata.attributes)
        }),
{
    lemma_mint_keeps_invariant(recs, id, owner, metadata, maturity);
}

/// Staking then unstaking an unlocked record gives back the records exactly;
/// staking twice in a row fails with `AlreadyStaked`.
pub proof fn law_stake_toggle(recs: Seq<NftModel>, id: Seq<char>, now: u64)
    requires
        registry_ok(recs),
        has_id(recs, id),
        lookup(recs, id)->0.lock_state is Unlocked,
    ensures
        stake_outcome(recs, id) is Ok,
        stake_outcome(stake_after(recs, id, now), id) == Err::<(), NftError>(
            NftError::AlreadyStaked,
        ),
        unstake_outcome(stake_after(recs, id, now), id) is Ok,
        unstake_after(stake_after(recs, id, now), id) == recs,
{
    let k = index_of(recs, id);
    lemma_index_of(recs, id, k);
    let staked = stake_after(recs, id, now);
    assert(staked[k].id == id);
    assert(unique_ids(staked)) by {
        assert forall|i: int, j: int|
            0 <= i < staked.len() && 0 <= j < staked.len() && i != j implies (#[trigger] staked[i]).id
            != (#[trigger] staked[j]).id by {
            assert(staked[i].id == recs[i].id);
            assert(staked[j].id == recs[j].id);
        }
    }
    lemma_index_of(staked, id, k);
    let r = recs[k];
    assert(with_lock(staked[k], LockState::Unlocked) == r);
    assert(unstake_after(staked, id) =~= recs);
}

/// A valid record comes back from its packet unchanged; inserting it again
/// beside the original fails with `DuplicateIdentifier`.
pub proof fn law_packet_round_trip(recs: Seq<NftModel>, r: NftModel)
    requires
        registry_ok(recs),
        r.valid(),
        lookup(recs, r.id) == Some(r),
    ensures
        decode_packet(packet_of(r)) == Some(r),
        insert_outcome(recs, decode_packet(packet_of(r))->0) == Err::<(), NftError>(
            NftError::DuplicateIdentifier,
        ),
{
    lemma_packet_round_trip(r);
}

/// An airdrop to three recipients, the second malformed, mints two records
/// (for the first and third) with the source's metadata, reports
/// `InvalidRecipient` for the second, and leaves the source record as it was.
pub proof fn law_airdrop_fan_out(
    recs: Seq<NftModel>,
    id: Seq<char>,
    r1: Seq<char>,
    r2: Seq<char>,
    r3: Seq<char>,
    i1: Seq<char>,
    i2: Seq<char>,
    i3: Seq<char>,
)
    requires
        registry_ok(recs),
        has_id(recs, id),
        valid_principal(r1),
        !valid_principal(r2),
        valid_principal(r3),
        valid_identifier(i1),
        valid_identifier(i2),
        valid_identifier(i3),
        !has_id(recs, i1),
        !has_id(recs, i3),
        i1 != i3,
    ensures
        ({
            let src = lookup(recs, id)->0;
            let (answers, after) = airdrop_effect(recs, src, seq![r1, r2, r3], seq![i1, i2, i3]);
            &&& answers == seq![
                Ok::<Seq<char>, NftError>(i1),
                Err::<Seq<char>, NftError>(NftError::InvalidRecipient),
                Ok::<Seq<char>, NftError>(i3),
            ]
            &&& after == recs.push(new_record(i1, r1, src.metadata, src.maturity)).push(
                new_record(i3, r3, src.metadata, src.maturity),
            )
            &&& lookup(after, id) == Some(src)
            &&& lookup(after, i1) == Some(new_record(i1, r1, src.metadata, src.maturity))
            &&& lookup(after, i3) == Some(new_record(i3, r3, src.metadata, src.maturity))
        }),
{
    let src = lookup(recs, id)->0;
    let rs = seq![r1, r2, r3];
    let is = seq![i1, i2, i3];
    assert(rs.drop_last() =~= seq![r1, r2]);
    assert(is.drop_last() =~= seq![i1, i2]);
    assert(seq![r1, r2].drop_last() =~= seq![r1]);
    assert(seq![i1, i2].drop_last() =~= seq![i1]);
    assert(seq![r1].drop_last() =~= Seq::<Seq<char>>::empty());
    assert(seq![i1].drop_last() =~= Seq::<Seq<char>>::empty());
    let m1 = mint_after(recs, i1, r1, src.metadata, src.maturity);
    lemma_mint_keeps_invariant(recs, i1, r1, src.metadata, src.maturity);
    assert(m1 == recs.push(new_record(i1, r1, src.metadata, src.maturity)));
    assert(entry_of(recs, i1, r1) == Ok::<Seq<char>, NftError>(i1));
    assert(mint_after(m1, i2, r2, src.metadata, src.maturity) == m1);
    assert(entry_of(m1, i2, r2) == Err::<Seq<char>, NftError>(NftError::InvalidRecipient));
    assert(!has_id(m1, i3)) by {
        assert(lookup(m1, i3) == lookup(recs, i3));
    }
    assert(entry_of(m1, i3, r3) == Ok::<Seq<char>, NftError>(i3));
    lemma_mint_keeps_invariant(m1, i3, r3, src.metadata, src.maturity);
    let after = mint_after(m1, i3, r3, src.metadata, src.maturity);
    assert(has_id(recs, id));
    assert(id != i1 && id != i3);
    assert(lookup(after, id) == lookup(m1, id));
    assert(lookup(after, i1) == lookup(m1, i1));
    let e = Seq::<Seq<char>>::empty();
    let no = Seq::<Result<Seq<char>, NftError>>::empty();
    assert(airdrop_effect(recs, src, e, e) == (no, recs));
    let a1 = seq![Ok::<Seq<char>, NftError>(i1)];
    assert(no.push(Ok::<Seq<char>, NftError>(i1)) =~= a1);
    assert(airdrop_effect(recs, src, seq![r1], seq![i1]) == (a1, m1));
    let a2 = seq![
        Ok::<Seq<char>, NftError>(i1),
        Err::<Seq<char>, NftError>(NftError::InvalidRecipient),
    ];
    assert(a1.push(Err::<Seq<char>, NftError>(NftError::InvalidRecipient)) =~= a2);
    assert(airdrop_effect(recs, src, seq![r1, r2], seq![i1, i2]) == (a2, m1));
    let a3 = seq![
        Ok::<Seq<char>, NftError>(i1),
        Err::<Seq<char>, NftError>(NftError::InvalidRecipient),
        Ok::<Seq<char>, NftError>(i3),
    ];
    assert(a2.push(Ok::<Seq<char>, NftError>(i3)) =~= a3);
    assert(airdrop_effect(recs, src, rs, is) == (a3, after));
}

/// One operation that changes the registry.
pub enum Op {
    Mint { id: Seq<char>, owner: Seq<char>, metadata: MetadataModel, maturity: Option<u64> },
    Transfer { id: Seq<char>, to: Seq<char> },
    Stake { id: Seq<char>, now: u64 },
    Unstake { id: Seq<char> },
    Airdrop { id: Seq<char>, recipients: Seq<Seq<char>>, ids: Seq<Seq<char>> },
}

/// The identifiers that the operation mints under are well formed.
pub open spec fn op_ok(op: Op) -> bool {
    match op {
        Op::Mint { id, .. } => valid_identifier(id),
        Op::Airdrop { ids, .. } => identifiers(ids),
        _ => true,
    }
}

/// The records after `op`.
pub open spec fn apply(recs: Seq<NftModel>, op: Op) -> Seq<NftModel> {
    match op {
        Op::Mint { id, owner, metadata, maturity } => mint_after(recs, id, owner, metadata, maturity),
        Op::Transfer { id, to } => transfer_after(recs, id, to),
        Op::Stake { id, now } => stake_after(recs, id, now),
        Op::Unstake { id } => unstake_after(recs, id),
        Op::Airdrop { id, recipients, ids } => if has_id(recs, id) {
            airdrop_effect(recs, lookup(recs, id)->0, recipients, ids).1
        } else {
            recs
        },
    }
}

/// The records after the operations of `ops`, in order.
pub open spec fn apply_all(recs: Seq<NftModel>, ops: Seq<Op>) -> Seq<NftModel>
    decreases ops.len(),
{
    if ops.len() == 0 {
        recs
    } else {
        apply(apply_all(recs, ops.drop_last()), ops.last())
    }
}

/// Every record of `before` is still in `after`, with the same metadata.
pub open spec fn keeps_metadata(before: Seq<NftModel>, after: Seq<NftModel>) -> bool {
    forall|x: Seq<char>|
        #[trigger] has_id(before, x) ==> has_id(after, x) && lookup(after, x)->0.metadata == lookup(
            before,
            x,
        )->0.metadata
}

proof fn lemma_keeps_trans(a: Seq<NftModel>, b: Seq<NftModel>, c: Seq<NftModel>)
    requires
        keeps_metadata(a, b),
        keeps_metadata(b, c),
    ensures
        keeps_metadata(a, c),
{
    assert forall|x: Seq<char>| #[trigger] has_id(a, x) implies has_id(c, x) && lookup(c, x)->0.metadata
        == lookup(a, x)->0.metadata by {
        assert(has_id(b, x));
    }
}

proof fn lemma_update_keeps(recs: Seq<NftModel>, k: int, r: NftModel)
    requires
        registry_ok(recs),
        0 <= k < recs.len(),
        r.id == recs[k].id,
        r.valid(),
        r.metadata == recs[k].metadata,
    ensures
        registry_ok(recs.update(k, r)),
        keeps_metadata(recs, recs.update(k, r)),
{
    let after = recs.update(k, r);
    assert forall|i: int, j: int|
        0 <= i < after.len() && 0 <= j < after.len() && i != j implies (#[trigger] after[i]).id
        != (#[trigger] after[j]).id by {
        assert(after[i].id == recs[i].id && after[j].id == recs[j].id);
    }
    assert forall|i: int| 0 <= i < after.len() implies (#[trigger] after[i]).valid() by {
        if i != k {
            assert(after[i] == recs[i]);
        }
    }
    assert forall|x: Seq<char>| #[trigger] has_id(recs, x) implies has_id(after, x) && lookup(
        after,
        x,
    )->0.metadata == lookup(recs, x)->0.metadata by {
        let j = index_of(recs, x);
        lemma_index_of(recs, x, j);
        assert(after[j].id == x);
        lemma_index_of(after, x, j);
    }
}

proof fn lemma_mint_keeps(
    recs: Seq<NftModel>,
    id: Seq<char>,
    owner: Seq<char>,
    metadata: MetadataModel,
    maturity: Option<u64>,
)
    requires
        registry_ok(recs),
        valid_identifier(id),
    ensures
        registry_ok(mint_after(recs, id, owner, metadata, maturity)),
        keeps_metadata(recs, mint_after(recs, id, owner, metadata, maturity)),
{
    lemma_mint_keeps_invariant(recs, id, owner, metadata, maturity);
    let after = mint_after(recs, id, owner, metadata, maturity);
    assert forall|x: Seq<char>| #[trigger] has_id(recs, x) implies has_id(after, x) && lookup(
        after,
        x,
    )->0.metadata == lookup(recs, x)->0.metadata by {
        if x != id {
            assert(lookup(after, x) == lookup(recs, x));
        }
    }
}

proof fn lemma_op_keeps(recs: Seq<NftModel>, op: Op)
    requires
        registry_ok(recs),
        op_ok(op),
    ensures
        registry_ok(apply(recs, op)),
        keeps_metadata(recs, apply(recs, op)),
{
    match op {
        Op::Mint { id, owner, metadata, maturity } => {
            lemma_mint_keeps(recs, id, owner, metadata, maturity);
        },
        Op::Transfer { id, to } => {
            if transfer_outcome(recs, id, to) is Ok {
                let k = index_of(recs, id);
                lemma_update_keeps(recs, k, with_owner(recs[k], to));
            }
        },
        Op::Stake { id, now } => {
            if stake_outcome(recs, id) is Ok {
                let k = index_of(recs, id);
                let r = recs[k];
                lemma_update_keeps(
                    recs,
                    k,
                    with_lock(r, LockState::Staked { since: now, maturity: maturity_of(r) }),
                );
            }
        },
        Op::Unstake { id } => {
            if unstake_outcome(recs, id) is Ok {
                let k = index_of(recs, id);
                lemma_update_keeps(recs, k, with_lock(recs[k], LockState::Unlocked));
            }
        },
        Op::Airdrop { id, recipients, ids } => {
            if has_id(recs, id) {
                law_airdrop_keeps_existing(recs, lookup(recs, id)->0, recipients, ids);
                let after = apply(recs, op);
                assert forall|x: Seq<char>| #[trigger] has_id(recs, x) implies has_id(after, x)
                    && lookup(after, x)->0.metadata == lookup(recs, x)->0.metadata by {
                    assert(lookup(after, x) == lookup(recs, x));
                }
            }
        },
    }
}

proof fn lemma_ops_keep(recs: Seq<NftModel>, ops: Seq<Op>)
    requires
        registry_ok(recs),
        forall|k: int| 0 <= k < ops.len() ==> op_ok(#[trigger] ops[k]),
    ensures
        registry_ok(apply_all(recs, ops)),
        keeps_metadata(recs, apply_all(recs, ops)),
    decreases ops.len(),
{
    if ops.len() == 0 {
        assert forall|x: Seq<char>| #[trigger] has_id(recs, x) implies has_id(recs, x) && lookup(
            recs,
            x,
        )->0.metadata == lookup(recs, x)->0.metadata by {}
    } else {
        let init = ops.drop_last();
        assert forall|k: int| 0 <= k < init.len() implies op_ok(#[trigger] init[k]) by {
            assert(init[k] == ops[k]);
        }
        lemma_ops_keep(recs, init);
        assert(op_ok(ops[ops.len() - 1]));
        lemma_op_keeps(apply_all(recs, init), ops.last());
        lemma_keeps_trans(recs, apply_all(recs, init), apply_all(recs, ops));
    }
}

/// After a record is minted, whatever transfers, stakes, unstakes, mints and
/// airdrops follow, the record is still there, and the current owner's
/// credential shows its name, image, description and attributes as minted.
pub proof fn law_disclosure_after_operations(
    recs: Seq<NftModel>,
    id: Seq<char>,
    owner: Seq<char>,
    metadata: MetadataModel,
    maturity: Option<u64>,
    ops: Seq<Op>,
)
    requires
        registry_ok(recs),
        valid_identifier(id),
        mint_outcome(recs, id, owner) is Ok,
        forall|k: int| 0 <= k < ops.len() ==> op_ok(#[trigger] ops[k]),
    ensures
        ({
            let after = apply_all(mint_after(recs, id, owner, metadata, maturity), ops);
            let r = lookup(after, id)->0;
            &&& lookup(after, id) is Some
            &&& r.metadata == metadata
            &&& disclosed(r, Some(r.owner)).name == metadata.name
            &&& disclosed(r, Some(r.owner)).image_cid == metadata.image_cid
            &&& disclosed(r, Some(r.owner)).description == Some(metadata.description)
            &&& disclosed(r, Some(r.owner)).attributes == Some(metadata.attributes)
        }),
{
    let minted = mint_after(recs, id, owner, metadata, maturity);
    lemma_mint_keeps_invariant(recs, id, owner, metadata, maturity);
    assert(has_id(minted, id));
    lemma_ops_keep(minted, ops);
}

/// Every record of `before` is in `after` unchanged.
pub open spec fn keeps_records(before: Seq<NftModel>, after: Seq<NftModel>) -> bool {
    forall|x: Seq<char>| #[trigger] has_id(before, x) ==> lookup(after, x) == lookup(before, x)
}

/// An airdrop, whatever well-formed identifiers it mints under, leaves every
/// record that was present (the source among them) exactly as it was, and
/// keeps the registry's invariant.
pub proof fn law_airdrop_keeps_existing(
    recs: Seq<NftModel>,
    src: NftModel,
    recipients: Seq<Seq<char>>,
    ids: Seq<Seq<char>>,
)
    requires
        registry_ok(recs),
        identifiers(ids),
    ensures
        registry_ok(airdrop_effect(recs, src, recipients, ids).1),
        keeps_records(recs, airdrop_effect(recs, src, recipients, ids).1),
    decreases recipients.len(),
{
    if recipients.len() == 0 || ids.len() == 0 {
    } else {
        let rest = ids.drop_last();
        assert(identifiers(rest)) by {
            assert forall|k: int| 0 <= k < rest.len() implies valid_identifier(#[trigger] rest[k]) by {
                assert(rest[k] == ids[k]);
            }
        }
        law_airdrop_keeps_existing(recs, src, recipients.drop_last(), rest);
        let mid = airdrop_effect(recs, src, recipients.drop_last(), rest).1;
        let id = ids.last();
        assert(valid_identifier(ids[ids.len() - 1]));
        lemma_mint_keeps_invariant(mid, id, recipients.last(), src.metadata, src.maturity);
        let after = mint_after(mid, id, recipients.last(), src.metadata, src.maturity);
        assert forall|x: Seq<char>| #[trigger] has_id(recs, x) implies lookup(after, x) == lookup(
            recs,
            x,
        ) by {
            assert(lookup(mid, x) == lookup(recs, x));
            if x != id {
                assert(lookup(after, x) == lookup(mid, x));
            } else {
                assert(has_id(mid, x));
            }
        }
    }
}

} // verus!
