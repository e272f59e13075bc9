use vstd::prelude::*;
use crate::engine::{mint_after, mint_outcome, mint_with_id};
use crate::ident::fresh_identifier;
use crate::registry::{NftState, has_id, lookup};
use crate::text::valid_identifier;
use crate::types::{NftError, NftModel};

verus! {

/// What one recipient's mint answers: the new identifier, or the error.
pub open spec fn entry_of(recs: Seq<NftModel>, id: Seq<char>, owner: Seq<char>) -> Result<
    Seq<char>,
    NftError,
> {
    match mint_outcome(recs, id, owner) {
        Ok(()) => Ok(id),
        Err(e) => Err(e),
    }
}

/// Fan-out of the record `src` to `recipients`, the k-th under identifier
/// `ids[k]`: each recipient gets a new record with the source's metadata and
/// maturity. Gives the per-recipient answers and the records after.
pub open spec fn airdrop_effect(
    recs: Seq<NftModel>,
    src: NftModel,
    recipients: Seq<Seq<char>>,
    ids: Seq<Seq<char>>,
) -> (Seq<Result<Seq<char>, NftError>>, Seq<NftModel>)
    decreases recipients.len(),
{
    if recipients.len() == 0 || ids.len() == 0 {
        (Seq::empty(), recs)
    } else {
        let (answers, mid) = airdrop_effect(recs, src, recipients.drop_last(), ids.drop_last());
        let owner = recipients.last();
        let id = ids.last();
        (
            answers.push(entry_of(mid, id, owner)),
            mint_after(mid, id, owner, src.metadata, src.maturity),
        )
    }
}

/// The answer for one recipient, with its identifier as characters.
pub open spec fn entry_view(e: Result<String, NftError>) -> Result<Seq<char>, NftError> {
    match e {
        Ok(s) => Ok(s@),
        Err(x) => Err(x),
    }
}

/// The answers, with identifiers as characters.
pub open spec fn answers_of(v: Seq<Result<String, NftError>>) -> Seq<Result<Seq<char>, NftError>> {
    v.map_values(|e: Result<String, NftError>| entry_view(e))
}

/// The characters of each string.
pub open spec fn texts(v: Seq<String>) -> Seq<Seq<char>> {
    v.map_values(|s: String| s@)
}

/// The fan-out of the record `id` to `recipients` under `ids` answers
/// `answers` and leaves `after`.
pub open spec fn fans_out(
    recs: Seq<NftModel>,
    id: Seq<char>,
    recipients: Seq<Seq<char>>,
    ids: Seq<Seq<char>>,
    answers: Seq<Result<Seq<char>, NftError>>,
    after: Seq<NftModel>,
) -> bool {
    airdrop_effect(recs, lookup(recs, id)->0, recipients, ids) == (answers, after)
}

/// Every one of `ids` is a well-formed identifier.
pub open spec fn identifiers(ids: Seq<Seq<char>>) -> bool {
    forall|k: int| 0 <= k < ids.len() ==> valid_identifier(#[trigger] ids[k])
}

/// Fans the record `id` out to `recipients`, the k-th new record under the
/// identifier `ids[k]`. Fails with `NotFound`, before any mint, when no
/// record carries `id`; otherwise reports one answer per recipient.
pub fn airdrop_with_ids(
    state: &mut NftState,
    id: &String,
    recipients: &Vec<String>,
    ids: &Vec<String>,
) -> (r: Result<Vec<Result<String, NftError>>, NftError>)
    requires
        old(state).wf(),
        ids.len() == recipients.len(),
        identifiers(texts(ids@)),
    ensures
        final(state).wf(),
        r is Err <==> !has_id(old(state)@, id@),
        r matches Err(e) ==> e == NftError::NotFound && final(state)@ == old(state)@,
        r matches Ok(v) ==> fans_out(
            old(state)@,
            id@,
            texts(recipients@),
            texts(ids@),
            answers_of(v@),
            final(state)@,
        ),
{
    let src = match state.get_nft(id) {
        Some(n) => n,
        None => return Err(NftError::NotFound),
    };
    let ghost recs0 = state@;
    let ghost rs = texts(recipients@);
    let ghost is = texts(ids@);
    let mut out: Vec<Result<String, NftError>> = Vec::new();
    let mut k: usize = 0;
    while k < recipients.len()
        invariant
            state.wf(),
            k <= recipients.len(),
            ids.len() == recipients.len(),
            identifiers(texts(ids@)),
            rs == texts(recipients@),
            is == texts(ids@),
            lookup(recs0, id@) == Some(src@),
            airdrop_effect(recs0, src@, rs.take(k as int), is.take(k as int)) == (
                answers_of(out@),
                state@,
            ),
        decreases recipients.len() - k,
    {
        let ghost before = state@;
        let ghost out0 = out@;
        let new_id = ids[k].clone();
        let owner = recipients[k].clone();
        assert(valid_identifier(texts(ids@)[k as int]));
        let res = mint_with_id(state, new_id.clone(), owner, src.metadata.duplicate(), src.maturity);
        let entry = match res {
            Ok(()) => Ok(new_id),
            Err(e) => Err(e),
        };
        out.push(entry);
        proof {
            assert(rs.take(k + 1).drop_last() =~= rs.take(k as int));
            assert(is.take(k + 1).drop_last() =~= is.take(k as int));
            assert(answers_of(out@) =~= answers_of(out0).push(entry_view(entry)));
        }
        k = k + 1;
    }
    proof {
        assert(rs.take(k as int) =~= rs);
        assert(is.take(k as int) =~= is);
    }
    Ok(out)
}

/// Fans the record `id` out to `recipients`, each new record under a fresh
/// random identifier.
pub fn airdrop_nft(state: &mut NftState, id: &String, recipients: &Vec<String>) -> (r: Result<
    Vec<Result<String, NftError>>,
    NftError,
>)
    requires
        old(state).wf(),
    ensures
        final(state).wf(),
        r is Err <==> !has_id(old(state)@, id@),
        r matches Err(e) ==> e == NftError::NotFound && final(state)@ == old(state)@,
        r matches Ok(v) ==> exists|ids: Seq<Seq<char>>|
            #![trigger fans_out(old(state)@, id@, texts(recipients@), ids, answers_of(v@), final(state)@)]
            ids.len() == recipients@.len() && identifiers(ids) && fans_out(
                old(state)@,
                id@,
                texts(recipients@),
                ids,
                answers_of(v@),
                final(state)@,
            ),
{
    if !has_id_exec(state, id) {
        return Err(NftError::NotFound);
    }
    let mut ids: Vec<String> = Vec::new();
    let mut k: usize = 0;
    while k < recipients.len()
        invariant
            k <= recipients.len(),
            ids.len() == k,
            identifiers(texts(ids@)),
        decreases recipients.len() - k,
    {
        let fresh = fresh_identifier();
        let ghost before = texts(ids@);
        ids.push(fresh);
        assert(texts(ids@) =~= before.push(fresh@));
        k = k + 1;
    }
    airdrop_with_ids(state, id, recipients, &ids)
}

fn has_id_exec(state: &NftState, id: &String) -> (r: bool)
    requires
        state.wf(),
    ensures
        r == has_id(state@, id@),
{
    state.find(id).is_some()
}

} // verus!
