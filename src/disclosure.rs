use vstd::prelude::*;
use crate::registry::{NftState, lookup};
use crate::types::{LockState, NftModel};

verus! {

/// What a viewer is shown of a record. `description` and `attributes` are
/// `None` when the record is shielded and the viewer holds no matching
/// viewing credential.
#[derive(Clone, Debug)]
pub struct NftView {
    pub id: String,
    pub owner: String,
    pub name: String,
    pub image_cid: String,
    pub shielded: bool,
    pub lock_state: LockState,
    pub description: Option<String>,
    pub attributes: Option<String>,
}

pub struct ViewModel {
    pub id: Seq<char>,
    pub owner: Seq<char>,
    pub name: Seq<char>,
    pub image_cid: Seq<char>,
    pub shielded: bool,
    pub lock_state: LockState,
    pub description: Option<Seq<char>>,
    pub attributes: Option<Seq<char>>,
}

pub open spec fn opt_view(o: Option<String>) -> Option<Seq<char>> {
    match o {
        Some(s) => Some(s@),
        None => None,
    }
}

impl View for NftView {
    type V = ViewModel;

    open spec fn view(&self) -> ViewModel {
        ViewModel {
            id: self.id@,
            owner: self.owner@,
            name: self.name@,
            image_cid: self.image_cid@,
            shielded: self.shielded,
            lock_state: self.lock_state,
            description: opt_view(self.description),
            attributes: opt_view(self.attributes),
        }
    }
}

/// The viewer may see the private fields: the record is not shielded, or the
/// credential is the owner's viewing credential.
pub open spec fn authorized(r: NftModel, credential: Option<Seq<char>>) -> bool {
    !r.metadata.shielded || credential == Some(r.owner)
}

/// What `reveal_nft` shows of `r`.
pub open spec fn disclosed(r: NftModel, credential: Option<Seq<char>>) -> ViewModel {
    ViewModel {
        id: r.id,
        owner: r.owner,
        name: r.metadata.name,
        image_cid: r.metadata.image_cid,
        shielded: r.metadata.shielded,
        lock_state: r.lock_state,
        description: if authorized(r, credential) {
            Some(r.metadata.description)
        } else {
            None
        },
        attributes: if authorized(r, credential) {
            Some(r.metadata.attributes)
        } else {
            None
        },
    }
}

/// Shows the record `id`: in full to an authorized viewer, else redacted.
/// `None` exactly when no record carries `id`.
pub fn reveal_nft(state: &NftState, id: &String, credential: Option<&String>) -> (r: Option<
    NftView,
>)
    requires
        state.wf(),
    ensures
        r is None <==> lookup(state@, id@) is None,
        r matches Some(v) ==> v@ == disclosed(
            lookup(state@, id@)->0,
            match credential {
                Some(c) => Some(c@),
                None => None,
            },
        ),
{
    let n = match state.get_nft(id) {
        Some(n) => n,
        None => return None,
    };
    let allowed = match credential {
        Some(c) => !n.metadata.shielded || *c == n.owner,
        None => !n.metadata.shielded,
    };
    let description = if allowed {
        Some(n.metadata.description)
    } else {
        None
    };
    let attributes = if allowed {
        Some(n.metadata.attributes)
    } else {
        None
    };
    Some(
        NftView {
            id: n.id,
            owner: n.owner,
            name: n.metadata.name,
            image_cid: n.metadata.image_cid,
            shielded: n.metadata.shielded,
            lock_state: n.lock_state,
            description,
            attributes,
        },
    )
}

} // verus!
