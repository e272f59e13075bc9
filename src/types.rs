use vstd::prelude::*;
use crate::text::{valid_identifier, valid_principal};

verus! {

/// Whether an asset may move: `Unlocked`, or `Staked` since a point in time
/// (in engine units, such as blocks) with the maturity applied at staking.
#[derive(Clone, Copy, Debug, PartialEq, Eq, Structural)]
pub enum LockState {
    Unlocked,
    Staked { since: u64, maturity: u64 },
}

/// The ways an operation on the registry can fail.
#[derive(Clone, Copy, Debug, PartialEq, Eq, Structural)]
pub enum NftError {
    NotFound,
    DuplicateIdentifier,
    AssetLocked,
    AlreadyStaked,
    NotStaked,
    MalformedPacket,
    InvalidRecipient,
}

impl NftError {
    /// A stable, human-readable name of the error.
    pub fn message(&self) -> (r: &'static str)
        ensures
            r@ == match *self {
                NftError::NotFound => "not found"@,
                NftError::DuplicateIdentifier => "duplicate identifier"@,
                NftError::AssetLocked => "asset locked"@,
                NftError::AlreadyStaked => "already staked"@,
                NftError::NotStaked => "not staked"@,
                NftError::MalformedPacket => "malformed packet"@,
                NftError::InvalidRecipient => "invalid recipient"@,
            },
    {
        match self {
            NftError::NotFound => "not found",
            NftError::DuplicateIdentifier => "duplicate identifier",
            NftError::AssetLocked => "asset locked",
            NftError::AlreadyStaked => "already staked",
            NftError::NotStaked => "not staked",
            NftError::MalformedPacket => "malformed packet",
            NftError::InvalidRecipient => "invalid recipient",
        }
    }
}

/// Metadata of an asset. When `shielded` holds, `description` and
/// `attributes` are private to the owner.
#[derive(Clone, Debug)]
pub struct NftMetadata {
    pub name: String,
    pub description: String,
    pub image_cid: String,
    pub attributes: String,
    pub shielded: bool,
}

pub struct MetadataModel {
    pub name: Seq<char>,
    pub description: Seq<char>,
    pub image_cid: Seq<char>,
    pub attributes: Seq<char>,
    pub shielded: bool,
}

impl View for NftMetadata {
    type V = MetadataModel;

    open spec fn view(&self) -> MetadataModel {
        MetadataModel {
            name: self.name@,
            description: self.description@,
            image_cid: self.image_cid@,
            attributes: self.attributes@,
            shielded: self.shielded,
        }
    }
}

impl NftMetadata {
    /// A copy of the metadata.
    pub fn duplicate(&self) -> (r: NftMetadata)
        ensures
            r@ == self@,
    {
        NftMetadata {
            name: self.name.clone(),
            description: self.description.clone(),
            image_cid: self.image_cid.clone(),
            attributes: self.attributes.clone(),
            shielded: self.shielded,
        }
    }
}

/// One asset record. `maturity` is the staking maturity chosen at mint time,
/// applied when the asset is first staked.
#[derive(Clone, Debug)]
pub struct Nft {
    pub id: String,
    pub owner: String,
    pub metadata: NftMetadata,
    pub maturity: Option<u64>,
    pub lock_state: LockState,
}

pub struct NftModel {
    pub id: Seq<char>,
    pub owner: Seq<char>,
    pub metadata: MetadataModel,
    pub maturity: Option<u64>,
    pub lock_state: LockState,
}

impl View for Nft {
    type V = NftModel;

    open spec fn view(&self) -> NftModel {
        NftModel {
            id: self.id@,
            owner: self.owner@,
            metadata: self.metadata@,
            maturity: self.maturity,
            lock_state: self.lock_state,
        }
    }
}

impl NftModel {
    /// A record may stand in the registry: its identifier and owner are well formed.
    pub open spec fn valid(self) -> bool {
        valid_identifier(self.id) && valid_principal(self.owner)
    }
}

impl Nft {
    /// A copy of the record.
    pub fn duplicate(&self) -> (r: Nft)
        ensures
            r@ == self@,
    {
        Nft {
            id: self.id.clone(),
            owner: self.owner.clone(),
            metadata: self.metadata.duplicate(),
            maturity: self.maturity,
            lock_state: self.lock_state,
        }
    }
}

} // verus!
