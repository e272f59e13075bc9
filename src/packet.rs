use vstd::prelude::*;
use crate::decimal::{decimal, lemma_decimal, lemma_number_of_decimal, number_of, parse_number, push_decimal};
use crate::framing::{deep, fields_from, join, join_fields, lemma_fields, lemma_fields_len, split_fields};
use crate::text::{chars_of, is_valid_identifier, is_valid_principal, string_of, valid_identifier, valid_principal};
use crate::registry::{NftState, insert_after, insert_outcome, lookup};
use crate::types::{LockState, MetadataModel, Nft, NftError, NftMetadata, NftModel};

verus! {

/// The number of fields of a packet, the version tag included.
pub const FIELD_COUNT: usize = 11;

/// The version tag that opens every packet.
pub open spec fn version_tag() -> Seq<char> {
    seq!['n', 'f', 't', '/', '1']
}

pub open spec fn flag_field(b: bool) -> Seq<char> {
    if b {
        seq!['1']
    } else {
        seq!['0']
    }
}

pub open spec fn optional_field(o: Option<u64>) -> Seq<char> {
    match o {
        Some(n) => decimal(n as nat),
        None => Seq::empty(),
    }
}

pub open spec fn since_field(l: LockState) -> Seq<char> {
    match l {
        LockState::Staked { since, .. } => decimal(since as nat),
        LockState::Unlocked => Seq::empty(),
    }
}

pub open spec fn lock_maturity_field(l: LockState) -> Seq<char> {
    match l {
        LockState::Staked { maturity, .. } => decimal(maturity as nat),
        LockState::Unlocked => Seq::empty(),
    }
}

/// The fields that a packet carries for `r`, in order.
pub open spec fn packet_fields(r: NftModel) -> Seq<Seq<char>> {
    seq![
        version_tag(),
        r.id,
        r.owner,
        r.metadata.name,
        r.metadata.description,
        r.metadata.image_cid,
        r.metadata.attributes,
        flag_field(r.metadata.shielded),
        optional_field(r.maturity),
        since_field(r.lock_state),
        lock_maturity_field(r.lock_state),
    ]
}

/// The packet of `r`: its fields, each escaped and followed by `|`.
pub open spec fn packet_of(r: NftModel) -> Seq<char> {
    join_fields(packet_fields(r))
}

pub open spec fn flag_of(f: Seq<char>) -> Option<bool> {
    if f == seq!['1'] {
        Some(true)
    } else if f == seq!['0'] {
        Some(false)
    } else {
        None
    }
}

pub open spec fn optional_of(f: Seq<char>) -> Option<Option<u64>> {
    if f.len() == 0 {
        Some(None)
    } else {
        match number_of(f) {
            Some(n) => Some(Some(n)),
            None => None,
        }
    }
}

pub open spec fn lock_of(since: Seq<char>, maturity: Seq<char>) -> Option<LockState> {
    if since.len() == 0 && maturity.len() == 0 {
        Some(LockState::Unlocked)
    } else {
        match (number_of(since), number_of(maturity)) {
            (Some(s), Some(m)) => Some(LockState::Staked { since: s, maturity: m }),
            _ => None,
        }
    }
}

/// The record that fields describe, if they are well formed.
pub open spec fn record_of_fields(fs: Seq<Seq<char>>) -> Option<NftModel> {
    if fs.len() == 11 && fs[0] == version_tag() && valid_identifier(fs[1]) && valid_principal(fs[2])
        && flag_of(fs[7]) is Some && optional_of(fs[8]) is Some && lock_of(fs[9], fs[10]) is Some {
        Some(
            NftModel {
                id: fs[1],
                owner: fs[2],
                metadata: MetadataModel {
                    name: fs[3],
                    description: fs[4],
                    image_cid: fs[5],
                    attributes: fs[6],
                    shielded: flag_of(fs[7])->0,
                },
                maturity: optional_of(fs[8])->0,
                lock_state: lock_of(fs[9], fs[10])->0,
            },
        )
    } else {
        None
    }
}

/// The record that a packet describes, if it is well formed.
pub open spec fn decode_packet(s: Seq<char>) -> Option<NftModel> {
    match fields_from(s, 0, 11, Seq::empty()) {
        Some(fs) => record_of_fields(fs),
        None => None,
    }
}

/// A valid record survives the packet form unchanged.
pub proof fn lemma_packet_round_trip(r: NftModel)
    requires
        r.valid(),
    ensures
        decode_packet(packet_of(r)) == Some(r),
{
    let s = packet_of(r);
    let fs = packet_fields(r);
    assert(s.subrange(0, s.len() as int) =~= s);
    lemma_fields(s, 0, fs, Seq::empty());
    assert(Seq::<Seq<char>>::empty() + fs =~= fs);
    if let Some(m) = r.maturity {
        lemma_number_of_decimal(m);
        lemma_decimal(m as nat);
    }
    if let LockState::Staked { since, maturity } = r.lock_state {
        lemma_number_of_decimal(since);
        lemma_number_of_decimal(maturity);
        lemma_decimal(since as nat);
        lemma_decimal(maturity as nat);
    }
    assert(fs[7] == flag_field(r.metadata.shielded));
    if r.metadata.shielded {
        assert(flag_of(fs[7]) == Some(true));
    } else {
        assert(seq!['0'][0] != seq!['1'][0]);
        assert(flag_of(fs[7]) == Some(false));
    }
    let d = record_of_fields(fs)->0;
    assert(d.metadata == r.metadata);
}

fn optional_chars(o: Option<u64>) -> (r: Vec<char>)
    ensures
        r@ == optional_field(o),
{
    let mut v: Vec<char> = Vec::new();
    if let Some(n) = o {
        push_decimal(&mut v, n);
    }
    assert(v@ =~= optional_field(o));
    v
}

/// Encodes a record as a packet for transport to another domain; nothing of
/// it is redacted.
pub fn export_nft_for_ibc(nft: &Nft) -> (r: String)
    ensures
        r@ == packet_of(nft@),
{
    let mut fs: Vec<Vec<char>> = Vec::new();
    let tag: Vec<char> = vec!['n', 'f', 't', '/', '1'];
    assert(tag@ =~= version_tag());
    fs.push(tag);
    fs.push(chars_of(&nft.id));
    fs.push(chars_of(&nft.owner));
    fs.push(chars_of(&nft.metadata.name));
    fs.push(chars_of(&nft.metadata.description));
    fs.push(chars_of(&nft.metadata.image_cid));
    fs.push(chars_of(&nft.metadata.attributes));
    let flag: Vec<char> = if nft.metadata.shielded {
        vec!['1']
    } else {
        vec!['0']
    };
    assert(flag@ =~= flag_field(nft.metadata.shielded));
    fs.push(flag);
    fs.push(optional_chars(nft.maturity));
    let (since, maturity) = match nft.lock_state {
        LockState::Staked { since, maturity } => (Some(since), Some(maturity)),
        LockState::Unlocked => (None, None),
    };
    fs.push(optional_chars(since));
    fs.push(optional_chars(maturity));
    assert(deep(fs@) =~= packet_fields(nft@));
    let out = join(&fs);
    string_of(&out)
}

fn flag_from(f: &Vec<char>) -> (r: Option<bool>)
    ensures
        r == flag_of(f@),
{
    if f.len() == 1 && f[0] == '1' {
        assert(f@ =~= seq!['1']);
        Some(true)
    } else if f.len() == 1 && f[0] == '0' {
        assert(f@ =~= seq!['0']);
        Some(false)
    } else {
        assert(f@ != seq!['1'] && f@ != seq!['0']) by {
            if f@ == seq!['1'] || f@ == seq!['0'] {
                assert(f@.len() == 1);
            }
        }
        None
    }
}

fn optional_from(f: &Vec<char>) -> (r: Option<Option<u64>>)
    ensures
        r == optional_of(f@),
{
    if f.len() == 0 {
        Some(None)
    } else {
        match parse_number(f) {
            Some(n) => Some(Some(n)),
            None => None,
        }
    }
}

fn lock_from(since: &Vec<char>, maturity: &Vec<char>) -> (r: Option<LockState>)
    ensures
        r == lock_of(since@, maturity@),
{
    if since.len() == 0 && maturity.len() == 0 {
        Some(LockState::Unlocked)
    } else {
        match (parse_number(since), parse_number(maturity)) {
            (Some(s), Some(m)) => Some(LockState::Staked { since: s, maturity: m }),
            _ => None,
        }
    }
}

fn is_version_tag(f: &Vec<char>) -> (r: bool)
    ensures
        r == (f@ == version_tag()),
{
    let r = f.len() == 5 && f[0] == 'n' && f[1] == 'f' && f[2] == 't' && f[3] == '/' && f[4] == '1';
    proof {
        if r {
            assert(f@ =~= version_tag());
        } else if f@ == version_tag() {
            assert(f@.len() == 5);
        }
    }
    r
}

/// Decodes a packet into a record; the caller inserts it into the registry.
/// Fails with `MalformedPacket` exactly when the packet is not well formed.
pub fn import_nft_from_ibc(serialized: &String) -> (r: Result<Nft, NftError>)
    ensures
        r is Ok <==> decode_packet(serialized@) is Some,
        r matches Ok(n) ==> decode_packet(serialized@) == Some(n@) && n@.valid(),
        r matches Err(e) ==> e == NftError::MalformedPacket,
{
    let s = chars_of(serialized);
    let fs = match split_fields(&s, FIELD_COUNT) {
        Some(fs) => fs,
        None => return Err(NftError::MalformedPacket),
    };
    let ghost d = deep(fs@);
    proof {
        lemma_fields_len(s@, 0, 11, Seq::empty());
    }
    assert(d.len() == 11);
    assert(forall|k: int| 0 <= k < 11 ==> #[trigger] d[k] == fs@[k]@);
    if !is_version_tag(&fs[0]) {
        return Err(NftError::MalformedPacket);
    }
    let id = string_of(&fs[1]);
    let owner = string_of(&fs[2]);
    if !is_valid_identifier(&id) || !is_valid_principal(&owner) {
        return Err(NftError::MalformedPacket);
    }
    let shielded = match flag_from(&fs[7]) {
        Some(b) => b,
        None => return Err(NftError::MalformedPacket),
    };
    let maturity = match optional_from(&fs[8]) {
        Some(m) => m,
        None => return Err(NftError::MalformedPacket),
    };
    let lock_state = match lock_from(&fs[9], &fs[10]) {
        Some(l) => l,
        None => return Err(NftError::MalformedPacket),
    };
    let metadata = NftMetadata {
        name: string_of(&fs[3]),
        description: string_of(&fs[4]),
        image_cid: string_of(&fs[5]),
        attributes: string_of(&fs[6]),
        shielded,
    };
    let n = Nft { id, owner, metadata, maturity, lock_state };
    Ok(n)
}

/// The packet of the record `id`, if any.
pub fn export_nft(state: &NftState, id: &String) -> (r: Option<String>)
    requires
        state.wf(),
    ensures
        r is None <==> lookup(state@, id@) is None,
        r matches Some(p) ==> p@ == packet_of(lookup(state@, id@)->0),
{
    match state.get_nft(id) {
        Some(n) => Some(export_nft_for_ibc(&n)),
        None => None,
    }
}

/// Decodes a packet and inserts its record, refusing an identifier that is
/// already present. Returns the identifier of the inserted record.
pub fn receive_packet(state: &mut NftState, serialized: &String) -> (r: Result<String, NftError>)
    requires
        old(state).wf(),
    ensures
        final(state).wf(),
        decode_packet(serialized@) is None ==> r == Err::<String, NftError>(
            NftError::MalformedPacket,
        ) && final(state)@ == old(state)@,
        decode_packet(serialized@) matches Some(n) ==> {
            &&& final(state)@ == insert_after(old(state)@, n)
            &&& match insert_outcome(old(state)@, n) {
                Ok(()) => r matches Ok(id) && id@ == n.id,
                Err(e) => r == Err::<String, NftError>(e),
            }
        },
{
    let nft = match import_nft_from_ibc(serialized) {
        Ok(n) => n,
        Err(e) => return Err(e),
    };
    let id = nft.id.clone();
    match state.insert(nft) {
        Ok(()) => Ok(id),
        Err(e) => Err(e),
    }
}

} // verus!
