//! The record that is kept of an onboarded hotspot, and where it is kept.

use crate::address::{find_program_address, program_address_of, Pubkey};
use crate::bytes::{append_bytes, same_bytes};
use crate::digest::{sha256, sha256_of};
use crate::error::OnboardError;
use vstd::prelude::*;
use vstd::utf8::encode_utf8;

verus! {

/// What is kept of an onboarded hotspot.
#[derive(Debug, PartialEq, Eq)]
pub struct IotHotspotInfoV0 {
    /// The identifier of the hotspot's compressed asset.
    pub asset: Pubkey,
    /// The hotspot's key.
    pub hotspot_key: String,
    /// The bump seed of the record's address.
    pub bump_seed: u8,
    pub location: Option<u64>,
    pub elevation: Option<i32>,
    pub gain: Option<i32>,
    pub is_full_hotspot: bool,
    /// How often a location has been asserted.
    pub num_location_asserts: u16,
}

/// The record of a hotspot as a mathematical value.
pub struct IotHotspotInfoView {
    pub asset: Pubkey,
    pub hotspot_key: Seq<char>,
    pub bump_seed: u8,
    pub location: Option<u64>,
    pub elevation: Option<i32>,
    pub gain: Option<i32>,
    pub is_full_hotspot: bool,
    pub num_location_asserts: u16,
}

impl View for IotHotspotInfoV0 {
    type V = IotHotspotInfoView;

    open spec fn view(&self) -> IotHotspotInfoView {
        IotHotspotInfoView {
            asset: self.asset,
            hotspot_key: self.hotspot_key@,
            bump_seed: self.bump_seed,
            location: self.location,
            elevation: self.elevation,
            gain: self.gain,
            is_full_hotspot: self.is_full_hotspot,
            num_location_asserts: self.num_location_asserts,
        }
    }
}

/// The record of a hotspot that has just been onboarded: a full hotspot, of
/// which no location, elevation or gain is known, and no location was ever
/// asserted.
pub open spec fn fresh_record(asset: Pubkey, hotspot_key: Seq<char>, bump_seed: u8)
    -> IotHotspotInfoView {
    IotHotspotInfoView {
        asset,
        hotspot_key,
        bump_seed,
        location: None,
        elevation: None,
        gain: None,
        is_full_hotspot: true,
        num_location_asserts: 0,
    }
}

impl IotHotspotInfoV0 {
    /// The record of a hotspot that has just been onboarded.
    pub fn new(asset: Pubkey, hotspot_key: &str, bump_seed: u8) -> (record: IotHotspotInfoV0)
        ensures
            record@ == fresh_record(asset, hotspot_key@, bump_seed),
    {
        IotHotspotInfoV0 {
            asset,
            hotspot_key: hotspot_key.to_owned(),
            bump_seed,
            location: None,
            elevation: None,
            gain: None,
            is_full_hotspot: true,
            num_location_asserts: 0,
        }
    }
}

/// The first seed of every record's address: the bytes of `iot_info`.
pub open spec fn iot_info_prefix() -> Seq<u8> {
    seq![105u8, 111u8, 116u8, 95u8, 105u8, 110u8, 102u8, 111u8]
}

/// The seeds of the address of a record: the prefix, the rewardable entity
/// configuration, and the digest of the hotspot's key.
pub open spec fn record_seeds(config: Pubkey, key_digest: [u8; 32]) -> Seq<Seq<u8>> {
    seq![iot_info_prefix(), config@, key_digest@]
}

/// The address of a hotspot's record under a configuration, with its bump
/// seed: derived from the seeds of the record, with the SHA-256 digest of the
/// UTF-8 bytes of the hotspot's key, under the program that keeps the
/// records.
pub open spec fn record_address_of(program_id: Pubkey, config: Pubkey, hotspot_key: Seq<char>)
    -> Option<(Pubkey, u8)> {
    program_address_of(record_seeds(config, sha256_of(encode_utf8(hotspot_key))), program_id@)
}

/// The seeds of the address of a record.
pub fn record_address_seeds(config: &Pubkey, key_digest: &[u8; 32]) -> (seeds: Vec<Vec<u8>>)
    ensures
        seeds.deep_view() == record_seeds(*config, *key_digest),
{
    let mut prefix: Vec<u8> = Vec::new();
    prefix.push(105);
    prefix.push(111);
    prefix.push(116);
    prefix.push(95);
    prefix.push(105);
    prefix.push(110);
    prefix.push(102);
    prefix.push(111);
    let mut config_seed: Vec<u8> = Vec::new();
    append_bytes(&mut config_seed, config.as_slice());
    let mut key_seed: Vec<u8> = Vec::new();
    append_bytes(&mut key_seed, key_digest.as_slice());
    let mut seeds: Vec<Vec<u8>> = Vec::new();
    seeds.push(prefix);
    seeds.push(config_seed);
    seeds.push(key_seed);
    assert(seeds.deep_view() =~~= record_seeds(*config, *key_digest));
    seeds
}

/// Derives the address of a hotspot's record, and its bump seed.
pub fn find_record_address(program_id: &Pubkey, config: &Pubkey, hotspot_key: &str) -> (found:
    Option<(Pubkey, u8)>)
    ensures
        found == record_address_of(*program_id, *config, hotspot_key@),
{
    let key_digest = sha256(hotspot_key.as_bytes());
    let seeds = record_address_seeds(config, &key_digest);
    find_program_address(&seeds, program_id)
}

/// A record with the address at which it is kept.
#[derive(Debug)]
struct StoredRecord {
    address: Pubkey,
    record: IotHotspotInfoV0,
}

/// The records as a map from their addresses, later entries first.
spec fn records_of(entries: Seq<StoredRecord>) -> Map<Pubkey, IotHotspotInfoView>
    decreases entries.len(),
{
    if entries.len() == 0 {
        Map::empty()
    } else {
        records_of(entries.drop_last()).insert(entries.last().address, entries.last().record@)
    }
}

/// No two entries have the same address.
spec fn distinct_addresses(entries: Seq<StoredRecord>) -> bool {
    forall|i: int, j: int|
        0 <= i < j < entries.len() ==> entries[i].address != entries[j].address
}

proof fn kept_iff_listed(entries: Seq<StoredRecord>, address: Pubkey)
    ensures
        records_of(entries).dom().contains(address) <==> exists|i: int|
            0 <= i < entries.len() && #[trigger] entries[i].address == address,
    decreases entries.len(),
{
    if entries.len() > 0 {
        let front = entries.drop_last();
        kept_iff_listed(front, address);
        if records_of(entries).dom().contains(address) {
            if entries.last().address == address {
                assert(entries[entries.len() - 1].address == address);
            } else {
                let i = choose|i: int|
                    0 <= i < front.len() && #[trigger] front[i].address == address;
                assert(entries[i].address == address);
            }
        }
        if exists|i: int| 0 <= i < entries.len() && #[trigger] entries[i].address == address {
            let i = choose|i: int|
                0 <= i < entries.len() && #[trigger] entries[i].address == address;
            if i < front.len() {
                assert(front[i].address == address);
            }
        }
    }
}

proof fn kept_as_listed(entries: Seq<StoredRecord>, i: int)
    requires
        distinct_addresses(entries),
        0 <= i < entries.len(),
    ensures
        records_of(entries).dom().contains(entries[i].address),
        records_of(entries)[entries[i].address] == entries[i].record@,
    decreases entries.len(),
{
    if i < entries.len() - 1 {
        let front = entries.drop_last();
        assert(front[i] == entries[i]);
        assert(entries[i].address != entries[entries.len() - 1].address);
        assert forall|a: int, b: int| 0 <= a < b < front.len() implies front[a].address
            != front[b].address by {
            assert(front[a] == entries[a]);
            assert(front[b] == entries[b]);
        }
        kept_as_listed(front, i);
    }
}

/// The records of the hotspots that were onboarded, each at its address. A
/// record, once created, is neither replaced nor removed.
#[derive(Debug)]
pub struct RecordStore {
    entries: Vec<StoredRecord>,
}

impl View for RecordStore {
    type V = Map<Pubkey, IotHotspotInfoView>;

    closed spec fn view(&self) -> Map<Pubkey, IotHotspotInfoView> {
        records_of(self.entries@)
    }
}

impl RecordStore {
    #[verifier::type_invariant]
    spec fn well_formed(self) -> bool {
        distinct_addresses(self.entries@)
    }

    /// A store without records.
    pub fn new() -> (store: RecordStore)
        ensures
            store@ == Map::<Pubkey, IotHotspotInfoView>::empty(),
    {
        RecordStore { entries: Vec::new() }
    }

    /// Whether a record is kept at `address`.
    pub fn contains(&self, address: &Pubkey) -> (kept: bool)
        ensures
            kept == self@.dom().contains(*address),
    {
        self.get(address).is_some()
    }

    /// The record kept at `address`.
    pub fn get(&self, address: &Pubkey) -> (found: Option<&IotHotspotInfoV0>)
        ensures
            found is Some <==> self@.dom().contains(*address),
            found matches Some(record) ==> record@ == self@[*address],
    {
        proof {
            use_type_invariant(self);
            kept_iff_listed(self.entries@, *address);
        }
        let mut i: usize = 0;
        while i < self.entries.len()
            invariant
                i <= self.entries@.len(),
                distinct_addresses(self.entries@),
                forall|j: int| 0 <= j < i ==> self.entries@[j].address != *address,
            decreases self.entries@.len() - i,
        {
            if same_bytes(&self.entries[i].address, address) {
                proof {
                    kept_as_listed(self.entries@, i as int);
                }
                return Some(&self.entries[i].record);
            }
            i += 1;
        }
        None
    }

    /// Creates the record at `address`, unless one is kept there already.
    pub fn create(&mut self, address: Pubkey, record: IotHotspotInfoV0) -> (created: Result<
        (),
        OnboardError,
    >)
        ensures
            old(self)@.dom().contains(address) ==> {
                &&& created == Err::<(), OnboardError>(OnboardError::DuplicateRegistration)
                &&& *final(self) == *old(self)
            },
            !old(self)@.dom().contains(address) ==> {
                &&& created is Ok
                &&& final(self)@ == old(self)@.insert(address, record@)
            },
    {
        if self.contains(&address) {
            return Err(OnboardError::DuplicateRegistration);
        }
        proof {
            use_type_invariant(&*self);
            kept_iff_listed(self.entries@, address);
        }
        let mut entries: Vec<StoredRecord> = Vec::new();
        std::mem::swap(&mut self.entries, &mut entries);
        let ghost before = entries@;
        entries.push(StoredRecord { address, record });
        assert(entries@.drop_last() == before);
        self.entries = entries;
        Ok(())
    }
}

} // verus!
