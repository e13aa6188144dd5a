//! Onboarding an IoT hotspot: one atomic step from the request to the record.

use crate::address::Pubkey;
use crate::asset::{asset_id_of, get_asset_id};
use crate::digest::collide;
use crate::error::OnboardError;
use crate::key::{hotspot_key, hotspot_key_of};
use crate::leaf::{preimage_tells_leaf, LeafSchema};
use crate::ledger::{
    burn_without_tracking_v0, burned, BurnCommonV0, BurnWithoutTrackingArgsV0,
    BurnWithoutTrackingV0, CpiContext, TokenAccount,
};
use crate::merkle::{changed_path_changes_root, merkle_root, paths_collide, verify, Node};
use crate::metadata::{
    changed_metadata_changes_hash, creator_hash_of, data_hash_of, data_hash_preimage,
    encoded_metadata, hash_creators, hash_metadata, valid_metadata, MetadataArgs,
};
use crate::record::{
    find_record_address, fresh_record, record_address_of, IotHotspotInfoV0, IotHotspotInfoView,
    RecordStore,
};
use vstd::prelude::*;

verus! {

/// What is asked for: the hotspot's metadata, the root under which its leaf
/// is claimed to lie, and the leaf's index.
#[derive(Clone, Debug, PartialEq, Eq)]
pub struct OnboardIotHotspotArgsV0 {
    pub metadata: MetadataArgs,
    pub root: [u8; 32],
    pub index: u32,
}

/// What the onboarding reads of a sub-DAO.
#[derive(Clone, Copy, Debug, PartialEq, Eq)]
pub struct SubDaoV0 {
    /// The address of the sub-DAO.
    pub key: Pubkey,
    /// The data credits that onboarding a hotspot costs, as of now.
    pub onboarding_dc_fee: u64,
}

/// The accounts of an onboarding, resolved and checked against each other
/// before it starts. The payer's data credits and the records are what it
/// changes.
#[derive(Debug)]
pub struct OnboardIotHotspotV0 {
    /// The program that keeps the records.
    pub program_id: Pubkey,
    pub payer: Pubkey,
    pub authority: Pubkey,
    /// The records of the hotspots onboarded so far.
    pub iot_info: RecordStore,
    pub hotspot_owner: Pubkey,
    pub merkle_tree: Pubkey,
    /// The payer's data credits.
    pub payer_dc_ata: TokenAccount,
    pub rewardable_entity_config: Pubkey,
    pub maker_approval: Pubkey,
    pub maker: Pubkey,
    pub dao: Pubkey,
    pub sub_dao: SubDaoV0,
    pub dc_mint: Pubkey,
    pub dc: Pubkey,
    pub bubblegum_program: Pubkey,
    pub compression_program: Pubkey,
    pub data_credits_program: Pubkey,
    pub token_program: Pubkey,
    pub associated_token_program: Pubkey,
    pub system_program: Pubkey,
    /// The proof of the hotspot's leaf: the siblings on its path to the root,
    /// lowest first.
    pub remaining_accounts: Vec<Node>,
}

/// What a verified request leads to: the leaf that was found in the tree,
/// the fee to burn, and the record to create at its address.
#[derive(Debug)]
pub struct Onboarding {
    pub leaf: LeafSchema,
    pub burn_ctx: CpiContext,
    pub burn_args: BurnWithoutTrackingArgsV0,
    pub iot_info_address: Pubkey,
    pub iot_info: IotHotspotInfoV0,
}

/// What a verified request leads to, as a mathematical value.
pub struct OnboardingView {
    pub leaf: LeafSchema,
    pub burn_ctx: CpiContext,
    pub burn_args: BurnWithoutTrackingArgsV0,
    pub iot_info_address: Pubkey,
    pub iot_info: IotHotspotInfoView,
}

impl View for Onboarding {
    type V = OnboardingView;

    open spec fn view(&self) -> OnboardingView {
        OnboardingView {
            leaf: self.leaf,
            burn_ctx: self.burn_ctx,
            burn_args: self.burn_args,
            iot_info_address: self.iot_info_address,
            iot_info: self.iot_info@,
        }
    }
}

impl OnboardIotHotspotV0 {
    /// The call that burns the fee: it goes to the program of the data
    /// credits, the payer's data credits are the burner, the hotspot's owner
    /// signs.
    pub open spec fn spec_burn_ctx(&self) -> CpiContext {
        CpiContext {
            program: self.data_credits_program,
            accounts: BurnWithoutTrackingV0 {
                burn_accounts: BurnCommonV0 {
                    data_credits: self.dc,
                    burner: self.payer_dc_ata.key,
                    owner: self.hotspot_owner,
                    dc_mint: self.dc_mint,
                    token_program: self.token_program,
                    associated_token_program: self.associated_token_program,
                    system_program: self.system_program,
                },
            },
        }
    }

    /// The call that burns the fee.
    pub fn burn_ctx(&self) -> (cpi: CpiContext)
        ensures
            cpi == self.spec_burn_ctx(),
    {
        let cpi_accounts = BurnWithoutTrackingV0 {
            burn_accounts: BurnCommonV0 {
                data_credits: self.dc,
                burner: self.payer_dc_ata.key,
                owner: self.hotspot_owner,
                dc_mint: self.dc_mint,
                token_program: self.token_program,
                associated_token_program: self.associated_token_program,
                system_program: self.system_program,
            },
        };
        CpiContext { program: self.data_credits_program, accounts: cpi_accounts }
    }
}

/// The leaf that the request claims to lie in the tree: the asset belongs to
/// the hotspot's owner, who is its delegate too.
pub open spec fn claimed_leaf(
    ctx: &OnboardIotHotspotV0,
    args: &OnboardIotHotspotArgsV0,
    asset_id: Pubkey,
) -> LeafSchema {
    LeafSchema::V1 {
        id: asset_id,
        owner: ctx.hotspot_owner,
        delegate: ctx.hotspot_owner,
        nonce: args.index as u64,
        data_hash: data_hash_of(args.metadata@),
        creator_hash: creator_hash_of(args.metadata@.creators),
    }
}

/// What onboarding the hotspot of a verified leaf comes to: the fee as the
/// sub-DAO has it now is burned from the payer's data credits, and a fresh
/// record is created at `address`.
pub open spec fn prepared(
    ctx: &OnboardIotHotspotV0,
    leaf: LeafSchema,
    hotspot_key: Seq<char>,
    address: Pubkey,
    bump: u8,
) -> OnboardingView {
    OnboardingView {
        leaf,
        burn_ctx: ctx.spec_burn_ctx(),
        burn_args: BurnWithoutTrackingArgsV0 { amount: ctx.sub_dao.onboarding_dc_fee },
        iot_info_address: address,
        iot_info: fresh_record(leaf.asset_id(), hotspot_key, bump),
    }
}

/// Says what to burn and which record to create for a verified leaf.
pub fn prepare(
    ctx: &OnboardIotHotspotV0,
    leaf: LeafSchema,
    hotspot_key: &str,
    address: Pubkey,
    bump: u8,
) -> (onboarding: Onboarding)
    ensures
        onboarding@ == prepared(ctx, leaf, hotspot_key@, address, bump),
{
    Onboarding {
        leaf,
        burn_ctx: ctx.burn_ctx(),
        burn_args: BurnWithoutTrackingArgsV0 { amount: ctx.sub_dao.onboarding_dc_fee },
        iot_info_address: address,
        iot_info: IotHotspotInfoV0::new(leaf.id(), hotspot_key, bump),
    }
}

/// What the request leads to, before anything is burned or written: the
/// first of the failures below, or the fee and the record.
pub open spec fn verified_onboarding(ctx: &OnboardIotHotspotV0, args: &OnboardIotHotspotArgsV0)
    -> Result<OnboardingView, OnboardError> {
    if !valid_metadata(args.metadata@) {
        Err(OnboardError::MetadataEncodingError)
    } else {
        match asset_id_of(ctx.merkle_tree, args.index as u64) {
            None => Err(OnboardError::AddressNotDerivable),
            Some(asset_id) => {
                let leaf = claimed_leaf(ctx, args, asset_id);
                let key = hotspot_key_of(args.metadata@.uri);
                if merkle_root(leaf.node(), args.index as nat, ctx.remaining_accounts@)
                    != args.root {
                    Err(OnboardError::ProofMismatch)
                } else {
                    match record_address_of(ctx.program_id, ctx.rewardable_entity_config, key) {
                        None => Err(OnboardError::AddressNotDerivable),
                        Some((address, bump)) => Ok(prepared(ctx, leaf, key, address, bump)),
                    }
                }
            },
        }
    }
}

/// Hashes the metadata, derives the asset's identifier, builds the leaf and
/// verifies its proof against the claimed root; then says what to burn and
/// which record to create. Changes nothing.
pub fn verify_onboarding(ctx: &OnboardIotHotspotV0, args: &OnboardIotHotspotArgsV0) -> (verified:
    Result<Onboarding, OnboardError>)
    ensures
        match verified_onboarding(ctx, args) {
            Ok(onboarding) => verified is Ok && verified->Ok_0@ == onboarding,
            Err(e) => verified is Err && verified->Err_0 == e,
        },
{
    let key = hotspot_key(args.metadata.uri.as_str());
    let data_hash = match hash_metadata(&args.metadata) {
        Ok(hash) => hash,
        Err(e) => {
            return Err(e);
        },
    };
    let creator_hash = match hash_creators(args.metadata.creators.as_slice()) {
        Ok(hash) => hash,
        Err(e) => {
            return Err(e);
        },
    };
    let asset_id = match get_asset_id(&ctx.merkle_tree, args.index as u64) {
        Some(id) => id,
        None => {
            return Err(OnboardError::AddressNotDerivable);
        },
    };
    let leaf = LeafSchema::new_v0(
        asset_id,
        ctx.hotspot_owner,
        ctx.hotspot_owner,
        args.index as u64,
        data_hash,
        creator_hash,
    );
    match verify(&leaf.to_node(), &args.root, args.index, &ctx.remaining_accounts) {
        Ok(()) => {},
        Err(e) => {
            return Err(e);
        },
    }
    match find_record_address(&ctx.program_id, &ctx.rewardable_entity_config, key) {
        Some((address, bump)) => Ok(prepare(ctx, leaf, key, address, bump)),
        None => Err(OnboardError::AddressNotDerivable),
    }
}

/// How carrying out an onboarding ends, judged from the accounts as they are
/// before it: the payer must hold the fee, and no record may be kept at the
/// address yet.
pub open spec fn carried_out(ctx: &OnboardIotHotspotV0, onboarding: OnboardingView) -> Result<
    (),
    OnboardError,
> {
    if burned(ctx.payer_dc_ata, onboarding.burn_args.amount) is None {
        Err(OnboardError::InsufficientFunds)
    } else if ctx.iot_info@.dom().contains(onboarding.iot_info_address) {
        Err(OnboardError::DuplicateRegistration)
    } else {
        Ok(())
    }
}

/// How an onboarding ends, judged from the accounts as they are before it:
/// the first failure on the way from the hashes to the record, or what was
/// burned and written.
pub open spec fn onboarding_outcome(ctx: &OnboardIotHotspotV0, args: &OnboardIotHotspotArgsV0)
    -> Result<OnboardingView, OnboardError> {
    match verified_onboarding(ctx, args) {
        Err(e) => Err(e),
        Ok(onboarding) => match carried_out(ctx, onboarding) {
            Err(e) => Err(e),
            Ok(()) => Ok(onboarding),
        },
    }
}

/// Whether `after` is `before` but for the payer's data credits and the
/// records.
pub open spec fn same_accounts(before: &OnboardIotHotspotV0, after: &OnboardIotHotspotV0) -> bool {
    &&& after.program_id == before.program_id
    &&& after.payer == before.payer
    &&& after.authority == before.authority
    &&& after.hotspot_owner == before.hotspot_owner
    &&& after.merkle_tree == before.merkle_tree
    &&& after.rewardable_entity_config == before.rewardable_entity_config
    &&& after.maker_approval == before.maker_approval
    &&& after.maker == before.maker
    &&& after.dao == before.dao
    &&& after.sub_dao == before.sub_dao
    &&& after.dc_mint == before.dc_mint
    &&& after.dc == before.dc
    &&& after.bubblegum_program == before.bubblegum_program
    &&& after.compression_program == before.compression_program
    &&& after.data_credits_program == before.data_credits_program
    &&& after.token_program == before.token_program
    &&& after.associated_token_program == before.associated_token_program
    &&& after.system_program == before.system_program
    &&& after.remaining_accounts == before.remaining_accounts
}

/// Whether `after` is what `before` becomes when `onboarding` is carried
/// out: the fee is burned from the payer's data credits, the record is
/// created at its address, and nothing else differs.
pub open spec fn onboarded(
    before: &OnboardIotHotspotV0,
    onboarding: OnboardingView,
    after: &OnboardIotHotspotV0,
) -> bool {
    &&& same_accounts(before, after)
    &&& burned(before.payer_dc_ata, onboarding.burn_args.amount) == Some(after.payer_dc_ata)
    &&& after.iot_info@ == before.iot_info@.insert(
        onboarding.iot_info_address,
        onboarding.iot_info,
    )
}

/// Carries out an onboarding: burns the fee, then creates the record. Where
/// the record cannot be created the fee is given back, so that either both
/// happen or nothing does.
pub fn carry_out(ctx: &mut OnboardIotHotspotV0, onboarding: Onboarding) -> (done: Result<
    (),
    OnboardError,
>)
    ensures
        match carried_out(old(ctx), onboarding@) {
            Ok(()) => done is Ok && onboarded(old(ctx), onboarding@, final(ctx)),
            Err(e) => done == Err::<(), OnboardError>(e) && *final(ctx) == *old(ctx),
        },
{
    let funds = ctx.payer_dc_ata;
    match burn_without_tracking_v0(&mut ctx.payer_dc_ata, onboarding.burn_args) {
        Ok(()) => {},
        Err(e) => {
            return Err(e);
        },
    }
    match ctx.iot_info.create(onboarding.iot_info_address, onboarding.iot_info) {
        Ok(()) => Ok(()),
        Err(e) => {
            ctx.payer_dc_ata = funds;
            Err(e)
        },
    }
}

/// Onboards a hotspot: verifies the request, burns the fee, creates the
/// record. Either all of it happens or nothing does.
pub fn handler(ctx: &mut OnboardIotHotspotV0, args: OnboardIotHotspotArgsV0) -> (done: Result<
    (),
    OnboardError,
>)
    ensures
        match onboarding_outcome(old(ctx), &args) {
            Ok(onboarding) => done is Ok && onboarded(old(ctx), onboarding, final(ctx)),
            Err(e) => done == Err::<(), OnboardError>(e) && *final(ctx) == *old(ctx),
        },
{
    match verify_onboarding(ctx, &args) {
        Ok(onboarding) => carry_out(ctx, onboarding),
        Err(e) => Err(e),
    }
}

/// A hotspot is onboarded once under a configuration. After an onboarding,
/// no onboarding of a hotspot with the same key under the same configuration
/// succeeds: one that is verified and paid for finds the record in place.
/// The payer's data credits were burned once.
pub proof fn onboarded_once(
    before: &OnboardIotHotspotV0,
    first: &OnboardIotHotspotArgsV0,
    after: &OnboardIotHotspotV0,
    again: &OnboardIotHotspotV0,
    second: &OnboardIotHotspotArgsV0,
)
    requires
        onboarding_outcome(before, first) is Ok,
        onboarded(before, onboarding_outcome(before, first)->Ok_0, after),
        again.iot_info@ == after.iot_info@,
        again.program_id == before.program_id,
        again.rewardable_entity_config == before.rewardable_entity_config,
        hotspot_key_of(second.metadata@.uri) == hotspot_key_of(first.metadata@.uri),
    ensures
        onboarding_outcome(again, second) is Err,
        verified_onboarding(again, second) is Ok && again.sub_dao.onboarding_dc_fee
            <= again.payer_dc_ata.amount ==> onboarding_outcome(again, second) == Err::<
            OnboardingView,
            OnboardError,
        >(OnboardError::DuplicateRegistration),
        after.payer_dc_ata.amount == before.payer_dc_ata.amount - before.sub_dao.onboarding_dc_fee,
{
}

/// Where the proof does not lead to the claimed root, the onboarding fails
/// with `ProofMismatch`, whatever the payer holds and whatever is recorded.
pub proof fn mismatch_is_refused(
    ctx: &OnboardIotHotspotV0,
    args: &OnboardIotHotspotArgsV0,
    asset_id: Pubkey,
)
    requires
        valid_metadata(args.metadata@),
        asset_id_of(ctx.merkle_tree, args.index as u64) == Some(asset_id),
        merkle_root(
            claimed_leaf(ctx, args, asset_id).node(),
            args.index as nat,
            ctx.remaining_accounts@,
        ) != args.root,
    ensures
        onboarding_outcome(ctx, args) == Err::<OnboardingView, OnboardError>(
            OnboardError::ProofMismatch,
        ),
{
}

/// A request that is verified is refused against any other root, with
/// `ProofMismatch`.
pub proof fn changed_root_is_refused(
    ctx: &OnboardIotHotspotV0,
    args: &OnboardIotHotspotArgsV0,
    other: &OnboardIotHotspotArgsV0,
)
    requires
        verified_onboarding(ctx, args) is Ok,
        other.metadata@ == args.metadata@,
        other.index == args.index,
        other.root != args.root,
    ensures
        onboarding_outcome(ctx, other) == Err::<OnboardingView, OnboardError>(
            OnboardError::ProofMismatch,
        ),
{
}

/// Beside a request that is verified, one for the same index and root whose
/// leaf differs in a field, or whose proof differs in a sibling, is refused
/// with `ProofMismatch`, unless Keccak-256 has one digest for two of the
/// byte strings hashed: those of the two leaves, or two on the two paths.
pub proof fn changed_leaf_or_proof_is_refused(
    ctx: &OnboardIotHotspotV0,
    args: &OnboardIotHotspotArgsV0,
    asset_id: Pubkey,
    other_ctx: &OnboardIotHotspotV0,
    other_args: &OnboardIotHotspotArgsV0,
    other_asset_id: Pubkey,
)
    requires
        verified_onboarding(ctx, args) is Ok,
        asset_id_of(ctx.merkle_tree, args.index as u64) == Some(asset_id),
        valid_metadata(other_args.metadata@),
        asset_id_of(other_ctx.merkle_tree, other_args.index as u64) == Some(other_asset_id),
        other_args.index == args.index,
        other_args.root == args.root,
        other_ctx.remaining_accounts@.len() == ctx.remaining_accounts@.len(),
        claimed_leaf(ctx, args, asset_id) != claimed_leaf(other_ctx, other_args, other_asset_id)
            || other_ctx.remaining_accounts@ != ctx.remaining_accounts@,
    ensures
        ({
            let leaf = claimed_leaf(ctx, args, asset_id);
            let other_leaf = claimed_leaf(other_ctx, other_args, other_asset_id);
            ||| onboarding_outcome(other_ctx, other_args) == Err::<OnboardingView, OnboardError>(
                OnboardError::ProofMismatch,
            )
            ||| collide(leaf.preimage(), other_leaf.preimage())
            ||| paths_collide(
                leaf.node(),
                ctx.remaining_accounts@,
                other_leaf.node(),
                other_ctx.remaining_accounts@,
                args.index as nat,
            )
        }),
{
    let leaf = claimed_leaf(ctx, args, asset_id);
    let other_leaf = claimed_leaf(other_ctx, other_args, other_asset_id);
    if leaf.preimage() == other_leaf.preimage() {
        preimage_tells_leaf(leaf, other_leaf);
    }
    if !collide(leaf.preimage(), other_leaf.preimage()) {
        changed_path_changes_root(
            leaf.node(),
            ctx.remaining_accounts@,
            other_leaf.node(),
            other_ctx.remaining_accounts@,
            args.index as nat,
        );
    }
}

/// Beside a request that is verified, one with other metadata for the same
/// index and root is refused with `ProofMismatch`, unless Keccak-256 has one
/// digest for two of the byte strings hashed: the canonical bytes of the two
/// metadata, what is hashed into their data hashes, the bytes of the two
/// leaves, or two on the two paths.
pub proof fn changed_metadata_is_refused(
    ctx: &OnboardIotHotspotV0,
    args: &OnboardIotHotspotArgsV0,
    asset_id: Pubkey,
    other: &OnboardIotHotspotArgsV0,
)
    requires
        verified_onboarding(ctx, args) is Ok,
        asset_id_of(ctx.merkle_tree, args.index as u64) == Some(asset_id),
        valid_metadata(other.metadata@),
        other.metadata@ != args.metadata@,
        other.index == args.index,
        other.root == args.root,
    ensures
        ({
            let leaf = claimed_leaf(ctx, args, asset_id);
            let other_leaf = claimed_leaf(ctx, other, asset_id);
            ||| onboarding_outcome(ctx, other) == Err::<OnboardingView, OnboardError>(
                OnboardError::ProofMismatch,
            )
            ||| collide(encoded_metadata(args.metadata@), encoded_metadata(other.metadata@))
            ||| collide(data_hash_preimage(args.metadata@), data_hash_preimage(other.metadata@))
            ||| collide(leaf.preimage(), other_leaf.preimage())
            ||| paths_collide(
                leaf.node(),
                ctx.remaining_accounts@,
                other_leaf.node(),
                ctx.remaining_accounts@,
                args.index as nat,
            )
        }),
{
    changed_metadata_changes_hash(args.metadata@, other.metadata@);
    if data_hash_of(args.metadata@) != data_hash_of(other.metadata@) {
        changed_leaf_or_proof_is_refused(ctx, args, asset_id, ctx, other, asset_id);
    }
}

/// What an onboarding burns is the sub-DAO's fee as the accounts hold it when
/// the onboarding starts: the program of the data credits is asked to burn it
/// from the payer's data credits, in the name of the hotspot's owner.
pub proof fn burns_the_current_fee(
    before: &OnboardIotHotspotV0,
    args: &OnboardIotHotspotArgsV0,
    after: &OnboardIotHotspotV0,
)
    requires
        onboarding_outcome(before, args) is Ok,
        onboarded(before, onboarding_outcome(before, args)->Ok_0, after),
    ensures
        onboarding_outcome(before, args)->Ok_0.burn_args.amount
            == before.sub_dao.onboarding_dc_fee,
        onboarding_outcome(before, args)->Ok_0.burn_ctx.program == before.data_credits_program,
        onboarding_outcome(before, args)->Ok_0.burn_ctx.accounts.burn_accounts.burner
            == before.payer_dc_ata.key,
        onboarding_outcome(before, args)->Ok_0.burn_ctx.accounts.burn_accounts.owner
            == before.hotspot_owner,
        before.payer_dc_ata.amount - after.payer_dc_ata.amount
            == before.sub_dao.onboarding_dc_fee,
{
}

/// The record that an onboarding creates: at the address of the hotspot's
/// key under the configuration, a full hotspot with its key and its asset,
/// without location, elevation or gain, and no location asserted.
pub proof fn creates_a_fresh_record(
    before: &OnboardIotHotspotV0,
    args: &OnboardIotHotspotArgsV0,
    after: &OnboardIotHotspotV0,
)
    requires
        onboarding_outcome(before, args) is Ok,
        onboarded(before, onboarding_outcome(before, args)->Ok_0, after),
    ensures
        ({
            let address = onboarding_outcome(before, args)->Ok_0.iot_info_address;
            let key = hotspot_key_of(args.metadata@.uri);
            &&& !before.iot_info@.dom().contains(address)
            &&& after.iot_info@.dom() == before.iot_info@.dom().insert(address)
            &&& record_address_of(before.program_id, before.rewardable_entity_config, key)
                matches Some((a, bump)) && a == address && after.iot_info@[address].bump_seed
                == bump
            &&& after.iot_info@[address].hotspot_key == key
            &&& Some(after.iot_info@[address].asset) == asset_id_of(
                before.merkle_tree,
                args.index as u64,
            )
            &&& after.iot_info@[address].is_full_hotspot
            &&& after.iot_info@[address].num_location_asserts == 0
            &&& after.iot_info@[address].location is None
            &&& after.iot_info@[address].elevation is None
            &&& after.iot_info@[address].gain is None
            &&& forall|other: Pubkey|
                other != address && before.iot_info@.dom().contains(other)
                    ==> after.iot_info@[other] == before.iot_info@[other]
        }),
{
}

} // verus!
