//! The metadata of a compressed asset, and the digests that stand for it in
//! the asset's leaf.

use crate::address::Pubkey;
use crate::bytes::append_bytes;
use crate::digest::{collide, keccak256, keccak256_of};
use crate::error::OnboardError;
use vstd::bytes::{
    lemma_auto_spec_u16_to_from_le_bytes, lemma_auto_spec_u32_to_from_le_bytes,
    lemma_auto_spec_u64_to_from_le_bytes, spec_u16_to_le_bytes, spec_u32_to_le_bytes,
    spec_u64_to_le_bytes,
};
use vstd::bytes::{u16_to_le_bytes, u32_to_le_bytes, u64_to_le_bytes};
use vstd::prelude::*;
use vstd::utf8::{encode_utf8, encode_utf8_decode_utf8};

verus! {

/// The longest name, in bytes.
pub const MAX_NAME_LENGTH: usize = 32;

/// The longest symbol, in bytes.
pub const MAX_SYMBOL_LENGTH: usize = 10;

/// The longest URI, in bytes.
pub const MAX_URI_LENGTH: usize = 200;

/// The largest number of creators.
pub const MAX_CREATOR_LIMIT: usize = 5;

/// One creator of an asset, with the share of the royalties that is theirs.
#[derive(Clone, Copy, Debug, PartialEq, Eq)]
pub struct Creator {
    pub address: Pubkey,
    pub verified: bool,
    pub share: u8,
}

/// The kind of token that an asset is.
#[derive(Clone, Copy, Debug, PartialEq, Eq, Structural)]
pub enum TokenStandard {
    NonFungible,
    FungibleAsset,
    Fungible,
    NonFungibleEdition,
}

/// What becomes of an asset when it is used.
#[derive(Clone, Copy, Debug, PartialEq, Eq, Structural)]
pub enum UseMethod {
    Burn,
    Multiple,
    Single,
}

/// The token program under which an asset was made.
#[derive(Clone, Copy, Debug, PartialEq, Eq, Structural)]
pub enum TokenProgramVersion {
    Original,
    Token2022,
}

/// How often an asset may be used, and how often it still may.
#[derive(Clone, Copy, Debug, PartialEq, Eq, Structural)]
pub struct Uses {
    pub use_method: UseMethod,
    pub remaining: u64,
    pub total: u64,
}

/// The collection that an asset belongs to, and whether that was verified.
#[derive(Clone, Copy, Debug, PartialEq, Eq)]
pub struct Collection {
    pub verified: bool,
    pub key: Pubkey,
}

/// The metadata of an asset.
#[derive(Clone, Debug, PartialEq, Eq)]
pub struct MetadataArgs {
    /// The name of the asset.
    pub name: String,
    /// The symbol of the asset.
    pub symbol: String,
    /// Where the JSON that describes the asset lies.
    pub uri: String,
    /// The royalty, in hundredths of a percent.
    pub seller_fee_basis_points: u16,
    pub primary_sale_happened: bool,
    pub is_mutable: bool,
    pub edition_nonce: Option<u8>,
    pub token_standard: Option<TokenStandard>,
    pub collection: Option<Collection>,
    pub uses: Option<Uses>,
    pub token_program_version: TokenProgramVersion,
    pub creators: Vec<Creator>,
}

/// The metadata of an asset as a mathematical value.
pub struct MetadataView {
    pub name: Seq<char>,
    pub symbol: Seq<char>,
    pub uri: Seq<char>,
    pub seller_fee_basis_points: u16,
    pub primary_sale_happened: bool,
    pub is_mutable: bool,
    pub edition_nonce: Option<u8>,
    pub token_standard: Option<TokenStandard>,
    pub collection: Option<Collection>,
    pub uses: Option<Uses>,
    pub token_program_version: TokenProgramVersion,
    pub creators: Seq<Creator>,
}

impl View for MetadataArgs {
    type V = MetadataView;

    open spec fn view(&self) -> MetadataView {
        MetadataView {
            name: self.name@,
            symbol: self.symbol@,
            uri: self.uri@,
            seller_fee_basis_points: self.seller_fee_basis_points,
            primary_sale_happened: self.primary_sale_happened,
            is_mutable: self.is_mutable,
            edition_nonce: self.edition_nonce,
            token_standard: self.token_standard,
            collection: self.collection,
            uses: self.uses,
            token_program_version: self.token_program_version,
            creators: self.creators@,
        }
    }
}

/// The bytes of one creator: the address, the verified flag, the share.
pub open spec fn creator_bytes(creator: Creator) -> Seq<u8> {
    creator.address@ + seq![if creator.verified { 1u8 } else { 0u8 }, creator.share]
}

/// The bytes of the creators, one after the other in their order.
pub open spec fn creators_bytes(creators: Seq<Creator>) -> Seq<u8>
    decreases creators.len(),
{
    if creators.len() == 0 {
        Seq::empty()
    } else {
        creators_bytes(creators.drop_last()) + creator_bytes(creators.last())
    }
}

/// The digest that stands for the creators in a leaf.
pub open spec fn creator_hash_of(creators: Seq<Creator>) -> [u8; 32] {
    keccak256_of(creators_bytes(creators))
}

fn flag_byte(flag: bool) -> (byte: u8)
    ensures
        byte == if flag { 1u8 } else { 0u8 },
{
    if flag {
        1
    } else {
        0
    }
}

/// Appends the bytes of each creator to `out`.
fn append_creators(out: &mut Vec<u8>, creators: &[Creator])
    ensures
        final(out)@ == old(out)@ + creators_bytes(creators@),
{
    let n = creators.len();
    let mut i: usize = 0;
    assert(creators@.take(0) == Seq::<Creator>::empty());
    while i < n
        invariant
            n == creators@.len(),
            i <= n,
            out@ == old(out)@ + creators_bytes(creators@.take(i as int)),
        decreases n - i,
    {
        let creator = &creators[i];
        proof {
            let next = creators@.take(i + 1);
            assert(next.drop_last() == creators@.take(i as int));
            assert(next.last() == creators@[i as int]);
        }
        append_bytes(out, creator.address.as_slice());
        out.push(flag_byte(creator.verified));
        out.push(creator.share);
        i += 1;
    }
    assert(creators@.take(n as int) == creators@);
}

/// The bytes that are hashed for the creators: the address, the verified
/// flag and the share of each, in the order given.
pub fn encode_creators(creators: &[Creator]) -> (encoded: Result<Vec<u8>, OnboardError>)
    ensures
        creators@.len() <= MAX_CREATOR_LIMIT ==> encoded is Ok && encoded->Ok_0@
            == creators_bytes(creators@),
        creators@.len() > MAX_CREATOR_LIMIT ==> encoded == Err::<Vec<u8>, OnboardError>(
            OnboardError::MetadataEncodingError,
        ),
{
    if creators.len() > MAX_CREATOR_LIMIT {
        return Err(OnboardError::MetadataEncodingError);
    }
    let mut data: Vec<u8> = Vec::new();
    append_creators(&mut data, creators);
    Ok(data)
}

/// Hashes the creators of an asset: Keccak-256 of the address, the verified
/// flag and the share of each, in the order given. No creators hash as the
/// empty byte string does.
pub fn hash_creators(creators: &[Creator]) -> (hashed: Result<[u8; 32], OnboardError>)
    ensures
        creators@.len() <= MAX_CREATOR_LIMIT ==> hashed == Ok::<[u8; 32], OnboardError>(
            creator_hash_of(creators@),
        ),
        creators@.len() > MAX_CREATOR_LIMIT ==> hashed == Err::<[u8; 32], OnboardError>(
            OnboardError::MetadataEncodingError,
        ),
{
    match encode_creators(creators) {
        Ok(data) => Ok(keccak256(data.as_slice())),
        Err(e) => Err(e),
    }
}

/// Whether the metadata can be encoded: no field is longer than allowed, and
/// the URI is not empty.
pub open spec fn valid_metadata(metadata: MetadataView) -> bool {
    &&& encode_utf8(metadata.name).len() <= MAX_NAME_LENGTH
    &&& encode_utf8(metadata.symbol).len() <= MAX_SYMBOL_LENGTH
    &&& 0 < encode_utf8(metadata.uri).len() <= MAX_URI_LENGTH
    &&& metadata.creators.len() <= MAX_CREATOR_LIMIT
}

/// A flag as one byte.
pub open spec fn encoded_flag(flag: bool) -> Seq<u8> {
    seq![if flag { 1u8 } else { 0u8 }]
}

/// A string: the number of its UTF-8 bytes in four bytes, lowest first, then
/// those bytes.
pub open spec fn encoded_string(text: Seq<char>) -> Seq<u8> {
    spec_u32_to_le_bytes(encode_utf8(text).len() as u32) + encode_utf8(text)
}

/// An optional edition nonce: a zero byte, or a one byte and the nonce.
pub open spec fn encoded_edition_nonce(nonce: Option<u8>) -> Seq<u8> {
    match nonce {
        None => seq![0u8],
        Some(n) => seq![1u8, n],
    }
}

/// The byte that stands for a token standard.
pub open spec fn token_standard_tag(standard: TokenStandard) -> u8 {
    match standard {
        TokenStandard::NonFungible => 0,
        TokenStandard::FungibleAsset => 1,
        TokenStandard::Fungible => 2,
        TokenStandard::NonFungibleEdition => 3,
    }
}

/// An optional token standard: a zero byte, or a one byte and its tag.
pub open spec fn encoded_token_standard(standard: Option<TokenStandard>) -> Seq<u8> {
    match standard {
        None => seq![0u8],
        Some(s) => seq![1u8, token_standard_tag(s)],
    }
}

/// An optional collection: a zero byte, or a one byte, the verified flag and
/// the key.
pub open spec fn encoded_collection(collection: Option<Collection>) -> Seq<u8> {
    match collection {
        None => seq![0u8],
        Some(c) => seq![1u8, if c.verified { 1u8 } else { 0u8 }] + c.key@,
    }
}

/// The byte that stands for a use method.
pub open spec fn use_method_tag(method: UseMethod) -> u8 {
    match method {
        UseMethod::Burn => 0,
        UseMethod::Multiple => 1,
        UseMethod::Single => 2,
    }
}

/// Optional uses: a zero byte, or a one byte, the method's tag and the two
/// counts in eight bytes each, lowest first.
pub open spec fn encoded_uses(uses: Option<Uses>) -> Seq<u8> {
    match uses {
        None => seq![0u8],
        Some(u) => seq![1u8, use_method_tag(u.use_method)]
            + spec_u64_to_le_bytes(u.remaining)
            + spec_u64_to_le_bytes(u.total),
    }
}

/// The byte that stands for a token program version.
pub open spec fn token_program_version_tag(version: TokenProgramVersion) -> u8 {
    match version {
        TokenProgramVersion::Original => 0,
        TokenProgramVersion::Token2022 => 1,
    }
}

/// The creators: their number in four bytes, lowest first, then the bytes of
/// each.
pub open spec fn encoded_creators(creators: Seq<Creator>) -> Seq<u8> {
    spec_u32_to_le_bytes(creators.len() as u32) + creators_bytes(creators)
}

/// The canonical bytes of the metadata: its fields in the order in which they
/// are declared.
pub open spec fn encoded_metadata(metadata: MetadataView) -> Seq<u8> {
    encoded_string(metadata.name)
        + encoded_string(metadata.symbol)
        + encoded_string(metadata.uri)
        + spec_u16_to_le_bytes(metadata.seller_fee_basis_points)
        + encoded_flag(metadata.primary_sale_happened)
        + encoded_flag(metadata.is_mutable)
        + encoded_edition_nonce(metadata.edition_nonce)
        + encoded_token_standard(metadata.token_standard)
        + encoded_collection(metadata.collection)
        + encoded_uses(metadata.uses)
        + seq![token_program_version_tag(metadata.token_program_version)]
        + encoded_creators(metadata.creators)
}

/// What is hashed into the data hash: the digest of the canonical bytes,
/// followed by the royalty in two bytes, lowest first.
pub open spec fn data_hash_preimage(metadata: MetadataView) -> Seq<u8> {
    keccak256_of(encoded_metadata(metadata))@
        + spec_u16_to_le_bytes(metadata.seller_fee_basis_points)
}

/// The digest that stands for the metadata in a leaf: Keccak-256 of the
/// digest of the canonical bytes, followed by the royalty in two bytes,
/// lowest first.
pub open spec fn data_hash_of(metadata: MetadataView) -> [u8; 32] {
    keccak256_of(data_hash_preimage(metadata))
}

/// The number of UTF-8 bytes of a string.
fn byte_len(text: &str) -> (n: usize)
    ensures
        n == encode_utf8(text@).len(),
{
    text.as_bytes().len()
}

/// Whether the metadata can be encoded.
pub fn check_metadata(metadata: &MetadataArgs) -> (valid: bool)
    ensures
        valid == valid_metadata(metadata@),
{
    let name_len = byte_len(metadata.name.as_str());
    let symbol_len = byte_len(metadata.symbol.as_str());
    let uri_len = byte_len(metadata.uri.as_str());
    let creators = metadata.creators.len();
    name_len <= MAX_NAME_LENGTH && symbol_len <= MAX_SYMBOL_LENGTH && 0 < uri_len && uri_len
        <= MAX_URI_LENGTH && creators <= MAX_CREATOR_LIMIT
}

fn append_string(out: &mut Vec<u8>, text: &str)
    requires
        encode_utf8(text@).len() <= u32::MAX,
    ensures
        final(out)@ == old(out)@ + encoded_string(text@),
{
    let bytes = text.as_bytes();
    let prefix = u32_to_le_bytes(bytes.len() as u32);
    append_bytes(out, prefix.as_slice());
    append_bytes(out, bytes);
    assert(out@ =~= old(out)@ + encoded_string(text@));
}

fn append_edition_nonce(out: &mut Vec<u8>, nonce: Option<u8>)
    ensures
        final(out)@ == old(out)@ + encoded_edition_nonce(nonce),
{
    match nonce {
        None => {
            out.push(0);
        },
        Some(n) => {
            out.push(1);
            out.push(n);
        },
    }
    assert(out@ =~= old(out)@ + encoded_edition_nonce(nonce));
}

fn token_standard_byte(standard: TokenStandard) -> (tag: u8)
    ensures
        tag == token_standard_tag(standard),
{
    match standard {
        TokenStandard::NonFungible => 0,
        TokenStandard::FungibleAsset => 1,
        TokenStandard::Fungible => 2,
        TokenStandard::NonFungibleEdition => 3,
    }
}

fn append_token_standard(out: &mut Vec<u8>, standard: Option<TokenStandard>)
    ensures
        final(out)@ == old(out)@ + encoded_token_standard(standard),
{
    match standard {
        None => {
            out.push(0);
        },
        Some(s) => {
            out.push(1);
            out.push(token_standard_byte(s));
        },
    }
    assert(out@ =~= old(out)@ + encoded_token_standard(standard));
}

fn append_collection(out: &mut Vec<u8>, collection: &Option<Collection>)
    ensures
        final(out)@ == old(out)@ + encoded_collection(*collection),
{
    match collection {
        None => {
            out.push(0);
        },
        Some(c) => {
            out.push(1);
            out.push(flag_byte(c.verified));
            append_bytes(out, c.key.as_slice());
        },
    }
    assert(out@ =~= old(out)@ + encoded_collection(*collection));
}

fn use_method_byte(method: UseMethod) -> (tag: u8)
    ensures
        tag == use_method_tag(method),
{
    match method {
        UseMethod::Burn => 0,
        UseMethod::Multiple => 1,
        UseMethod::Single => 2,
    }
}

fn append_uses(out: &mut Vec<u8>, uses: &Option<Uses>)
    ensures
        final(out)@ == old(out)@ + encoded_uses(*uses),
{
    match uses {
        None => {
            out.push(0);
        },
        Some(u) => {
            out.push(1);
            out.push(use_method_byte(u.use_method));
            let remaining = u64_to_le_bytes(u.remaining);
            append_bytes(out, remaining.as_slice());
            let total = u64_to_le_bytes(u.total);
            append_bytes(out, total.as_slice());
        },
    }
    assert(out@ =~= old(out)@ + encoded_uses(*uses));
}

fn token_program_version_byte(version: TokenProgramVersion) -> (tag: u8)
    ensures
        tag == token_program_version_tag(version),
{
    match version {
        TokenProgramVersion::Original => 0,
        TokenProgramVersion::Token2022 => 1,
    }
}

fn append_encoded_creators(out: &mut Vec<u8>, creators: &[Creator])
    requires
        creators@.len() <= u32::MAX,
    ensures
        final(out)@ == old(out)@ + encoded_creators(creators@),
{
    let prefix = u32_to_le_bytes(creators.len() as u32);
    append_bytes(out, prefix.as_slice());
    append_creators(out, creators);
    assert(out@ =~= old(out)@ + encoded_creators(creators@));
}

/// Encodes the metadata into its canonical bytes.
pub fn encode_metadata(metadata: &MetadataArgs) -> (encoded: Result<Vec<u8>, OnboardError>)
    ensures
        valid_metadata(metadata@) ==> encoded is Ok && encoded->Ok_0@ == encoded_metadata(
            metadata@,
        ),
        !valid_metadata(metadata@) ==> encoded == Err::<Vec<u8>, OnboardError>(
            OnboardError::MetadataEncodingError,
        ),
{
    if !check_metadata(metadata) {
        return Err(OnboardError::MetadataEncodingError);
    }
    let mut out: Vec<u8> = Vec::new();
    append_string(&mut out, metadata.name.as_str());
    append_string(&mut out, metadata.symbol.as_str());
    append_string(&mut out, metadata.uri.as_str());
    let fee = u16_to_le_bytes(metadata.seller_fee_basis_points);
    append_bytes(&mut out, fee.as_slice());
    out.push(flag_byte(metadata.primary_sale_happened));
    out.push(flag_byte(metadata.is_mutable));
    append_edition_nonce(&mut out, metadata.edition_nonce);
    append_token_standard(&mut out, metadata.token_standard);
    append_collection(&mut out, &metadata.collection);
    append_uses(&mut out, &metadata.uses);
    out.push(token_program_version_byte(metadata.token_program_version));
    append_encoded_creators(&mut out, metadata.creators.as_slice());
    assert(out@ =~= encoded_metadata(metadata@));
    Ok(out)
}

/// The bytes that are hashed into the data hash: the digest of the canonical
/// bytes, then the royalty in two bytes, lowest first.
pub fn data_hash_bytes(metadata_hash: &[u8; 32], seller_fee_basis_points: u16) -> (bytes: Vec<u8>)
    ensures
        bytes@ == metadata_hash@ + spec_u16_to_le_bytes(seller_fee_basis_points),
{
    let mut bytes: Vec<u8> = Vec::new();
    append_bytes(&mut bytes, metadata_hash.as_slice());
    let fee = u16_to_le_bytes(seller_fee_basis_points);
    append_bytes(&mut bytes, fee.as_slice());
    bytes
}

/// Hashes the metadata of an asset: Keccak-256 of its canonical bytes, hashed
/// once more together with the royalty.
pub fn hash_metadata(metadata: &MetadataArgs) -> (hashed: Result<[u8; 32], OnboardError>)
    ensures
        valid_metadata(metadata@) ==> hashed == Ok::<[u8; 32], OnboardError>(
            data_hash_of(metadata@),
        ),
        !valid_metadata(metadata@) ==> hashed == Err::<[u8; 32], OnboardError>(
            OnboardError::MetadataEncodingError,
        ),
{
    match encode_metadata(metadata) {
        Err(e) => Err(e),
        Ok(encoded) => {
            let metadata_hash = keccak256(encoded.as_slice());
            let bytes = data_hash_bytes(&metadata_hash, metadata.seller_fee_basis_points);
            Ok(keccak256(bytes.as_slice()))
        },
    }
}

/// Both hashes depend on the value of the metadata alone: metadata that are
/// equal as values are valid together and have the same hashes.
pub proof fn hashes_follow_the_value(a: &MetadataArgs, b: &MetadataArgs)
    requires
        a@ == b@,
    ensures
        valid_metadata(a@) == valid_metadata(b@),
        data_hash_of(a@) == data_hash_of(b@),
        creator_hash_of(a.creators@) == creator_hash_of(b.creators@),
{
}

/// No creators hash as the empty byte string does.
pub proof fn no_creators_hash_as_nothing()
    ensures
        creator_hash_of(Seq::<Creator>::empty()) == keccak256_of(Seq::<u8>::empty()),
{
}

/// Each creator takes 34 bytes.
pub proof fn creators_bytes_len(creators: Seq<Creator>)
    ensures
        creators_bytes(creators).len() == 34 * creators.len(),
    decreases creators.len(),
{
    if creators.len() > 0 {
        creators_bytes_len(creators.drop_last());
    }
}

/// The creators can be read off their bytes: other creators, or the same in
/// another order, have other bytes.
pub proof fn creators_bytes_injective(a: Seq<Creator>, b: Seq<Creator>)
    requires
        creators_bytes(a) == creators_bytes(b),
    ensures
        a == b,
    decreases a.len(),
{
    creators_bytes_len(a);
    creators_bytes_len(b);
    if a.len() == 0 {
        assert(a =~= b);
    } else {
        let front_a = creators_bytes(a.drop_last());
        let front_b = creators_bytes(b.drop_last());
        let last_a = creator_bytes(a.last());
        let last_b = creator_bytes(b.last());
        creators_bytes_len(a.drop_last());
        creators_bytes_len(b.drop_last());
        let all = creators_bytes(a);
        assert(all == front_a + last_a);
        assert(all == front_b + last_b);
        let n = front_a.len() as int;
        assert(front_a =~= all.subrange(0, n));
        assert(front_b =~= all.subrange(0, n));
        assert(last_a =~= all.subrange(n, n + 34));
        assert(last_b =~= all.subrange(n, n + 34));
        assert forall|i: int| 0 <= i < 32 implies a.last().address@[i] == b.last().address@[i] by {
            assert(last_a[i] == a.last().address@[i]);
            assert(last_b[i] == b.last().address@[i]);
        }
        assert(a.last().address =~= b.last().address);
        assert(last_a[32] == last_b[32]);
        assert(last_a[33] == last_b[33]);
        assert(a.last() == b.last());
        creators_bytes_injective(a.drop_last(), b.drop_last());
        assert(a =~= a.drop_last().push(a.last()));
        assert(b =~= b.drop_last().push(b.last()));
    }
}

/// Two byte strings that start with parts of one length and are the same
/// have the same parts and the same rests.
proof fn same_split<T>(a: Seq<T>, x: Seq<T>, b: Seq<T>, y: Seq<T>)
    requires
        a + x == b + y,
        a.len() == b.len(),
    ensures
        a == b,
        x == y,
{
    let n = a.len() as int;
    assert(a =~= (a + x).subrange(0, n));
    assert(b =~= (b + y).subrange(0, n));
    assert(x =~= (a + x).subrange(n, (a + x).len() as int));
    assert(y =~= (b + y).subrange(n, (b + y).len() as int));
}

proof fn string_parts(s: Seq<char>, x: Seq<u8>, t: Seq<char>, y: Seq<u8>)
    requires
        encoded_string(s) + x == encoded_string(t) + y,
        encode_utf8(s).len() <= u32::MAX,
        encode_utf8(t).len() <= u32::MAX,
    ensures
        s == t,
        x == y,
{
    lemma_auto_spec_u32_to_from_le_bytes();
    let len_s = encode_utf8(s).len() as u32;
    let len_t = encode_utf8(t).len() as u32;
    let head_s = spec_u32_to_le_bytes(len_s);
    let head_t = spec_u32_to_le_bytes(len_t);
    assert(encoded_string(s) + x =~= head_s + (encode_utf8(s) + x));
    assert(encoded_string(t) + y =~= head_t + (encode_utf8(t) + y));
    same_split(head_s, encode_utf8(s) + x, head_t, encode_utf8(t) + y);
    assert(len_s == len_t);
    same_split(encode_utf8(s), x, encode_utf8(t), y);
    encode_utf8_decode_utf8(s);
    encode_utf8_decode_utf8(t);
}

proof fn royalty_parts(s: u16, x: Seq<u8>, t: u16, y: Seq<u8>)
    requires
        spec_u16_to_le_bytes(s) + x == spec_u16_to_le_bytes(t) + y,
    ensures
        s == t,
        x == y,
{
    lemma_auto_spec_u16_to_from_le_bytes();
    same_split(spec_u16_to_le_bytes(s), x, spec_u16_to_le_bytes(t), y);
}

proof fn flag_parts(s: bool, x: Seq<u8>, t: bool, y: Seq<u8>)
    requires
        encoded_flag(s) + x == encoded_flag(t) + y,
    ensures
        s == t,
        x == y,
{
    same_split(encoded_flag(s), x, encoded_flag(t), y);
    assert(encoded_flag(s)[0] == encoded_flag(t)[0]);
}

proof fn edition_nonce_parts(s: Option<u8>, x: Seq<u8>, t: Option<u8>, y: Seq<u8>)
    requires
        encoded_edition_nonce(s) + x == encoded_edition_nonce(t) + y,
    ensures
        s == t,
        x == y,
{
    let a = encoded_edition_nonce(s);
    let b = encoded_edition_nonce(t);
    assert((a + x)[0] == a[0] && (b + y)[0] == b[0]);
    same_split(a, x, b, y);
    if s is Some {
        assert(a[1] == b[1]);
    }
}

proof fn token_standard_parts(
    s: Option<TokenStandard>,
    x: Seq<u8>,
    t: Option<TokenStandard>,
    y: Seq<u8>,
)
    requires
        encoded_token_standard(s) + x == encoded_token_standard(t) + y,
    ensures
        s == t,
        x == y,
{
    let a = encoded_token_standard(s);
    let b = encoded_token_standard(t);
    assert((a + x)[0] == a[0] && (b + y)[0] == b[0]);
    same_split(a, x, b, y);
    if s is Some {
        assert(a[1] == b[1]);
    }
}

proof fn collection_parts(s: Option<Collection>, x: Seq<u8>, t: Option<Collection>, y: Seq<u8>)
    requires
        encoded_collection(s) + x == encoded_collection(t) + y,
    ensures
        s == t,
        x == y,
{
    let a = encoded_collection(s);
    let b = encoded_collection(t);
    assert((a + x)[0] == a[0] && (b + y)[0] == b[0]);
    same_split(a, x, b, y);
    if s is Some {
        let c = s->Some_0;
        let d = t->Some_0;
        assert(a[1] == b[1]);
        assert forall|i: int| 0 <= i < 32 implies c.key@[i] == d.key@[i] by {
            assert(a[2 + i] == c.key@[i] && b[2 + i] == d.key@[i]);
        }
        assert(c.key =~= d.key);
    }
}

proof fn uses_parts(s: Option<Uses>, x: Seq<u8>, t: Option<Uses>, y: Seq<u8>)
    requires
        encoded_uses(s) + x == encoded_uses(t) + y,
    ensures
        s == t,
        x == y,
{
    lemma_auto_spec_u64_to_from_le_bytes();
    let a = encoded_uses(s);
    let b = encoded_uses(t);
    assert((a + x)[0] == a[0] && (b + y)[0] == b[0]);
    same_split(a, x, b, y);
    if s is Some {
        let u = s->Some_0;
        let v = t->Some_0;
        assert(a[1] == b[1]);
        assert(spec_u64_to_le_bytes(u.remaining) =~= a.subrange(2, 10));
        assert(spec_u64_to_le_bytes(v.remaining) =~= b.subrange(2, 10));
        assert(spec_u64_to_le_bytes(u.total) =~= a.subrange(10, 18));
        assert(spec_u64_to_le_bytes(v.total) =~= b.subrange(10, 18));
    }
}

proof fn version_parts(s: TokenProgramVersion, x: Seq<u8>, t: TokenProgramVersion, y: Seq<u8>)
    requires
        seq![token_program_version_tag(s)] + x == seq![token_program_version_tag(t)] + y,
    ensures
        s == t,
        x == y,
{
    let a = seq![token_program_version_tag(s)];
    let b = seq![token_program_version_tag(t)];
    same_split(a, x, b, y);
    assert(a[0] == b[0]);
}

proof fn creators_parts(s: Seq<Creator>, t: Seq<Creator>)
    requires
        encoded_creators(s) == encoded_creators(t),
        s.len() <= u32::MAX,
        t.len() <= u32::MAX,
    ensures
        s == t,
{
    lemma_auto_spec_u32_to_from_le_bytes();
    same_split(
        spec_u32_to_le_bytes(s.len() as u32),
        creators_bytes(s),
        spec_u32_to_le_bytes(t.len() as u32),
        creators_bytes(t),
    );
    creators_bytes_injective(s, t);
}

/// What follows the first `from` fields in the canonical bytes.
spec fn encoded_rest(m: MetadataView, from: int) -> Seq<u8>
    decreases 12 - from,
{
    if from >= 11 || from < 0 {
        encoded_creators(m.creators)
    } else {
        (if from == 0 {
            encoded_string(m.name)
        } else if from == 1 {
            encoded_string(m.symbol)
        } else if from == 2 {
            encoded_string(m.uri)
        } else if from == 3 {
            spec_u16_to_le_bytes(m.seller_fee_basis_points)
        } else if from == 4 {
            encoded_flag(m.primary_sale_happened)
        } else if from == 5 {
            encoded_flag(m.is_mutable)
        } else if from == 6 {
            encoded_edition_nonce(m.edition_nonce)
        } else if from == 7 {
            encoded_token_standard(m.token_standard)
        } else if from == 8 {
            encoded_collection(m.collection)
        } else if from == 9 {
            encoded_uses(m.uses)
        } else {
            seq![token_program_version_tag(m.token_program_version)]
        }) + encoded_rest(m, from + 1)
    }
}

proof fn regroup(a: Seq<u8>, b: Seq<u8>, c: Seq<u8>)
    ensures
        a + (b + c) == (a + b) + c,
{
    assert(a + (b + c) =~= (a + b) + c);
}

proof fn encoded_field_by_field(m: MetadataView)
    ensures
        encoded_metadata(m) == encoded_rest(m, 0),
{
    let symbol = encoded_string(m.symbol);
    let uri = encoded_string(m.uri);
    let royalty = spec_u16_to_le_bytes(m.seller_fee_basis_points);
    let sale = encoded_flag(m.primary_sale_happened);
    let mutable = encoded_flag(m.is_mutable);
    let nonce = encoded_edition_nonce(m.edition_nonce);
    let standard = encoded_token_standard(m.token_standard);
    let collection = encoded_collection(m.collection);
    let uses = encoded_uses(m.uses);
    let version = seq![token_program_version_tag(m.token_program_version)];
    let l0 = encoded_string(m.name);
    let l1 = l0 + symbol;
    let l2 = l1 + uri;
    let l3 = l2 + royalty;
    let l4 = l3 + sale;
    let l5 = l4 + mutable;
    let l6 = l5 + nonce;
    let l7 = l6 + standard;
    let l8 = l7 + collection;
    let l9 = l8 + uses;
    let l10 = l9 + version;
    assert(encoded_rest(m, 11) == encoded_creators(m.creators));
    assert(encoded_rest(m, 10) == version + encoded_rest(m, 11));
    assert(encoded_rest(m, 9) == uses + encoded_rest(m, 10));
    assert(encoded_rest(m, 8) == collection + encoded_rest(m, 9));
    assert(encoded_rest(m, 7) == standard + encoded_rest(m, 8));
    assert(encoded_rest(m, 6) == nonce + encoded_rest(m, 7));
    assert(encoded_rest(m, 5) == mutable + encoded_rest(m, 6));
    assert(encoded_rest(m, 4) == sale + encoded_rest(m, 5));
    assert(encoded_rest(m, 3) == royalty + encoded_rest(m, 4));
    assert(encoded_rest(m, 2) == uri + encoded_rest(m, 3));
    assert(encoded_rest(m, 1) == symbol + encoded_rest(m, 2));
    assert(encoded_rest(m, 0) == l0 + encoded_rest(m, 1));
    regroup(l0, symbol, encoded_rest(m, 2));
    regroup(l1, uri, encoded_rest(m, 3));
    regroup(l2, royalty, encoded_rest(m, 4));
    regroup(l3, sale, encoded_rest(m, 5));
    regroup(l4, mutable, encoded_rest(m, 6));
    regroup(l5, nonce, encoded_rest(m, 7));
    regroup(l6, standard, encoded_rest(m, 8));
    regroup(l7, collection, encoded_rest(m, 9));
    regroup(l8, uses, encoded_rest(m, 10));
    regroup(l9, version, encoded_rest(m, 11));
    assert(encoded_rest(m, 0) == l10 + encoded_creators(m.creators));
}

/// Valid metadata can be read off their canonical bytes: metadata that differ
/// in a field have other bytes.
pub proof fn encoded_metadata_injective(a: MetadataView, b: MetadataView)
    requires
        valid_metadata(a),
        valid_metadata(b),
        encoded_metadata(a) == encoded_metadata(b),
    ensures
        a == b,
{
    encoded_field_by_field(a);
    encoded_field_by_field(b);
    reveal_with_fuel(encoded_rest, 12);
    string_parts(a.name, encoded_rest(a, 1), b.name, encoded_rest(b, 1));
    string_parts(a.symbol, encoded_rest(a, 2), b.symbol, encoded_rest(b, 2));
    string_parts(a.uri, encoded_rest(a, 3), b.uri, encoded_rest(b, 3));
    royalty_parts(
        a.seller_fee_basis_points,
        encoded_rest(a, 4),
        b.seller_fee_basis_points,
        encoded_rest(b, 4),
    );
    flag_parts(
        a.primary_sale_happened,
        encoded_rest(a, 5),
        b.primary_sale_happened,
        encoded_rest(b, 5),
    );
    flag_parts(a.is_mutable, encoded_rest(a, 6), b.is_mutable, encoded_rest(b, 6));
    edition_nonce_parts(a.edition_nonce, encoded_rest(a, 7), b.edition_nonce, encoded_rest(b, 7));
    token_standard_parts(
        a.token_standard,
        encoded_rest(a, 8),
        b.token_standard,
        encoded_rest(b, 8),
    );
    collection_parts(a.collection, encoded_rest(a, 9), b.collection, encoded_rest(b, 9));
    uses_parts(a.uses, encoded_rest(a, 10), b.uses, encoded_rest(b, 10));
    version_parts(
        a.token_program_version,
        encoded_rest(a, 11),
        b.token_program_version,
        encoded_rest(b, 11),
    );
    creators_parts(a.creators, b.creators);
}

/// Valid metadata that differ in a field have different data hashes, unless
/// Keccak-256 has one digest for their canonical bytes, or for what is
/// hashed into their data hashes.
pub proof fn changed_metadata_changes_hash(a: MetadataView, b: MetadataView)
    requires
        valid_metadata(a),
        valid_metadata(b),
        a != b,
    ensures
        data_hash_of(a) != data_hash_of(b) || collide(encoded_metadata(a), encoded_metadata(b))
            || collide(data_hash_preimage(a), data_hash_preimage(b)),
{
    if encoded_metadata(a) == encoded_metadata(b) {
        encoded_metadata_injective(a, b);
    }
    if data_hash_preimage(a) == data_hash_preimage(b) {
        same_split(
            keccak256_of(encoded_metadata(a))@,
            spec_u16_to_le_bytes(a.seller_fee_basis_points),
            keccak256_of(encoded_metadata(b))@,
            spec_u16_to_le_bytes(b.seller_fee_basis_points),
        );
        assert(keccak256_of(encoded_metadata(a)) =~= keccak256_of(encoded_metadata(b)));
    }
}

/// Creators that differ, or stand in another order, have different creator
/// hashes, unless Keccak-256 has one digest for their bytes.
pub proof fn changed_creators_change_hash(a: Seq<Creator>, b: Seq<Creator>)
    requires
        a != b,
    ensures
        creator_hash_of(a) != creator_hash_of(b) || collide(creators_bytes(a), creators_bytes(b)),
{
    if creators_bytes(a) == creators_bytes(b) {
        creators_bytes_injective(a, b);
    }
}

} // verus!
