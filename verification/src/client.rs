//! The SPV client kept in a cell of the host chain: how it is bootstrapped
//! from one header and how a batch of new headers advances it.

use vstd::prelude::*;
use crate::constants::{DIFFCHANGE_INTERVAL, FLAG_DISABLE_DIFFICULTY_CHECK};
use crate::error::{BootstrapError, UpdateError};
use crate::header::{
    encoded_bits, encoded_block_hash, encoded_pow_is_valid, encoded_prev_blockhash, encoded_time,
    Header, HEADER_SIZE,
};
use crate::mmr::{
    digest_views, leaf_view, mmr_extension, mmr_size_of, range_size, verify_extension, DigestView,
    HeaderDigest,
};
use crate::pow::{
    calculate_next_target, compact_target_value, next_target, target_compact, BitcoinChainType,
    CompactTarget, Target,
};
use crate::wire::{read_u32_le, u32_le_bytes, u32_le_round_trip, u32_of_le, u32_to_le};

verus! {

/// Length of a packed target adjust info.
pub const TARGET_ADJUST_INFO_SIZE: usize = 8;

/// Bytes that do not have the layout asked for.
#[derive(Clone, Copy, Debug, PartialEq, Eq, Structural)]
pub struct DecodeError;

/// The packed target adjust info that holds `start_time` and `next_bits`:
/// four little-endian bytes each.
pub open spec fn adjust_info_bytes(start_time: u32, next_bits: u32) -> Seq<u8> {
    u32_le_bytes(start_time) + u32_le_bytes(next_bits)
}

/// The start time and the compact target that packed bytes hold; `None`
/// unless there are eight bytes.
pub open spec fn adjust_info_fields(data: Seq<u8>) -> Option<(u32, u32)> {
    if data.len() == TARGET_ADJUST_INFO_SIZE {
        Some((u32_of_le(data.subrange(0, 4)), u32_of_le(data.subrange(4, 8))))
    } else {
        None
    }
}

/// Unpacking what was packed gives the two numbers back.
pub proof fn adjust_info_round_trip(start_time: u32, next_bits: u32)
    ensures
        adjust_info_fields(adjust_info_bytes(start_time, next_bits)) == Some(
            (start_time, next_bits),
        ),
{
    let data = adjust_info_bytes(start_time, next_bits);
    assert(data.subrange(0, 4) =~= u32_le_bytes(start_time));
    assert(data.subrange(4, 8) =~= u32_le_bytes(next_bits));
    u32_le_round_trip(start_time);
    u32_le_round_trip(next_bits);
}

/// A borrowed packed target adjust info, of any length.
#[derive(Clone, Copy, Debug)]
pub struct TargetAdjustInfoReader<'r> {
    pub data: &'r [u8],
}

impl<'r> TargetAdjustInfoReader<'r> {
    /// Decodes the start time of the current difficulty period and the
    /// compact target that its headers must carry.
    pub fn decode(&self) -> (r: Result<(u32, CompactTarget), DecodeError>)
        ensures
            match r {
                Ok((start_time, next_bits)) => adjust_info_fields(self.data@) == Some(
                    (start_time, next_bits.bits),
                ),
                Err(_) => adjust_info_fields(self.data@).is_none(),
            },
    {
        if self.data.len() != TARGET_ADJUST_INFO_SIZE {
            return Err(DecodeError);
        }
        let start_time = read_u32_le(self.data, 0);
        let next_bits = CompactTarget::from_consensus(read_u32_le(self.data, 4));
        Ok((start_time, next_bits))
    }
}

/// The packed target adjust info of a client: the time of the first block of
/// the current difficulty period, and the compact target of the period.
#[derive(Clone, Copy, Debug)]
pub struct TargetAdjustInfo {
    pub bytes: [u8; 8],
}

impl View for TargetAdjustInfo {
    type V = Seq<u8>;

    open spec fn view(&self) -> Seq<u8> {
        self.bytes@
    }
}

impl PartialEq for TargetAdjustInfo {
    fn eq(&self, other: &TargetAdjustInfo) -> (r: bool) {
        let mut i: usize = 0;
        while i < 8
            invariant
                i <= 8,
                forall|j: int| 0 <= j < i ==> self.bytes@[j] == other.bytes@[j],
            decreases 8 - i,
        {
            if self.bytes[i] != other.bytes[i] {
                return false;
            }
            i += 1;
        }
        assert(self.bytes@ =~= other.bytes@);
        true
    }
}

impl vstd::std_specs::cmp::PartialEqSpecImpl for TargetAdjustInfo {
    open spec fn obeys_eq_spec() -> bool {
        true
    }

    open spec fn eq_spec(&self, other: &TargetAdjustInfo) -> bool {
        self@ == other@
    }
}

impl TargetAdjustInfo {
    /// The packed bytes, borrowed.
    pub fn as_reader(&self) -> (r: TargetAdjustInfoReader<'_>)
        ensures
            r.data@ == self@,
    {
        TargetAdjustInfoReader { data: self.bytes.as_slice() }
    }

    /// Decodes the start time of the current difficulty period and the
    /// compact target that its headers must carry. With its eight bytes in
    /// place the info always decodes.
    pub fn decode(&self) -> (r: Result<(u32, CompactTarget), DecodeError>)
        ensures
            r matches Ok((start_time, next_bits)) && adjust_info_fields(self@) == Some(
                (start_time, next_bits.bits),
            ),
    {
        self.as_reader().decode()
    }

    /// The start time of the current difficulty period and the compact
    /// target that its headers must carry.
    pub fn fields(&self) -> (r: (u32, CompactTarget))
        ensures
            adjust_info_fields(self@) == Some((r.0, r.1.bits)),
    {
        let start_time = read_u32_le(self.bytes.as_slice(), 0);
        let next_bits = CompactTarget::from_consensus(read_u32_le(self.bytes.as_slice(), 4));
        (start_time, next_bits)
    }

    /// Packs a start time and a compact target.
    pub fn encode(start_time: u32, next_bits: CompactTarget) -> (r: TargetAdjustInfo)
        ensures
            r@ == adjust_info_bytes(start_time, next_bits.bits),
    {
        let t = u32_to_le(start_time);
        let b = u32_to_le(next_bits.bits);
        let bytes: [u8; 8] = [t[0], t[1], t[2], t[3], b[0], b[1], b[2], b[3]];
        assert(bytes@ =~= adjust_info_bytes(start_time, next_bits.bits));
        TargetAdjustInfo { bytes }
    }
}

/// The SPV client cell.
#[derive(Clone, Copy, Debug)]
pub struct SpvClient {
    /// The place of the cell in the ring of client cells.
    pub id: u8,
    /// The hash of the latest block that the client knows.
    pub tip_block_hash: crate::hash::Hash,
    /// The root of the range over the headers between the client's first
    /// height and its latest.
    pub headers_mmr_root: HeaderDigest,
    /// The target adjusts every 2016th block; the client holds the latest.
    pub target_adjust_info: TargetAdjustInfo,
}

/// What a client holds, as mathematical values.
pub struct ClientView {
    pub id: u8,
    pub tip_block_hash: Seq<u8>,
    pub headers_mmr_root: DigestView,
    pub target_adjust_info: Seq<u8>,
}

impl View for SpvClient {
    type V = ClientView;

    open spec fn view(&self) -> ClientView {
        ClientView {
            id: self.id,
            tip_block_hash: self.tip_block_hash@,
            headers_mmr_root: self.headers_mmr_root@,
            target_adjust_info: self.target_adjust_info@,
        }
    }
}

/// The SPV info cell: it names the client cell that holds the latest state.
#[derive(Clone, Copy, Debug, PartialEq, Eq, Structural)]
pub struct SpvInfo {
    pub tip_client_id: u8,
}

/// The data from which a client is bootstrapped: a height and the encoded
/// header of the block at that height.
#[derive(Clone, Debug)]
pub struct SpvBootstrap {
    pub height: u32,
    pub header: Vec<u8>,
}

/// The data that advances a client: the encoded headers that follow its tip,
/// and the proof that the new range extends the old one by just those.
#[derive(Clone, Debug)]
pub struct SpvUpdate {
    pub headers: Vec<Vec<u8>>,
    pub new_headers_mmr_proof: Vec<HeaderDigest>,
}

/// The byte strings that a list of buffers holds.
pub open spec fn byte_strings(buffers: Seq<Vec<u8>>) -> Seq<Seq<u8>> {
    buffers.map_values(|buffer: Vec<u8>| buffer@)
}

/// The client that stands for the single encoded header at `height`: it has
/// the id 0, the header's block as its tip, the header's leaf as its root, and
/// the header's time and compact target as its target adjust info.
pub open spec fn bootstrap_client(height: u32, header: Seq<u8>) -> ClientView {
    ClientView {
        id: 0,
        tip_block_hash: encoded_block_hash(header),
        headers_mmr_root: leaf_view(height, header),
        target_adjust_info: adjust_info_bytes(encoded_time(header), encoded_bits(header)),
    }
}

/// The client that bootstrapping from the encoded header at `height` gives,
/// or the reason why there is none: the height is no multiple of 2016, the
/// header is not 80 bytes long, or its proof of work is not met.
pub open spec fn bootstrap_spec(height: u32, header: Seq<u8>) -> Result<ClientView, BootstrapError> {
    if height % DIFFCHANGE_INTERVAL != 0 {
        Err(BootstrapError::Height)
    } else if header.len() != HEADER_SIZE {
        Err(BootstrapError::DecodeHeader)
    } else if !encoded_pow_is_valid(header) {
        Err(BootstrapError::Pow)
    } else {
        Ok(bootstrap_client(height, header))
    }
}

impl SpvBootstrap {
    /// Initializes a new SPV client.
    ///
    /// The height of the header must be a multiple of 2016, so that the
    /// header opens a difficulty period. The header is trusted beyond its own
    /// proof of work: the caller picks a truthful checkpoint. The new client
    /// has the id 0.
    pub fn initialize_spv_client(&self) -> (r: Result<SpvClient, BootstrapError>)
        ensures
            match r {
                Ok(client) => bootstrap_spec(self.height, self.header@) == Ok::<
                    ClientView,
                    BootstrapError,
                >(client@),
                Err(e) => bootstrap_spec(self.height, self.header@) == Err::<
                    ClientView,
                    BootstrapError,
                >(e),
            },
    {
        let height = self.height;
        if height % DIFFCHANGE_INTERVAL != 0 {
            return Err(BootstrapError::Height);
        }
        let header = match Header::decode(self.header.as_slice()) {
            Some(header) => header,
            None => {
                return Err(BootstrapError::DecodeHeader);
            },
        };
        proof {
            header.encoding_carries_fields();
        }
        let block_hash = match header.validate_pow() {
            Some(block_hash) => block_hash,
            None => {
                return Err(BootstrapError::Pow);
            },
        };
        let target_adjust_info = TargetAdjustInfo::encode(header.time, header.bits);
        let digest = HeaderDigest::new_leaf(height, &header);
        let client = SpvClient {
            id: 0,
            tip_block_hash: block_hash,
            headers_mmr_root: digest,
            target_adjust_info,
        };
        Ok(client)
    }
}

/// Where a walk along new headers stands: the tip reached, its height, and
/// the target adjust info in force for the header that comes next.
pub struct WalkState {
    pub tip: Seq<u8>,
    pub height: int,
    pub start_time: u32,
    pub next_bits: u32,
}

/// Whether a header may carry another compact target than the one in force:
/// on testnet, and where the flag byte switches the check off.
pub open spec fn difficulty_is_unchecked(flags: u8) -> bool {
    BitcoinChainType::of_flags(flags) == BitcoinChainType::Testnet || flags
        & FLAG_DISABLE_DIFFICULTY_CHECK != 0
}

/// The state after the encoded header `header`, taken to follow `state`: the
/// header's block is the tip, one higher. Where the block after it opens a
/// difficulty period, the compact target in force becomes the one that the
/// adjustment gives; where the header itself opens one, its time becomes the
/// start time.
#[verifier::opaque]
pub open spec fn follow_step(state: WalkState, header: Seq<u8>, flags: u8) -> WalkState {
    let height = state.height + 1;
    WalkState {
        tip: encoded_block_hash(header),
        height,
        start_time: if (height + 1) % (DIFFCHANGE_INTERVAL as int) == 1 {
            encoded_time(header)
        } else {
            state.start_time
        },
        next_bits: if (height + 1) % (DIFFCHANGE_INTERVAL as int) == 0 {
            target_compact(
                next_target(
                    compact_target_value(encoded_bits(header)),
                    state.start_time,
                    encoded_time(header),
                    flags,
                ),
            )
        } else {
            state.next_bits
        },
    }
}

/// The state after all of `headers`, each taken to follow the one before.
pub open spec fn follow(state: WalkState, headers: Seq<Seq<u8>>, flags: u8) -> WalkState
    decreases headers.len(),
{
    if headers.len() == 0 {
        state
    } else {
        follow_step(follow(state, headers.drop_last(), flags), headers.last(), flags)
    }
}

/// One step of the walk: the state after the encoded header `header`, or the
/// reason why the header cannot follow.
#[verifier::opaque]
pub open spec fn walk_step(state: WalkState, header: Seq<u8>, flags: u8) -> Result<
    WalkState,
    UpdateError,
> {
    if header.len() != HEADER_SIZE {
        Err(UpdateError::DecodeHeader)
    } else if encoded_prev_blockhash(header) != state.tip {
        Err(UpdateError::UncontinuousHeaders)
    } else if encoded_bits(header) != state.next_bits && !difficulty_is_unchecked(flags) {
        Err(UpdateError::Difficulty)
    } else if !encoded_pow_is_valid(header) {
        Err(UpdateError::Pow)
    } else {
        Ok(follow_step(state, header, flags))
    }
}

/// The walk along `headers` in order, from `state`: the state after the last
/// header, or the reason why the first header that cannot follow is refused.
pub open spec fn walk(state: WalkState, headers: Seq<Seq<u8>>, flags: u8) -> Result<
    WalkState,
    UpdateError,
>
    decreases headers.len(),
{
    if headers.len() == 0 {
        Ok(state)
    } else {
        match walk(state, headers.drop_last(), flags) {
            Ok(reached) => walk_step(reached, headers.last(), flags),
            Err(e) => Err(e),
        }
    }
}

/// The leaves for `headers`, the first of them at `first_height`.
pub open spec fn appended_leaves(first_height: int, headers: Seq<Seq<u8>>) -> Seq<DigestView> {
    Seq::new(headers.len(), |i: int| leaf_view((first_height + i) as u32, headers[i]))
}

/// The verdict on a new client once the walk has ended in `end` and the
/// extension proof has been checked with the outcome `extension`.
pub open spec fn check_new_client_spec(
    old_client: ClientView,
    new_client: ClientView,
    end: WalkState,
    extension: Option<bool>,
) -> Result<(), UpdateError> {
    if extension.is_none() {
        Err(UpdateError::Mmr)
    } else if extension != Some(true) {
        Err(UpdateError::HeadersMmrProof)
    } else if new_client.id != old_client.id {
        Err(UpdateError::ClientId)
    } else if new_client.tip_block_hash != end.tip {
        Err(UpdateError::ClientTipBlockHash)
    } else if new_client.headers_mmr_root.min_height != old_client.headers_mmr_root.min_height {
        Err(UpdateError::ClientMinimalHeight)
    } else if new_client.headers_mmr_root.max_height != end.height {
        Err(UpdateError::ClientMaximalHeight)
    } else if new_client.target_adjust_info != adjust_info_bytes(end.start_time, end.next_bits) {
        Err(UpdateError::ClientTargetAdjustInfo)
    } else {
        Ok(())
    }
}

/// The state in which the walk from a client starts.
pub open spec fn walk_start(old_client: ClientView, start_time: u32, next_bits: u32) -> WalkState {
    WalkState {
        tip: old_client.tip_block_hash,
        height: old_client.headers_mmr_root.max_height as int,
        start_time,
        next_bits,
    }
}

/// The verdict on a new client and the update that is to lead to it.
///
/// The headers are walked in order from the old tip. Each must decode, name
/// the block before it, carry the compact target in force (unless the chain
/// relaxes that), and meet its own proof of work. Then the proof must show
/// that the new root extends the old one by just the leaves of those headers.
/// Last the fields of the new client are compared with what the walk found.
pub open spec fn verify_new_client_spec(
    old_client: ClientView,
    new_client: ClientView,
    headers: Seq<Seq<u8>>,
    proof: Seq<DigestView>,
    flags: u8,
) -> Result<(), UpdateError> {
    if headers.len() == 0 {
        Err(UpdateError::EmptyHeaders)
    } else {
        match adjust_info_fields(old_client.target_adjust_info) {
            None => Err(UpdateError::DecodeTargetAdjustInfo),
            Some((start_time, next_bits)) => match walk(
                walk_start(old_client, start_time, next_bits),
                headers,
                flags,
            ) {
                Err(e) => Err(e),
                Ok(end) => check_new_client_spec(
                    old_client,
                    new_client,
                    end,
                    mmr_extension(
                        mmr_size_of((end.height - old_client.headers_mmr_root.min_height) as u64)
                            as u64,
                        proof,
                        new_client.headers_mmr_root,
                        old_client.headers_mmr_root,
                        appended_leaves(old_client.headers_mmr_root.max_height + 1, headers),
                    ),
                ),
            },
        }
    }
}

/// A walk that succeeds ends where following the headers ends.
pub proof fn walk_ends_where_follow_ends(state: WalkState, headers: Seq<Seq<u8>>, flags: u8)
    ensures
        walk(state, headers, flags) matches Ok(end) ==> end == follow(state, headers, flags),
    decreases headers.len(),
{
    reveal(walk_step);
    if headers.len() > 0 {
        walk_ends_where_follow_ends(state, headers.drop_last(), flags);
    }
}

/// A walk that succeeds advances the height by the number of headers.
pub proof fn walk_advances_height(state: WalkState, headers: Seq<Seq<u8>>, flags: u8)
    ensures
        walk(state, headers, flags) matches Ok(end) ==> end.height == state.height + headers.len(),
    decreases headers.len(),
{
    reveal(walk_step);
    reveal(follow_step);
    if headers.len() > 0 {
        walk_advances_height(state, headers.drop_last(), flags);
    }
}

/// The place in its difficulty period of the block after `height`: zero where
/// that block opens a period.
pub fn period_phase(height: u32) -> (r: u32)
    ensures
        r == (height + 1) % (DIFFCHANGE_INTERVAL as int),
{
    (height % DIFFCHANGE_INTERVAL + 1) % DIFFCHANGE_INTERVAL
}

/// The cursor of a walk along new headers: the tip reached, its height, and
/// the target adjust info in force for the header that comes next.
#[derive(Clone, Copy, Debug)]
pub struct Cursor {
    pub tip_block_hash: crate::hash::Hash,
    pub max_height: u32,
    pub start_time: u32,
    pub next_bits: CompactTarget,
}

impl View for Cursor {
    type V = WalkState;

    open spec fn view(&self) -> WalkState {
        WalkState {
            tip: self.tip_block_hash@,
            height: self.max_height as int,
            start_time: self.start_time,
            next_bits: self.next_bits.bits,
        }
    }
}

impl Cursor {
    /// The cursor after `header`, whose block hash is `block_hash`, taken to
    /// follow the tip.
    pub fn follow(&self, header: &Header, block_hash: crate::hash::Hash, flags: u8) -> (r: Cursor)
        requires
            self.max_height < u32::MAX,
            block_hash@ == encoded_block_hash(header.encode_spec()),
        ensures
            r@ == follow_step(self@, header.encode_spec(), flags),
            r.max_height == self.max_height + 1,
    {
        proof {
            reveal(follow_step);
            header.encoding_carries_fields();
        }
        let max_height = self.max_height + 1;
        let mut start_time = self.start_time;
        let mut next_bits = self.next_bits;
        let phase = period_phase(max_height);
        if phase == 0 {
            // The next block is the first of a new difficulty period.
            let prev_target = Target::from_compact(header.bits);
            let next = calculate_next_target(prev_target, start_time, header.time, flags);
            next_bits = next.to_compact_lossy();
        } else if phase == 1 {
            // This block is the first of a new difficulty period.
            start_time = header.time;
        }
        Cursor { tip_block_hash: block_hash, max_height, start_time, next_bits }
    }

    /// Takes one step along the encoded header `header_bytes`: checks that it
    /// decodes, names the tip as its previous block, carries the compact
    /// target in force (unless the chain relaxes that) and meets its proof of
    /// work. Gives the cursor after the header and the leaf that stands for
    /// it.
    pub fn advance(&self, header_bytes: &[u8], flags: u8) -> (r: Result<
        (Cursor, HeaderDigest),
        UpdateError,
    >)
        requires
            self.max_height < u32::MAX,
        ensures
            match r {
                Ok((next, leaf)) => walk_step(self@, header_bytes@, flags) == Ok::<
                    WalkState,
                    UpdateError,
                >(next@) && next.max_height == self.max_height + 1 && leaf@ == leaf_view(
                    next.max_height,
                    header_bytes@,
                ),
                Err(e) => walk_step(self@, header_bytes@, flags) == Err::<WalkState, UpdateError>(
                    e,
                ),
            },
    {
        reveal(walk_step);
        let max_height = self.max_height + 1;
        let header = match Header::decode(header_bytes) {
            Some(header) => header,
            None => {
                return Err(UpdateError::DecodeHeader);
            },
        };
        proof {
            header.encoding_carries_fields();
        }
        if self.tip_block_hash != header.prev_blockhash {
            return Err(UpdateError::UncontinuousHeaders);
        }
        // For mainnet and signet the header carries the compact target in
        // force; for testnet it need not.
        if self.next_bits.bits != header.bits.bits && !difficulty_unchecked(flags) {
            return Err(UpdateError::Difficulty);
        }
        let tip_block_hash = match header.validate_pow() {
            Some(block_hash) => block_hash,
            None => {
                return Err(UpdateError::Pow);
            },
        };
        let next = self.follow(&header, tip_block_hash, flags);
        let leaf = HeaderDigest::new_leaf(max_height, &header);
        Ok((next, leaf))
    }
}

impl SpvClient {
    /// Whether the client covers at least one height: its first height is
    /// not above its latest.
    pub open spec fn well_formed(&self) -> bool {
        self.headers_mmr_root.min_height <= self.headers_mmr_root.max_height
    }

    /// Whether the client covers at least one height.
    pub fn is_well_formed(&self) -> (r: bool)
        ensures
            r == self.well_formed(),
    {
        self.headers_mmr_root.min_height <= self.headers_mmr_root.max_height
    }

    /// Checks the fields of a new client against the end of the walk along
    /// the new headers and the outcome of the extension proof: `None` where
    /// the proof could not be evaluated, else whether it holds.
    pub fn check_new_client(
        &self,
        new_client: &SpvClient,
        tip_block_hash: &crate::hash::Hash,
        max_height: u32,
        start_time: u32,
        next_bits: CompactTarget,
        extension: Option<bool>,
    ) -> (r: Result<(), UpdateError>)
        ensures
            r == check_new_client_spec(
                self@,
                new_client@,
                WalkState {
                    tip: tip_block_hash@,
                    height: max_height as int,
                    start_time,
                    next_bits: next_bits.bits,
                },
                extension,
            ),
    {
        match extension {
            None => {
                return Err(UpdateError::Mmr);
            },
            Some(accepted) => {
                if !accepted {
                    return Err(UpdateError::HeadersMmrProof);
                }
            },
        }
        if new_client.id != self.id {
            return Err(UpdateError::ClientId);
        }
        if new_client.tip_block_hash != *tip_block_hash {
            return Err(UpdateError::ClientTipBlockHash);
        }
        if new_client.headers_mmr_root.min_height != self.headers_mmr_root.min_height {
            return Err(UpdateError::ClientMinimalHeight);
        }
        if new_client.headers_mmr_root.max_height != max_height {
            return Err(UpdateError::ClientMaximalHeight);
        }
        let new_target_adjust_info = TargetAdjustInfo::encode(start_time, next_bits);
        if new_client.target_adjust_info != new_target_adjust_info {
            return Err(UpdateError::ClientTargetAdjustInfo);
        }
        Ok(())
    }

    /// Verifies a new client.
    ///
    /// Checks the headers of the update (previous block hashes, compact
    /// targets, proofs of work), then that the new root extends the old one
    /// by just those headers, then the fields of the new client: the same id,
    /// the new tip, the same first height, the new latest height, and the
    /// target adjust info in force after the last header.
    pub fn verify_new_client(
        &self,
        new_client: &SpvClient,
        update: SpvUpdate,
        flags: u8,
    ) -> (r: Result<(), UpdateError>)
        requires
            self.well_formed(),
            self.headers_mmr_root.max_height + update.headers@.len() <= u32::MAX,
        ensures
            r == verify_new_client_spec(
                self@,
                new_client@,
                byte_strings(update.headers@),
                digest_views(update.new_headers_mmr_proof@),
                flags,
            ),
    {
        let ghost headers = byte_strings(update.headers@);
        let count = update.headers.len();
        if count == 0 {
            return Err(UpdateError::EmptyHeaders);
        }
        let (start_time, next_bits) = match self.target_adjust_info.decode() {
            Ok(info) => info,
            Err(_) => {
                return Err(UpdateError::DecodeTargetAdjustInfo);
            },
        };
        let mut cursor = Cursor {
            tip_block_hash: self.tip_block_hash,
            max_height: self.headers_mmr_root.max_height,
            start_time,
            next_bits,
        };
        let ghost start = cursor@;
        assert(start == walk_start(self@, start_time, next_bits.bits));
        let mut digests: Vec<HeaderDigest> = Vec::with_capacity(count);
        assert(headers.take(0) =~= Seq::<Seq<u8>>::empty());
        assert(digest_views(digests@) =~= appended_leaves(
            self.headers_mmr_root.max_height + 1,
            headers.take(0),
        ));
        let mut i: usize = 0;
        while i < count
            invariant
                i <= count,
                count == update.headers@.len(),
                count > 0,
                headers == byte_strings(update.headers@),
                adjust_info_fields(self@.target_adjust_info) == Some(
                    (start_time, next_bits.bits),
                ),
                start == walk_start(self@, start_time, next_bits.bits),
                self.headers_mmr_root.max_height + count <= u32::MAX,
                cursor.max_height == self.headers_mmr_root.max_height + i,
                walk(start, headers.take(i as int), flags) == Ok::<WalkState, UpdateError>(cursor@),
                digest_views(digests@) == appended_leaves(
                    self.headers_mmr_root.max_height + 1,
                    headers.take(i as int),
                ),
            decreases count - i,
        {
            proof {
                assert(headers.take(i + 1).drop_last() =~= headers.take(i as int));
                assert(headers.take(i + 1).last() == update.headers@[i as int]@);
            }
            let ghost leaves_before = digests@;
            let (next, leaf) = match cursor.advance(update.headers[i].as_slice(), flags) {
                Err(e) => {
                    proof {
                        walk_error_persists(start, headers, flags, i + 1, count as int);
                        assert(headers.take(count as int) =~= headers);
                    }
                    return Err(e);
                },
                Ok(step) => step,
            };
            cursor = next;
            digests.push(leaf);
            proof {
                let first = self.headers_mmr_root.max_height + 1;
                let wanted = appended_leaves(first, headers.take(i + 1));
                let had = appended_leaves(first, headers.take(i as int));
                assert(digest_views(leaves_before).len() == leaves_before.len());
                assert(had.len() == i);
                assert(digests@ =~= leaves_before.push(leaf));
                assert(digest_views(digests@).len() == wanted.len());
                assert forall|k: int| 0 <= k < wanted.len() implies digest_views(digests@)[k]
                    == wanted[k] by {
                    if k < i {
                        assert(digest_views(leaves_before)[k] == had[k]);
                        assert(headers.take(i as int)[k] == headers.take(i + 1)[k]);
                    } else {
                        assert(digests@[k] == leaf);
                    }
                }
                assert(digest_views(digests@) =~= wanted);
            }
            i += 1;
        }
        assert(headers.take(count as int) =~= headers);

        // Check the extension of the range.
        let max_index = cursor.max_height - self.headers_mmr_root.min_height;
        let mmr_size = range_size(max_index);
        let extension = match verify_extension(
            mmr_size,
            update.new_headers_mmr_proof,
            new_client.headers_mmr_root,
            self.headers_mmr_root,
            digests,
        ) {
            Ok(accepted) => Some(accepted),
            Err(_) => None,
        };

        // Check the new client.
        self.check_new_client(
            new_client,
            &cursor.tip_block_hash,
            cursor.max_height,
            cursor.start_time,
            cursor.next_bits,
            extension,
        )
    }

    /// Compares two chains: whether this client has seen more work than the
    /// other.
    pub fn is_better_than(&self, other: &SpvClient) -> (r: bool)
        ensures
            r == (self@.headers_mmr_root.partial_chain_work
                > other@.headers_mmr_root.partial_chain_work),
    {
        self.headers_mmr_root.partial_chain_work.greater_than(
            &other.headers_mmr_root.partial_chain_work,
        )
    }
}

/// Whether a header may carry another compact target than the one in force.
pub fn difficulty_unchecked(flags: u8) -> (r: bool)
    ensures
        r == difficulty_is_unchecked(flags),
{
    let chain: BitcoinChainType = BitcoinChainType::from(flags);
    chain == BitcoinChainType::Testnet || flags & FLAG_DISABLE_DIFFICULTY_CHECK != 0
}

/// A walk refused at `n` headers is refused for the same reason at `k >= n`.
pub proof fn walk_error_persists(
    state: WalkState,
    headers: Seq<Seq<u8>>,
    flags: u8,
    n: int,
    k: int,
)
    requires
        0 <= n <= k <= headers.len(),
        walk(state, headers.take(n), flags) is Err,
    ensures
        walk(state, headers.take(k), flags) == walk(state, headers.take(n), flags),
    decreases k - n,
{
    if k > n {
        walk_error_persists(state, headers, flags, n, k - 1);
        assert(headers.take(k).drop_last() =~= headers.take(k - 1));
    }
}

/// Bootstrapping succeeds just for a height that is a multiple of 2016 with
/// an 80-byte header that meets its own proof of work; any other height is
/// refused for the height, whatever the header.
pub proof fn bootstrap_accepts_period_starts(height: u32, header: Seq<u8>)
    ensures
        bootstrap_spec(height, header) is Ok <==> height % DIFFCHANGE_INTERVAL == 0 && header.len()
            == HEADER_SIZE && encoded_pow_is_valid(header),
        height % DIFFCHANGE_INTERVAL != 0 ==> bootstrap_spec(height, header) == Err::<
            ClientView,
            BootstrapError,
        >(BootstrapError::Height),
        bootstrap_spec(height, header) matches Ok(client) ==> client == bootstrap_client(
            height,
            header,
        ),
{
}

/// The tip after following headers is the block of the last of them.
pub proof fn follow_ends_at_last_block(state: WalkState, headers: Seq<Seq<u8>>, flags: u8)
    ensures
        follow(state, headers, flags).tip == if headers.len() == 0 {
            state.tip
        } else {
            encoded_block_hash(headers.last())
        },
{
    reveal(follow_step);
}

/// In a walk that succeeds every header has 80 bytes, meets its own proof of
/// work, names the block before it (the first names the tip from which the
/// walk starts), and every prefix of the headers is walked with success too.
pub proof fn walked_headers_are_chained(state: WalkState, headers: Seq<Seq<u8>>, flags: u8)
    requires
        walk(state, headers, flags) is Ok,
    ensures
        forall|i: int|
            0 <= i < headers.len() ==> {
                &&& (#[trigger] headers[i]).len() == HEADER_SIZE
                &&& encoded_pow_is_valid(headers[i])
                &&& encoded_prev_blockhash(headers[i]) == if i == 0 {
                    state.tip
                } else {
                    encoded_block_hash(headers[i - 1])
                }
            },
    decreases headers.len(),
{
    reveal(walk_step);
    if headers.len() > 0 {
        let front = headers.drop_last();
        walked_headers_are_chained(state, front, flags);
        walk_ends_where_follow_ends(state, front, flags);
        follow_ends_at_last_block(state, front, flags);
        assert forall|i: int| 0 <= i < headers.len() implies {
            &&& (#[trigger] headers[i]).len() == HEADER_SIZE
            &&& encoded_pow_is_valid(headers[i])
            &&& encoded_prev_blockhash(headers[i]) == if i == 0 {
                state.tip
            } else {
                encoded_block_hash(headers[i - 1])
            }
        } by {
            if i < front.len() {
                assert(headers[i] == front[i]);
                if i > 0 {
                    assert(headers[i - 1] == front[i - 1]);
                }
            }
        }
    }
}

/// A new client that is accepted has the id and the first height of the old
/// one, a latest height that is higher by the number of headers, and the tip
/// and the target adjust info that following the headers from the old client
/// gives: the block of the last header, and the start time and compact
/// target in force after it. The headers of the update are chained from the
/// old tip and each meets its own proof of work.
pub proof fn accepted_update_follows_headers(
    old_client: ClientView,
    new_client: ClientView,
    headers: Seq<Seq<u8>>,
    proof: Seq<DigestView>,
    flags: u8,
)
    requires
        verify_new_client_spec(old_client, new_client, headers, proof, flags) is Ok,
    ensures
        headers.len() > 0,
        new_client.id == old_client.id,
        new_client.headers_mmr_root.min_height == old_client.headers_mmr_root.min_height,
        new_client.headers_mmr_root.max_height == old_client.headers_mmr_root.max_height
            + headers.len(),
        new_client.tip_block_hash == encoded_block_hash(headers.last()),
        adjust_info_fields(old_client.target_adjust_info) matches Some((start_time, next_bits))
            && new_client.target_adjust_info == adjust_info_bytes(
            follow(walk_start(old_client, start_time, next_bits), headers, flags).start_time,
            follow(walk_start(old_client, start_time, next_bits), headers, flags).next_bits,
        ),
        forall|i: int|
            0 <= i < headers.len() ==> {
                &&& (#[trigger] headers[i]).len() == HEADER_SIZE
                &&& encoded_pow_is_valid(headers[i])
                &&& encoded_prev_blockhash(headers[i]) == if i == 0 {
                    old_client.tip_block_hash
                } else {
                    encoded_block_hash(headers[i - 1])
                }
            },
{
    let (start_time, next_bits) = adjust_info_fields(old_client.target_adjust_info)->Some_0;
    let start = walk_start(old_client, start_time, next_bits);
    walk_advances_height(start, headers, flags);
    walk_ends_where_follow_ends(start, headers, flags);
    follow_ends_at_last_block(start, headers, flags);
    walked_headers_are_chained(start, headers, flags);
}

} // verus!
