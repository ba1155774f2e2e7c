//! A service that follows the header stream in memory: it keeps the range
//! over all headers since its first, and hands out updates and header proofs.

use std::collections::HashMap;
use vstd::prelude::*;
use crate::client::{
    adjust_info_bytes, adjust_info_fields, appended_leaves, bootstrap_client, bootstrap_spec,
    byte_strings, follow, walk_start, Cursor, SpvClient, SpvUpdate, TargetAdjustInfo,
};
use crate::constants::{DIFFCHANGE_INTERVAL, FLAG_CHAIN_TYPE_MAINNET};
use crate::header::Header;
use crate::mmr::{
    digest_views, leaf_position, leaf_position_of, leaf_view, mmr_size_of, range_size, DigestView,
    HeaderDigest, MergeHeaderDigest, MAX_MMR_SIZE,
};
use crate::prover::result::ProverError;

verus! {

broadcast use vstd::std_specs::hash::group_hash_axioms;

/// The in-memory store of the Merkle Mountain Range library.
#[verifier::external_type_specification]
#[verifier::external_body]
#[verifier::reject_recursive_types(T)]
pub struct ExMemStore<T>(ckb_merkle_mountain_range::util::MemStore<T>);

/// The nodes that a store holds, by position.
pub uninterp spec fn store_nodes(
    store: ckb_merkle_mountain_range::util::MemStore<HeaderDigest>,
) -> Map<u64, DigestView>;

/// What pushing `leaf` onto the range of `mmr_size` nodes over `nodes` gives:
/// the size of the new range and the nodes of the store after it, or `None`
/// where the library fails.
pub uninterp spec fn mmr_pushed(mmr_size: u64, nodes: Map<u64, DigestView>, leaf: DigestView)
    -> Option<(u64, Map<u64, DigestView>)>;

/// The root of the range of `mmr_size` nodes over `nodes`, or `None` where
/// the library fails.
pub uninterp spec fn mmr_root(mmr_size: u64, nodes: Map<u64, DigestView>) -> Option<DigestView>;

/// The proof for the leaves at `positions` in the range of `mmr_size` nodes
/// over `nodes`, or `None` where the library fails.
pub uninterp spec fn mmr_proof(mmr_size: u64, nodes: Map<u64, DigestView>, positions: Seq<u64>)
    -> Option<Seq<DigestView>>;

/// No nodes at all.
pub open spec fn no_nodes() -> Map<u64, DigestView> {
    Map::empty()
}

/// `MemStore::default`: a store without nodes.
#[verifier::external_body]
fn new_store() -> (r: ckb_merkle_mountain_range::util::MemStore<HeaderDigest>)
    ensures
        store_nodes(r) == no_nodes(),
{
    ckb_merkle_mountain_range::util::MemStore::default()
}

/// `MMR::push`, then `MMR::commit`, on a range made with `MMR::new` over the
/// store. A push that fails leaves the store as it was. On a range without
/// nodes the push merges nothing: it puts the leaf at position 0 and gives a
/// range of one node.
#[verifier::external_body]
fn store_push(
    store: &mut ckb_merkle_mountain_range::util::MemStore<HeaderDigest>,
    mmr_size: u64,
    leaf: HeaderDigest,
) -> (r: Result<u64, ckb_merkle_mountain_range::Error>)
    requires
        mmr_size <= MAX_MMR_SIZE,
    ensures
        match r {
            Ok(size) => mmr_pushed(mmr_size, store_nodes(*old(store)), leaf@) == Some(
                (size, store_nodes(*final(store))),
            ),
            Err(_) => mmr_pushed(mmr_size, store_nodes(*old(store)), leaf@).is_none()
                && store_nodes(*final(store)) == store_nodes(*old(store)),
        },
        mmr_size == 0 ==> r.is_ok() && store_nodes(*final(store)) == store_nodes(
            *old(store),
        ).insert(0, leaf@),
{
    let mut mmr = ckb_merkle_mountain_range::MMR::<HeaderDigest, MergeHeaderDigest, _>::new(
        mmr_size,
        &*store,
    );
    mmr.push(leaf)?;
    mmr.commit()?;
    Ok(mmr.mmr_size())
}

/// `MMR::get_root`, on a range made with `MMR::new` over the store. The root
/// of a range of one node is the node at position 0.
#[verifier::external_body]
fn store_root(
    store: &ckb_merkle_mountain_range::util::MemStore<HeaderDigest>,
    mmr_size: u64,
) -> (r: Result<HeaderDigest, ckb_merkle_mountain_range::Error>)
    requires
        mmr_size <= MAX_MMR_SIZE,
    ensures
        match r {
            Ok(root) => mmr_root(mmr_size, store_nodes(*store)) == Some(root@),
            Err(_) => mmr_root(mmr_size, store_nodes(*store)).is_none(),
        },
        mmr_size == 1 && store_nodes(*store).contains_key(0) ==> r.is_ok(),
        r matches Ok(root) ==> (mmr_size == 1 && store_nodes(*store).contains_key(0) ==> root@
            == store_nodes(*store)[0]),
{
    ckb_merkle_mountain_range::MMR::<HeaderDigest, MergeHeaderDigest, _>::new(
        mmr_size,
        store,
    ).get_root()
}

/// `MMR::gen_proof`, on a range made with `MMR::new` over the store, and
/// `MerkleProof::proof_items` of what it gives.
#[verifier::external_body]
fn store_gen_proof(
    store: &ckb_merkle_mountain_range::util::MemStore<HeaderDigest>,
    mmr_size: u64,
    positions: Vec<u64>,
) -> (r: Result<Vec<HeaderDigest>, ckb_merkle_mountain_range::Error>)
    requires
        mmr_size <= MAX_MMR_SIZE,
    ensures
        match r {
            Ok(items) => mmr_proof(mmr_size, store_nodes(*store), positions@) == Some(
                digest_views(items@),
            ),
            Err(_) => mmr_proof(mmr_size, store_nodes(*store), positions@).is_none(),
        },
{
    let mmr = ckb_merkle_mountain_range::MMR::<HeaderDigest, MergeHeaderDigest, _>::new(
        mmr_size,
        store,
    );
    Ok(mmr.gen_proof(positions)?.proof_items().to_vec())
}

/// `format!`: the text for a bootstrap height that opens no difficulty
/// period.
#[verifier::external_body]
fn bad_bootstrap_height_message(interval: u32, height: u32) -> String {
    format!("bad bootstrap height, expected multiples of {interval} but got {height}")
}

/// `format!`: the text for a previous client outside the heights followed.
#[verifier::external_body]
fn previous_header_not_found_message(prev_height: u32, min_height: u32, max_height: u32) -> String {
    format!(
        "the previous header (height: {prev_height}) is not found (current: [{min_height}, {max_height}])"
    )
}

/// `format!`: the text for a root that does not cover the heights followed.
#[verifier::external_body]
fn unexpected_root_message(root: &HeaderDigest, min_height: u32, max_height: u32) -> String {
    format!(
        "the root covers [{}, {}] but the headers are [{min_height}, {max_height}]",
        root.min_height, root.max_height
    )
}

/// The encodings of a list of headers.
pub open spec fn encoded_headers(headers: Seq<Header>) -> Seq<Seq<u8>> {
    headers.map_values(|header: Header| header.encode_spec())
}

/// The heights from `min` to `max`, both included.
pub open spec fn heights_between(min: u32, max: u32) -> Set<u32> {
    Set::new(|height: u32| min <= height <= max)
}

/// The positions of `count` leaves, the first of them with the index
/// `first_index`.
pub open spec fn new_positions(first_index: int, count: nat) -> Seq<u64> {
    Seq::new(count, |i: int| leaf_position_of((first_index + i) as u64) as u64)
}

/// The nodes of a store after `leaves` were pushed one by one, the first of
/// them as the leaf with the index `first_index`; `None` where a push fails.
pub open spec fn nodes_after_pushes(
    nodes: Map<u64, DigestView>,
    first_index: int,
    leaves: Seq<DigestView>,
) -> Option<Map<u64, DigestView>>
    decreases leaves.len(),
{
    if leaves.len() == 0 {
        Some(nodes)
    } else {
        match nodes_after_pushes(nodes, first_index, leaves.drop_last()) {
            None => None,
            Some(before) => match mmr_pushed(
                mmr_size_of((first_index + leaves.len() - 2) as u64) as u64,
                before,
                leaves.last(),
            ) {
                Some((_, after)) => Some(after),
                None => None,
            },
        }
    }
}

/// Pushes the leaves of `headers` onto the range in `store`, the first of
/// them one above the height of `start`, and follows the headers from
/// `start`. Gives the cursor after the last header, the positions of the new
/// leaves, and the encoded headers.
fn append_headers(
    store: &mut ckb_merkle_mountain_range::util::MemStore<HeaderDigest>,
    min_height: u32,
    start: Cursor,
    headers: &Vec<Header>,
) -> (r: Result<(Cursor, Vec<u64>, Vec<Vec<u8>>), ckb_merkle_mountain_range::Error>)
    requires
        min_height <= start.max_height,
        start.max_height + headers@.len() <= u32::MAX,
    ensures
        r matches Ok((cursor, positions, packed)) ==> {
            let encoded = encoded_headers(headers@);
            let first_index = start.max_height + 1 - min_height;
            &&& cursor.max_height == start.max_height + headers@.len()
            &&& cursor@ == follow(start@, encoded, FLAG_CHAIN_TYPE_MAINNET)
            &&& positions@ == new_positions(first_index, headers@.len())
            &&& byte_strings(packed@) == encoded
            &&& nodes_after_pushes(
                store_nodes(*old(store)),
                first_index,
                appended_leaves(start.max_height + 1, encoded),
            ) == Some(store_nodes(*final(store)))
        },
        r is Err ==> nodes_after_pushes(
            store_nodes(*old(store)),
            start.max_height + 1 - min_height,
            appended_leaves(start.max_height + 1, encoded_headers(headers@)),
        ).is_none(),
{
    let ghost encoded = encoded_headers(headers@);
    let ghost old_nodes = store_nodes(*store);
    let ghost first_index = start.max_height + 1 - min_height;
    let count = headers.len();
    let mut cursor = start;
    let mut positions: Vec<u64> = Vec::with_capacity(count);
    let mut packed: Vec<Vec<u8>> = Vec::with_capacity(count);
    assert(encoded.take(0) =~= Seq::<Seq<u8>>::empty());
    assert(byte_strings(packed@) =~= encoded.take(0));
    assert(positions@ =~= new_positions(first_index, 0));
    let mut i: usize = 0;
    while i < count
        invariant
            i <= count,
            count == headers@.len(),
            encoded == encoded_headers(headers@),
            min_height <= start.max_height,
            start.max_height + count <= u32::MAX,
            first_index == start.max_height + 1 - min_height,
            old_nodes == store_nodes(*old(store)),
            cursor.max_height == start.max_height + i,
            cursor@ == follow(start@, encoded.take(i as int), FLAG_CHAIN_TYPE_MAINNET),
            positions@ == new_positions(first_index, i as nat),
            byte_strings(packed@) == encoded.take(i as int),
            nodes_after_pushes(
                old_nodes,
                first_index,
                appended_leaves(start.max_height + 1, encoded.take(i as int)),
            ) == Some(store_nodes(*store)),
        decreases count - i,
    {
        let header = &headers[i];
        let height = cursor.max_height + 1;
        let index = height - min_height;
        let position = leaf_position(index);
        let block_hash = header.block_hash();
        let digest = HeaderDigest::new_leaf(height, header);
        let ghost packed_before = packed@;
        let ghost nodes_before = store_nodes(*store);
        positions.push(position);
        match store_push(store, range_size(index - 1), digest) {
            Ok(_) => {},
            Err(e) => {
                proof {
                    failed_push_fails_all(
                        old_nodes,
                        first_index,
                        start.max_height + 1,
                        encoded,
                        i as int,
                        nodes_before,
                    );
                }
                return Err(e);
            },
        }
        cursor = cursor.follow(header, block_hash, FLAG_CHAIN_TYPE_MAINNET);
        let bytes = header.encode();
        let ghost added = bytes;
        packed.push(bytes);
        proof {
            let shorter = encoded.take(i as int);
            let longer = encoded.take(i + 1);
            assert(longer.drop_last() =~= shorter);
            assert(longer.last() == header.encode_spec());
            assert(positions@ =~= new_positions(first_index, (i + 1) as nat));
            assert(longer =~= shorter.push(added@));
            byte_strings_push(packed_before, added, shorter);
            pushes_extend(
                old_nodes,
                first_index,
                start.max_height + 1,
                shorter,
                longer,
                nodes_before,
                store_nodes(*store),
            );
        }
        i += 1;
    }
    assert(encoded.take(count as int) =~= encoded);
    Ok((cursor, positions, packed))
}

/// Once a push has failed, the pushes after it fail too.
proof fn pushes_fail_for_good(
    nodes: Map<u64, DigestView>,
    first_index: int,
    leaves: Seq<DigestView>,
    n: int,
    k: int,
)
    requires
        0 <= n <= k <= leaves.len(),
        nodes_after_pushes(nodes, first_index, leaves.take(n)).is_none(),
    ensures
        nodes_after_pushes(nodes, first_index, leaves.take(k)).is_none(),
    decreases k - n,
{
    if k > n {
        pushes_fail_for_good(nodes, first_index, leaves, n, k - 1);
        assert(leaves.take(k).drop_last() =~= leaves.take(k - 1));
    }
}

/// Where the push of one leaf fails, the pushes of all leaves fail.
proof fn failed_push_fails_all(
    old_nodes: Map<u64, DigestView>,
    first_index: int,
    first_height: int,
    encoded: Seq<Seq<u8>>,
    i: int,
    nodes_before: Map<u64, DigestView>,
)
    requires
        0 <= i < encoded.len(),
        nodes_after_pushes(old_nodes, first_index, appended_leaves(first_height, encoded.take(i)))
            == Some(nodes_before),
        mmr_pushed(
            mmr_size_of((first_index + i - 1) as u64) as u64,
            nodes_before,
            leaf_view((first_height + i) as u32, encoded[i]),
        ).is_none(),
    ensures
        nodes_after_pushes(old_nodes, first_index, appended_leaves(first_height, encoded)).is_none(),
{
    let all = appended_leaves(first_height, encoded);
    let shorter = appended_leaves(first_height, encoded.take(i));
    assert(all.take(i + 1).drop_last() =~= shorter);
    assert(all.take(i + 1).last() == leaf_view((first_height + i) as u32, encoded[i]));
    assert(first_index + all.take(i + 1).len() - 2 == first_index + i - 1);
    pushes_fail_for_good(old_nodes, first_index, all, i + 1, encoded.len() as int);
    assert(all.take(encoded.len() as int) =~= all);
}

/// One more push extends the nodes after the pushes before it.
proof fn pushes_extend(
    old_nodes: Map<u64, DigestView>,
    first_index: int,
    first_height: int,
    shorter: Seq<Seq<u8>>,
    longer: Seq<Seq<u8>>,
    nodes_before: Map<u64, DigestView>,
    nodes_after: Map<u64, DigestView>,
)
    requires
        longer.len() == shorter.len() + 1,
        longer.drop_last() == shorter,
        nodes_after_pushes(old_nodes, first_index, appended_leaves(first_height, shorter)) == Some(
            nodes_before,
        ),
        mmr_pushed(
            mmr_size_of((first_index + shorter.len() - 1) as u64) as u64,
            nodes_before,
            leaf_view((first_height + shorter.len()) as u32, longer.last()),
        ) matches Some((_, after)) && after == nodes_after,
    ensures
        nodes_after_pushes(old_nodes, first_index, appended_leaves(first_height, longer)) == Some(
            nodes_after,
        ),
{
    let leaves = appended_leaves(first_height, longer);
    assert(leaves.drop_last() =~= appended_leaves(first_height, shorter));
    assert(leaves.last() == leaf_view((first_height + shorter.len()) as u32, longer.last()));
    assert(first_index + leaves.len() - 2 == first_index + shorter.len() - 1);
}

/// The byte strings of a list of buffers that grew by one buffer.
proof fn byte_strings_push(before: Seq<Vec<u8>>, added: Vec<u8>, shorter: Seq<Seq<u8>>)
    requires
        byte_strings(before) == shorter,
    ensures
        byte_strings(before.push(added)) == shorter.push(added@),
{
    assert(byte_strings(before.push(added)) =~= shorter.push(added@));
}

/// Keeps `headers` under the heights that follow `old_max_height`.
fn cache_headers(
    cache: &mut HashMap<u32, Header>,
    min_height: u32,
    old_max_height: u32,
    headers: &Vec<Header>,
)
    requires
        min_height <= old_max_height,
        old_max_height + headers@.len() <= u32::MAX,
        old(cache)@.dom() == heights_between(min_height, old_max_height),
    ensures
        final(cache)@.dom() == heights_between(
            min_height,
            (old_max_height + headers@.len()) as u32,
        ),
{
    let count = headers.len();
    let mut k: usize = 0;
    while k < count
        invariant
            k <= count,
            count == headers@.len(),
            min_height <= old_max_height,
            old_max_height + count <= u32::MAX,
            cache@.dom() =~= heights_between(min_height, (old_max_height + k) as u32),
        decreases count - k,
    {
        let height = old_max_height + 1 + k as u32;
        cache.insert(height, headers[k]);
        k += 1;
    }
}

/// A service that follows the mainnet header stream from a first header on.
pub struct DummyService {
    client: SpvClient,
    store: ckb_merkle_mountain_range::util::MemStore<HeaderDigest>,
    headers: HashMap<u32, Header>,
}

impl DummyService {
    /// The client state that the service has reached.
    pub closed spec fn client(&self) -> SpvClient {
        self.client
    }

    /// The nodes in the store of the service, by position.
    pub closed spec fn nodes(&self) -> Map<u64, DigestView> {
        store_nodes(self.store)
    }

    /// The heights whose headers the service keeps.
    pub closed spec fn cached_heights(&self) -> Set<u32> {
        self.headers@.dom()
    }

    /// The service covers at least one height and keeps the headers of just
    /// the heights that its client covers.
    pub open spec fn well_formed(&self) -> bool {
        &&& self.client().well_formed()
        &&& self.cached_heights() == heights_between(
            self.client().headers_mmr_root.min_height,
            self.client().headers_mmr_root.max_height,
        )
    }

    /// The service is what bootstrapping from `header` at `height` gives: its
    /// client stands for that header alone, its store holds the header's leaf
    /// at position 0, and it keeps the header of that height.
    pub open spec fn bootstrapped_from(&self, height: u32, header: Header) -> bool {
        &&& self.well_formed()
        &&& self.client()@ == bootstrap_client(height, header.encode_spec())
        &&& self.nodes() == no_nodes().insert(
            0,
            leaf_view(height, header.encode_spec()),
        )
        &&& self.cached_heights() == heights_between(height, height)
    }

    /// The service is what updating `before` with `headers` gives, and
    /// `update` is the witness for it.
    pub open spec fn updated_from(
        &self,
        before: DummyService,
        headers: Seq<Header>,
        update: SpvUpdate,
    ) -> bool {
        let old_client = before.client()@;
        let new_client = self.client()@;
        let encoded = encoded_headers(headers);
        let min_height = old_client.headers_mmr_root.min_height;
        let old_max_height = old_client.headers_mmr_root.max_height;
        let first_index = old_max_height + 1 - min_height;
        let mmr_size = mmr_size_of((old_max_height + headers.len() - min_height) as u64) as u64;
        &&& adjust_info_fields(old_client.target_adjust_info) matches Some((start_time, next_bits))
        &&& {
            let end = follow(
                walk_start(old_client, start_time, next_bits),
                encoded,
                FLAG_CHAIN_TYPE_MAINNET,
            );
            &&& new_client.tip_block_hash == end.tip
            &&& new_client.target_adjust_info == adjust_info_bytes(end.start_time, end.next_bits)
        }
        &&& byte_strings(update.headers@) == encoded
        &&& new_client.id == old_client.id
        &&& new_client.headers_mmr_root.min_height == min_height
        &&& new_client.headers_mmr_root.max_height == old_max_height + headers.len()
        &&& nodes_after_pushes(
            before.nodes(),
            first_index,
            appended_leaves(old_max_height + 1, encoded),
        ) == Some(self.nodes())
        &&& mmr_root(mmr_size, self.nodes()) == Some(new_client.headers_mmr_root)
        &&& mmr_proof(mmr_size, self.nodes(), new_positions(first_index, headers.len())) == Some(
            digest_views(update.new_headers_mmr_proof@),
        )
        &&& self.cached_heights() == heights_between(
            min_height,
            (old_max_height + headers.len()) as u32,
        )
    }

    /// Whether an update of the service with `headers` fails: a push of one
    /// of the leaves fails, or the library gives no root for the new range,
    /// or a root that does not cover the heights from the first to the new
    /// latest (with no headers: another root than the client has), or no
    /// proof for the new leaves.
    pub open spec fn update_fails(&self, headers: Seq<Header>) -> bool {
        let old_client = self.client()@;
        let min_height = old_client.headers_mmr_root.min_height;
        let old_max_height = old_client.headers_mmr_root.max_height;
        let first_index = old_max_height + 1 - min_height;
        let mmr_size = mmr_size_of((old_max_height + headers.len() - min_height) as u64) as u64;
        match nodes_after_pushes(
            self.nodes(),
            first_index,
            appended_leaves(old_max_height + 1, encoded_headers(headers)),
        ) {
            None => true,
            Some(nodes) => match mmr_root(mmr_size, nodes) {
                None => true,
                Some(root) => {
                    ||| headers.len() == 0 && root != old_client.headers_mmr_root
                    ||| headers.len() > 0 && (root.min_height != min_height || root.max_height
                        != old_max_height + headers.len())
                    ||| mmr_proof(
                        mmr_size,
                        nodes,
                        new_positions(first_index, headers.len()),
                    ).is_none()
                },
            },
        }
    }

    /// Whether an update of the service with `headers` fails for the root
    /// that the library gives: the leaves are pushed and there is a root, but
    /// not one that covers the heights from the first to the new latest.
    pub open spec fn update_finds_wrong_root(&self, headers: Seq<Header>) -> bool {
        let old_client = self.client()@;
        let min_height = old_client.headers_mmr_root.min_height;
        let old_max_height = old_client.headers_mmr_root.max_height;
        let mmr_size = mmr_size_of((old_max_height + headers.len() - min_height) as u64) as u64;
        match nodes_after_pushes(
            self.nodes(),
            old_max_height + 1 - min_height,
            appended_leaves(old_max_height + 1, encoded_headers(headers)),
        ) {
            None => false,
            Some(nodes) => match mmr_root(mmr_size, nodes) {
                None => false,
                Some(root) => {
                    ||| headers.len() == 0 && root != old_client.headers_mmr_root
                    ||| headers.len() > 0 && (root.min_height != min_height || root.max_height
                        != old_max_height + headers.len())
                },
            },
        }
    }

    /// Starts a service from the header at `height`, which must be a multiple
    /// of 2016. The header is not checked any further.
    pub fn bootstrap(height: u32, header: Header) -> (r: Result<DummyService, ProverError>)
        ensures
            match r {
                Ok(service) => height % DIFFCHANGE_INTERVAL == 0 && service.bootstrapped_from(
                    height,
                    header,
                ),
                Err(e) => height % DIFFCHANGE_INTERVAL != 0 && e is Other,
            },
    {
        if height % DIFFCHANGE_INTERVAL != 0 {
            return Err(ProverError::other(bad_bootstrap_height_message(DIFFCHANGE_INTERVAL, height)));
        }
        proof {
            header.encoding_carries_fields();
        }
        let mut headers: HashMap<u32, Header> = HashMap::new();
        let mut store = new_store();
        let block_hash = header.block_hash();
        let digest = HeaderDigest::new_leaf(height, &header);
        match store_push(&mut store, 0, digest) {
            Ok(_) => {},
            Err(e) => {
                return Err(ProverError::Mmr(e));
            },
        }
        let headers_mmr_root = match store_root(&store, 1) {
            Ok(root) => root,
            Err(e) => {
                return Err(ProverError::Mmr(e));
            },
        };
        headers.insert(height, header);
        let target_adjust_info = TargetAdjustInfo::encode(header.time, header.bits);
        let client = SpvClient {
            id: 0,
            tip_block_hash: block_hash,
            headers_mmr_root,
            target_adjust_info,
        };
        let service = DummyService { client, store, headers };
        assert(service.cached_heights() =~= heights_between(height, height));
        Ok(service)
    }

    /// Appends `headers` to the range and gives the update that leads a
    /// client from the state before to the state after.
    ///
    /// Each header becomes the leaf after the latest; the target adjust info
    /// follows the rule of the client for mainnet. The state of the client
    /// changes only where the update is given. Where the library fails, its
    /// error is handed on; a root that does not cover the heights followed is
    /// reported as text.
    pub fn update(&mut self, headers: Vec<Header>) -> (r: Result<SpvUpdate, ProverError>)
        requires
            old(self).well_formed(),
            old(self).client().headers_mmr_root.max_height + headers@.len() <= u32::MAX,
        ensures
            final(self).well_formed(),
            match r {
                Ok(update) => final(self).updated_from(*old(self), headers@, update),
                Err(_) => final(self).client() == old(self).client() && final(self).cached_heights() == old(self).cached_heights(),
            },
            r is Err <==> old(self).update_fails(headers@),
            r matches Err(e) ==> (e is Other <==> old(self).update_finds_wrong_root(headers@)),
            headers@.len() == 0 ==> final(self).client() == old(self).client(),
    {
        let ghost encoded = encoded_headers(headers@);
        let min_height = self.client.headers_mmr_root.min_height;
        let old_max_height = self.client.headers_mmr_root.max_height;
        let count = headers.len();
        let (start_time, next_bits) = self.client.target_adjust_info.fields();
        let start = Cursor {
            tip_block_hash: self.client.tip_block_hash,
            max_height: old_max_height,
            start_time,
            next_bits,
        };
        assert(start@ == walk_start(self.client@, start_time, next_bits.bits));
        let (cursor, positions, packed) = match append_headers(
            &mut self.store,
            min_height,
            start,
            &headers,
        ) {
            Ok(appended) => appended,
            Err(e) => {
                return Err(ProverError::Mmr(e));
            },
        };
        let mmr_size = range_size(cursor.max_height - min_height);
        let root = match store_root(&self.store, mmr_size) {
            Ok(root) => root,
            Err(e) => {
                return Err(ProverError::Mmr(e));
            },
        };
        let expected = if count == 0 {
            root == self.client.headers_mmr_root
        } else {
            root.min_height == min_height && root.max_height == cursor.max_height
        };
        if !expected {
            return Err(
                ProverError::other(unexpected_root_message(&root, min_height, cursor.max_height)),
            );
        }
        let proof_items = match store_gen_proof(&self.store, mmr_size, positions) {
            Ok(items) => items,
            Err(e) => {
                return Err(ProverError::Mmr(e));
            },
        };
        let update = SpvUpdate { headers: packed, new_headers_mmr_proof: proof_items };
        if count == 0 {
            // Nothing was appended: the state stays as it is.
            proof {
                adjust_info_bytes_of_fields(self.client@.target_adjust_info);
                assert(encoded =~= Seq::<Seq<u8>>::empty());
            }
            return Ok(update);
        }
        // Keep the headers and move the client on.
        cache_headers(&mut self.headers, min_height, old_max_height, &headers);
        self.client =
        SpvClient {
            id: self.client.id,
            tip_block_hash: cursor.tip_block_hash,
            headers_mmr_root: root,
            target_adjust_info: TargetAdjustInfo::encode(cursor.start_time, cursor.next_bits),
        };
        Ok(update)
    }

    /// Goes back to a previous client: the headers above its latest height
    /// are dropped. The previous client is not checked beyond its height,
    /// which must be one that the service covers.
    pub fn rollback_to(&mut self, prev_client: SpvClient) -> (r: Result<(), ProverError>)
        requires
            old(self).well_formed(),
        ensures
            final(self).nodes() == old(self).nodes(),
            match r {
                Ok(()) => {
                    &&& old(self).client().headers_mmr_root.min_height
                        <= prev_client.headers_mmr_root.max_height <= old(self).client().headers_mmr_root.max_height
                    &&& final(self).client() == prev_client
                    &&& final(self).cached_heights() == heights_between(
                        old(self).client().headers_mmr_root.min_height,
                        prev_client.headers_mmr_root.max_height,
                    )
                    &&& prev_client.headers_mmr_root.min_height == old(self).client().headers_mmr_root.min_height ==> final(self).well_formed()
                },
                Err(e) => {
                    &&& e is Other
                    &&& !(old(self).client().headers_mmr_root.min_height
                        <= prev_client.headers_mmr_root.max_height <= old(self).client().headers_mmr_root.max_height)
                    &&& final(self).client() == old(self).client()
                    &&& final(self).cached_heights() == old(self).cached_heights()
                },
            },
    {
        let prev_height = prev_client.headers_mmr_root.max_height;
        let min_height = self.client.headers_mmr_root.min_height;
        let curr_height = self.client.headers_mmr_root.max_height;
        if prev_height < min_height || curr_height < prev_height {
            return Err(
                ProverError::other(
                    previous_header_not_found_message(prev_height, min_height, curr_height),
                ),
            );
        }
        let mut height = prev_height;
        while height < curr_height
            invariant
                min_height <= prev_height <= height <= curr_height,
                self.store == old(self).store,
                self.client == old(self).client,
                self.headers@.dom() =~= Set::new(
                    |h: u32| min_height <= h <= prev_height || height < h <= curr_height,
                ),
            decreases curr_height - height,
        {
            height += 1;
            self.headers.remove(&height);
        }
        self.client = prev_client;
        assert(self.headers@.dom() =~= heights_between(min_height, prev_height));
        Ok(())
    }

    /// The client state that the service has reached.
    pub fn tip_client(&self) -> (r: SpvClient)
        ensures
            r == self.client(),
    {
        self.client
    }

    /// The first height that the service covers.
    pub fn min_height(&self) -> (r: u32)
        ensures
            r == self.client().headers_mmr_root.min_height,
    {
        self.client.headers_mmr_root.min_height
    }

    /// The latest height that the service covers.
    pub fn max_height(&self) -> (r: u32)
        ensures
            r == self.client().headers_mmr_root.max_height,
    {
        self.client.headers_mmr_root.max_height
    }

    /// Generates the proof that the header at `height` is under the root of
    /// the client; `None` for a height that the service does not cover.
    pub fn generate_header_proof(&self, height: u32) -> (r: Result<
        Option<Vec<HeaderDigest>>,
        ProverError,
    >)
        ensures
            ({
                let min_height = self.client().headers_mmr_root.min_height;
                let max_height = self.client().headers_mmr_root.max_height;
                let found = mmr_proof(
                    mmr_size_of((max_height - min_height) as u64) as u64,
                    self.nodes(),
                    seq![leaf_position_of((height - min_height) as u64) as u64],
                );
                match r {
                    Ok(None) => height < min_height || max_height < height,
                    Ok(Some(proof)) => min_height <= height <= max_height && found == Some(
                        digest_views(proof@),
                    ),
                    Err(e) => min_height <= height <= max_height && found.is_none() && e is Mmr,
                }
            }),
    {
        let min_height = self.client.headers_mmr_root.min_height;
        let max_height = self.client.headers_mmr_root.max_height;
        if height < min_height || max_height < height {
            return Ok(None);
        }
        let index = height - min_height;
        let position = leaf_position(index);
        let last_index = max_height - min_height;
        let mmr_size = range_size(last_index);
        let mut positions: Vec<u64> = Vec::with_capacity(1);
        positions.push(position);
        assert(positions@ =~= seq![position]);
        match store_gen_proof(&self.store, mmr_size, positions) {
            Ok(proof) => Ok(Some(proof)),
            Err(e) => Err(ProverError::Mmr(e)),
        }
    }
}

/// Eight bytes are the packed form of the two numbers they hold.
pub proof fn adjust_info_bytes_of_fields(data: Seq<u8>)
    requires
        data.len() == 8,
    ensures
        adjust_info_fields(data) matches Some((start_time, next_bits)) && adjust_info_bytes(
            start_time,
            next_bits,
        ) == data,
{
    crate::wire::u32_le_bytes_of_le(data.subrange(0, 4));
    crate::wire::u32_le_bytes_of_le(data.subrange(4, 8));
    assert(data =~= data.subrange(0, 4) + data.subrange(4, 8));
}

/// A service bootstrapped from a header that the client's bootstrap rule
/// accepts, and then updated with no headers, holds the client that the rule
/// gives.
pub proof fn bootstrap_round_trip(
    height: u32,
    header: Header,
    bootstrapped: DummyService,
    updated: DummyService,
)
    requires
        bootstrap_spec(height, header.encode_spec()) is Ok,
        bootstrapped.bootstrapped_from(height, header),
        updated.client() == bootstrapped.client(),
    ensures
        bootstrap_spec(height, header.encode_spec()) == Ok::<
            crate::client::ClientView,
            crate::error::BootstrapError,
        >(updated.client()@),
{
}

/// The update that the service gives is accepted by the client on mainnet,
/// from the client before to the client after, wherever the headers
/// themselves can be walked from the old tip and the library accepts the
/// proof as the extension of the old root: the service and the client keep
/// the same books.
pub proof fn update_is_accepted_where_headers_and_proof_are(
    before: DummyService,
    after: DummyService,
    headers: Seq<Header>,
    update: SpvUpdate,
)
    requires
        headers.len() > 0,
        after.updated_from(before, headers, update),
        ({
            let old_client = before.client()@;
            let (start_time, next_bits) = adjust_info_fields(old_client.target_adjust_info)->Some_0;
            &&& crate::client::walk(
                walk_start(old_client, start_time, next_bits),
                encoded_headers(headers),
                FLAG_CHAIN_TYPE_MAINNET,
            ) is Ok
            &&& crate::mmr::mmr_extension(
                mmr_size_of(
                    (old_client.headers_mmr_root.max_height + headers.len()
                        - old_client.headers_mmr_root.min_height) as u64,
                ) as u64,
                digest_views(update.new_headers_mmr_proof@),
                after.client()@.headers_mmr_root,
                old_client.headers_mmr_root,
                appended_leaves(
                    old_client.headers_mmr_root.max_height + 1,
                    encoded_headers(headers),
                ),
            ) == Some(true)
        }),
    ensures
        crate::client::verify_new_client_spec(
            before.client()@,
            after.client()@,
            byte_strings(update.headers@),
            digest_views(update.new_headers_mmr_proof@),
            FLAG_CHAIN_TYPE_MAINNET,
        ) == Ok::<(), crate::error::UpdateError>(()),
{
    let old_client = before.client()@;
    let (start_time, next_bits) = adjust_info_fields(old_client.target_adjust_info)->Some_0;
    let start = walk_start(old_client, start_time, next_bits);
    let encoded = encoded_headers(headers);
    crate::client::walk_ends_where_follow_ends(start, encoded, FLAG_CHAIN_TYPE_MAINNET);
    crate::client::walk_advances_height(start, encoded, FLAG_CHAIN_TYPE_MAINNET);
}

} // verus!
