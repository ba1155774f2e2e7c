//! The packed forms of lists: a count and the items for items of one size,
//! a table of offsets and the items otherwise.

use vstd::prelude::*;
use crate::client::byte_strings;
use crate::header::{push_bytes, HEADER_SIZE};
use crate::mmr::{digest_views, DigestView, HeaderDigest, HEADER_DIGEST_SIZE};
use crate::packed::{copy_range, u32_at};
use crate::wire::{
    read_u32_le, u32_le_bytes, u32_le_bytes_of_le, u32_le_round_trip, u32_to_le,
};

verus! {

/// The parts one after the other.
pub open spec fn concat_all(parts: Seq<Seq<u8>>) -> Seq<u8>
    decreases parts.len(),
{
    if parts.len() == 0 {
        Seq::empty()
    } else {
        concat_all(parts.drop_last()) + parts.last()
    }
}

/// The `count` pieces of `size` bytes each that `bytes` starts with.
pub open spec fn chunks(bytes: Seq<u8>, size: nat, count: nat) -> Seq<Seq<u8>> {
    Seq::new(count, |i: int| bytes.subrange(i * size, i * size + size))
}

/// Whether every part has `size` bytes.
pub open spec fn all_of_size(parts: Seq<Seq<u8>>, size: nat) -> bool {
    forall|i: int| 0 <= i < parts.len() ==> (#[trigger] parts[i]).len() == size
}

/// Parts of one size, one after the other, have the summed length.
pub proof fn concat_all_len(parts: Seq<Seq<u8>>, size: nat)
    requires
        all_of_size(parts, size),
    ensures
        concat_all(parts).len() == parts.len() * size,
    decreases parts.len(),
{
    if parts.len() > 0 {
        concat_all_len(parts.drop_last(), size);
        assert(parts.last().len() == size);
        assert((parts.len() - 1) * size + size == parts.len() * size) by (nonlinear_arith);
    } else {
        assert(0 * size == 0) by (nonlinear_arith);
    }
}

/// Cutting parts of one size out of their concatenation gives the parts.
pub proof fn chunks_of_concat(parts: Seq<Seq<u8>>, size: nat)
    requires
        all_of_size(parts, size),
    ensures
        chunks(concat_all(parts), size, parts.len()) == parts,
    decreases parts.len(),
{
    let whole = concat_all(parts);
    if parts.len() > 0 {
        let front = parts.drop_last();
        chunks_of_concat(front, size);
        concat_all_len(front, size);
        concat_all_len(parts, size);
        assert forall|i: int| 0 <= i < parts.len() implies chunks(whole, size, parts.len())[i]
            == parts[i] by {
            assert(i * size + size <= parts.len() * size) by (nonlinear_arith)
                requires
                    0 <= i < parts.len(),
            ;
            if i < front.len() {
                assert(i * size + size <= front.len() * size) by (nonlinear_arith)
                    requires
                        0 <= i < front.len(),
                ;
                assert(chunks(concat_all(front), size, front.len())[i] == front[i]);
                assert(whole.subrange(i * size, i * size + size) =~= concat_all(front).subrange(
                    i * size,
                    i * size + size,
                ));
            } else {
                assert(whole.subrange(i * size, i * size + size) =~= parts.last());
            }
        }
    }
    assert(chunks(whole, size, parts.len()) =~= parts);
}

/// The pieces of a byte string that is `count` pieces long, one after the
/// other, are the byte string.
pub proof fn concat_of_chunks(bytes: Seq<u8>, size: nat, count: nat)
    requires
        bytes.len() == count * size,
    ensures
        all_of_size(chunks(bytes, size, count), size),
        concat_all(chunks(bytes, size, count)) == bytes,
    decreases count,
{
    let parts = chunks(bytes, size, count);
    assert forall|i: int| 0 <= i < parts.len() implies (#[trigger] parts[i]).len() == size by {
        assert(0 <= i * size && i * size + size <= count * size) by (nonlinear_arith)
            requires
                0 <= i < count,
        ;
    }
    if count > 0 {
        let shorter = (count - 1) as nat;
        assert(shorter * size + size == count * size) by (nonlinear_arith)
            requires
                shorter + 1 == count,
        ;
        let front = bytes.subrange(0, (shorter * size) as int);
        concat_of_chunks(front, size, shorter);
        assert(parts.drop_last() =~= chunks(front, size, shorter)) by {
            assert forall|i: int| 0 <= i < shorter implies parts.drop_last()[i] == chunks(
                front,
                size,
                shorter,
            )[i] by {
                assert(0 <= i * size && i * size + size <= shorter * size) by (nonlinear_arith)
                    requires
                        0 <= i < shorter,
                ;
                assert(bytes.subrange(i * size, i * size + size) =~= front.subrange(
                    i * size,
                    i * size + size,
                ));
            }
        }
        assert(parts.last() == bytes.subrange(
            (shorter * size) as int,
            (shorter * size + size) as int,
        ));
        assert(concat_all(parts) =~= bytes);
    } else {
        assert(0 * size == 0) by (nonlinear_arith);
        assert(concat_all(parts) =~= bytes);
    }
}

/// The packed form of a byte string: its length and the bytes.
pub open spec fn packed_bytes(data: Seq<u8>) -> Seq<u8> {
    u32_le_bytes(data.len() as u32) + data
}

/// The byte string that packed bytes hold; `None` unless the length they
/// start with is the number of bytes that follow.
pub open spec fn unpacked_bytes(bytes: Seq<u8>) -> Option<Seq<u8>> {
    if bytes.len() >= 4 && u32_at(bytes, 0) + 4 == bytes.len() {
        Some(bytes.subrange(4, bytes.len() as int))
    } else {
        None
    }
}

/// Unpacking a packed byte string gives it back, and bytes that unpack are
/// the packed form of what they unpack to.
pub proof fn packed_bytes_round_trip(data: Seq<u8>, bytes: Seq<u8>)
    ensures
        data.len() <= u32::MAX ==> unpacked_bytes(packed_bytes(data)) == Some(data),
        unpacked_bytes(bytes) matches Some(found) ==> found.len() <= u32::MAX && packed_bytes(found)
            == bytes,
{
    if data.len() <= u32::MAX {
        let packed = packed_bytes(data);
        u32_le_round_trip(data.len() as u32);
        assert(packed.subrange(0, 4) =~= u32_le_bytes(data.len() as u32));
        assert(packed.subrange(4, packed.len() as int) =~= data);
    }
    if unpacked_bytes(bytes) is Some {
        u32_le_bytes_of_le(bytes.subrange(0, 4));
        assert(packed_bytes(bytes.subrange(4, bytes.len() as int)) =~= bytes);
    }
}

/// Packs a byte string: its length and the bytes.
pub fn pack_bytes(data: &[u8]) -> (r: Vec<u8>)
    requires
        data@.len() <= u32::MAX,
    ensures
        r@ == packed_bytes(data@),
{
    let mut out: Vec<u8> = Vec::new();
    push_bytes(&mut out, u32_to_le(data.len() as u32).as_slice());
    push_bytes(&mut out, data);
    assert(out@ =~= packed_bytes(data@));
    out
}

/// Unpacks a byte string; `None` unless the bytes are the packed form of
/// one.
pub fn unpack_bytes(bytes: &[u8]) -> (r: Option<Vec<u8>>)
    ensures
        match r {
            Some(data) => unpacked_bytes(bytes@) == Some(data@),
            None => unpacked_bytes(bytes@).is_none(),
        },
{
    let len = bytes.len();
    if len < 4 {
        return None;
    }
    let count = read_u32_le(bytes, 0);
    if count as u64 + 4 != len as u64 {
        return None;
    }
    Some(copy_range(bytes, 4, len))
}

/// The packed form of a list of encoded headers: their number and the
/// headers, 80 bytes each.
#[verifier::opaque]
pub open spec fn packed_headers(headers: Seq<Seq<u8>>) -> Seq<u8> {
    u32_le_bytes(headers.len() as u32) + concat_all(headers)
}

/// The encoded headers that packed bytes hold; `None` unless the number they
/// start with is the number of 80-byte pieces that follow.
#[verifier::opaque]
pub open spec fn unpacked_headers(bytes: Seq<u8>) -> Option<Seq<Seq<u8>>> {
    if bytes.len() >= 4 && 4 + u32_at(bytes, 0) * HEADER_SIZE == bytes.len() {
        Some(
            chunks(bytes.subrange(4, bytes.len() as int), HEADER_SIZE as nat, u32_at(bytes, 0) as nat),
        )
    } else {
        None
    }
}

/// Unpacking a packed list of headers gives the list back.
pub proof fn unpacked_of_packed_headers(headers: Seq<Seq<u8>>)
    requires
        headers.len() <= u32::MAX,
        all_of_size(headers, HEADER_SIZE as nat),
    ensures
        packed_headers(headers).len() == 4 + headers.len() * HEADER_SIZE,
        unpacked_headers(packed_headers(headers)) == Some(headers),
{
    reveal(packed_headers);
    reveal(unpacked_headers);
    let packed = packed_headers(headers);
    concat_all_len(headers, HEADER_SIZE as nat);
    chunks_of_concat(headers, HEADER_SIZE as nat);
    u32_le_round_trip(headers.len() as u32);
    assert(packed.subrange(0, 4) =~= u32_le_bytes(headers.len() as u32));
    assert(packed.subrange(4, packed.len() as int) =~= concat_all(headers));
}

/// Bytes that unpack to a list of headers are the packed form of that list.
pub proof fn packed_of_unpacked_headers(bytes: Seq<u8>)
    requires
        unpacked_headers(bytes) is Some,
    ensures
        unpacked_headers(bytes)->Some_0.len() <= u32::MAX,
        all_of_size(unpacked_headers(bytes)->Some_0, HEADER_SIZE as nat),
        packed_headers(unpacked_headers(bytes)->Some_0) == bytes,
{
    reveal(packed_headers);
    reveal(unpacked_headers);
    let count = u32_at(bytes, 0) as nat;
    let body = bytes.subrange(4, bytes.len() as int);
    assert(count * 80 == u32_at(bytes, 0) * 80);
    concat_of_chunks(body, HEADER_SIZE as nat, count);
    u32_le_bytes_of_le(bytes.subrange(0, 4));
    assert(packed_headers(chunks(body, HEADER_SIZE as nat, count)) =~= bytes);
}

/// Packs a list of encoded headers, each of which must have its 80 bytes.
pub fn pack_headers(headers: &Vec<Vec<u8>>) -> (r: Vec<u8>)
    requires
        headers@.len() <= u32::MAX,
        all_of_size(byte_strings(headers@), HEADER_SIZE as nat),
    ensures
        r@ == packed_headers(byte_strings(headers@)),
{
    reveal(packed_headers);
    let ghost views = byte_strings(headers@);
    let count = headers.len();
    let mut out: Vec<u8> = Vec::new();
    push_bytes(&mut out, u32_to_le(count as u32).as_slice());
    assert(views.take(0) =~= Seq::<Seq<u8>>::empty());
    let mut i: usize = 0;
    while i < count
        invariant
            i <= count,
            count == headers@.len(),
            views == byte_strings(headers@),
            out@ == u32_le_bytes(count as u32) + concat_all(views.take(i as int)),
        decreases count - i,
    {
        push_bytes(&mut out, headers[i].as_slice());
        proof {
            assert(views.take(i + 1).drop_last() =~= views.take(i as int));
            assert(views.take(i + 1).last() == headers@[i as int]@);
            assert(out@ =~= u32_le_bytes(count as u32) + concat_all(views.take(i + 1)));
        }
        i += 1;
    }
    assert(views.take(count as int) =~= views);
    out
}

/// Unpacks a list of encoded headers; `None` unless the bytes are the packed
/// form of one.
pub fn unpack_headers(bytes: &[u8]) -> (r: Option<Vec<Vec<u8>>>)
    ensures
        match r {
            Some(headers) => unpacked_headers(bytes@) == Some(byte_strings(headers@)),
            None => unpacked_headers(bytes@).is_none(),
        },
{
    reveal(unpacked_headers);
    let len = bytes.len();
    if len < 4 {
        return None;
    }
    let count = read_u32_le(bytes, 0);
    if 4 + count as u64 * 80 != len as u64 {
        return None;
    }
    let ghost body = bytes@.subrange(4, len as int);
    let ghost wanted = chunks(body, HEADER_SIZE as nat, count as nat);
    let mut headers: Vec<Vec<u8>> = Vec::new();
    let mut i: usize = 0;
    while i < count as usize
        invariant
            i <= count,
            len == bytes@.len(),
            4 + count * 80 == len,
            body == bytes@.subrange(4, len as int),
            wanted == chunks(body, HEADER_SIZE as nat, count as nat),
            headers@.len() == i,
            forall|k: int| 0 <= k < i ==> (#[trigger] headers@[k])@ == wanted[k],
        decreases count - i,
    {
        let from = 4 + i * 80;
        let header = copy_range(bytes, from, from + 80);
        assert(header@ =~= wanted[i as int]);
        headers.push(header);
        i += 1;
    }
    assert(byte_strings(headers@) =~= wanted);
    Some(headers)
}

/// Length of a packed node together with its offset in a packed proof.
pub const PROOF_ITEM_SIZE: usize = 96;

/// The offsets in the head of a packed proof of `count` nodes: the nodes
/// follow the head, 92 bytes each.
pub open spec fn proof_offsets(count: nat) -> Seq<Seq<u8>> {
    Seq::new(count, |i: int| u32_le_bytes((4 + 4 * count + 92 * i) as u32))
}

/// The packed forms of a list of nodes.
pub open spec fn packed_nodes(nodes: Seq<DigestView>) -> Seq<Seq<u8>> {
    nodes.map_values(|node: DigestView| node.encode())
}

/// Whether every node of a list can be packed and unpacked again.
pub open spec fn nodes_are_packable(nodes: Seq<DigestView>) -> bool {
    forall|i: int| 0 <= i < nodes.len() ==> (#[trigger] nodes[i]).is_packable()
}

/// The packed form of a proof: the full size, the offset of each node, and
/// the packed nodes.
#[verifier::opaque]
pub open spec fn packed_proof(nodes: Seq<DigestView>) -> Seq<u8> {
    u32_le_bytes((4 + 96 * nodes.len()) as u32) + concat_all(proof_offsets(nodes.len()))
        + concat_all(packed_nodes(nodes))
}

/// The packed node at place `i` of a packed proof of `count` nodes.
pub open spec fn proof_item(bytes: Seq<u8>, count: nat, i: int) -> Seq<u8> {
    bytes.subrange(4 + 4 * count + 92 * i, 4 + 4 * count + 92 * i + 92)
}

/// The offset at place `i` in the head of a packed proof.
pub open spec fn proof_offset(bytes: Seq<u8>, i: int) -> u32 {
    u32_at(bytes, 4 + 4 * i)
}

/// Whether bytes have the layout of a packed proof of `count` nodes: the
/// full size comes first, then the offset of each node, then nodes that
/// unpack.
pub open spec fn is_packed_proof(bytes: Seq<u8>, count: nat) -> bool {
    &&& bytes.len() == 4 + 96 * count
    &&& u32_at(bytes, 0) == bytes.len()
    &&& forall|i: int|
        0 <= i < count ==> #[trigger] proof_offset(bytes, i) == 4 + 4 * count + 92 * i
    &&& forall|i: int|
        0 <= i < count ==> DigestView::decode(#[trigger] proof_item(bytes, count, i)) is Some
}

/// The nodes that a packed proof holds; `None` unless the bytes have the
/// layout of a packed proof.
#[verifier::opaque]
pub open spec fn unpacked_proof(bytes: Seq<u8>) -> Option<Seq<DigestView>> {
    if bytes.len() >= 4 && is_packed_proof(bytes, ((bytes.len() - 4) / 96) as nat) {
        let count = ((bytes.len() - 4) / 96) as nat;
        Some(Seq::new(count, |i: int| DigestView::decode(proof_item(bytes, count, i))->Some_0))
    } else {
        None
    }
}

/// Unpacking a packed proof gives the nodes back.
pub proof fn unpacked_of_packed_proof(nodes: Seq<DigestView>)
    requires
        4 + 96 * nodes.len() <= u32::MAX,
        nodes_are_packable(nodes),
    ensures
        packed_proof(nodes).len() == 4 + 96 * nodes.len(),
        unpacked_proof(packed_proof(nodes)) == Some(nodes),
{
    reveal(packed_proof);
    reveal(unpacked_proof);
    let count = nodes.len();
    let bytes = packed_proof(nodes);
    let offsets = proof_offsets(count);
    let items = packed_nodes(nodes);
    assert(all_of_size(offsets, 4));
    assert forall|i: int| 0 <= i < items.len() implies (#[trigger] items[i]).len() == 92 by {
        nodes[i].decode_of_encode();
    }
    concat_all_len(offsets, 4);
    concat_all_len(items, 92);
    chunks_of_concat(offsets, 4);
    chunks_of_concat(items, 92);
    assert(bytes.len() == 4 + 96 * count);
    assert((bytes.len() - 4) / 96 == count);
    u32_le_round_trip((4 + 96 * count) as u32);
    assert(bytes.subrange(0, 4) =~= u32_le_bytes((4 + 96 * count) as u32));
    assert forall|i: int| 0 <= i < count implies #[trigger] proof_offset(bytes, i) == 4 + 4
        * count + 92 * i by {
        assert(bytes.subrange(4 + 4 * i, 4 + 4 * i + 4) =~= concat_all(offsets).subrange(
            i * 4,
            i * 4 + 4,
        ));
        assert(chunks(concat_all(offsets), 4, count)[i] == offsets[i]);
        u32_le_round_trip((4 + 4 * count + 92 * i) as u32);
    }
    assert forall|i: int| 0 <= i < count implies DigestView::decode(
        #[trigger] proof_item(bytes, count, i),
    ) == Some(nodes[i]) by {
        assert(proof_item(bytes, count, i) =~= concat_all(items).subrange(i * 92, i * 92 + 92));
        assert(chunks(concat_all(items), 92, count)[i] == items[i]);
        nodes[i].decode_of_encode();
    }
    assert(unpacked_proof(bytes)->Some_0 =~= nodes);
}

/// Bytes that unpack to a proof are the packed form of that proof.
pub proof fn packed_of_unpacked_proof(bytes: Seq<u8>)
    requires
        unpacked_proof(bytes) is Some,
    ensures
        4 + 96 * unpacked_proof(bytes)->Some_0.len() == bytes.len(),
        bytes.len() <= u32::MAX,
        nodes_are_packable(unpacked_proof(bytes)->Some_0),
        packed_proof(unpacked_proof(bytes)->Some_0) == bytes,
{
    reveal(packed_proof);
    reveal(unpacked_proof);
    let count = ((bytes.len() - 4) / 96) as nat;
    let nodes = unpacked_proof(bytes)->Some_0;
    let head = bytes.subrange(4, (4 + 4 * count) as int);
    let body = bytes.subrange((4 + 4 * count) as int, bytes.len() as int);
    concat_of_chunks(head, 4, count);
    concat_of_chunks(body, 92, count);
    assert(chunks(head, 4, count) =~= proof_offsets(count)) by {
        assert forall|i: int| 0 <= i < count implies chunks(head, 4, count)[i] == proof_offsets(
            count,
        )[i] by {
            assert(head.subrange(i * 4, i * 4 + 4) =~= bytes.subrange(4 + 4 * i, 4 + 4 * i + 4));
            assert(proof_offset(bytes, i) == 4 + 4 * count + 92 * i);
            u32_le_bytes_of_le(bytes.subrange(4 + 4 * i, 4 + 4 * i + 4));
        }
    }
    assert(chunks(body, 92, count) =~= packed_nodes(nodes)) by {
        assert forall|i: int| 0 <= i < count implies chunks(body, 92, count)[i] == packed_nodes(
            nodes,
        )[i] by {
            assert(body.subrange(i * 92, i * 92 + 92) =~= proof_item(bytes, count, i));
            DigestView::encode_of_decode(proof_item(bytes, count, i));
        }
    }
    assert forall|i: int| 0 <= i < nodes.len() implies (#[trigger] nodes[i]).is_packable() by {
        DigestView::encode_of_decode(proof_item(bytes, count, i));
    }
    u32_le_bytes_of_le(bytes.subrange(0, 4));
    assert(packed_proof(nodes) =~= bytes);
}

/// The views of nodes can be packed and unpacked again.
pub proof fn digest_views_are_packable(nodes: Seq<HeaderDigest>)
    ensures
        nodes_are_packable(digest_views(nodes)),
{
    assert forall|i: int| 0 <= i < nodes.len() implies (#[trigger] digest_views(
        nodes,
    )[i]).is_packable() by {
        crate::wire::le_value_bound(nodes[i].partial_chain_work.le_bytes@);
    }
}

/// Packs a proof.
pub fn pack_proof(nodes: &Vec<HeaderDigest>) -> (r: Vec<u8>)
    requires
        4 + 96 * nodes@.len() <= u32::MAX,
    ensures
        r@ == packed_proof(digest_views(nodes@)),
{
    reveal(packed_proof);
    let ghost views = digest_views(nodes@);
    let count = nodes.len();
    let mut out: Vec<u8> = Vec::new();
    push_bytes(&mut out, u32_to_le((4 + 96 * count) as u32).as_slice());
    let ghost offsets = proof_offsets(count as nat);
    assert(offsets.take(0) =~= Seq::<Seq<u8>>::empty());
    let mut i: usize = 0;
    while i < count
        invariant
            i <= count,
            count == nodes@.len(),
            4 + 96 * count <= u32::MAX,
            offsets == proof_offsets(count as nat),
            out@ == u32_le_bytes((4 + 96 * count) as u32) + concat_all(offsets.take(i as int)),
        decreases count - i,
    {
        push_bytes(&mut out, u32_to_le((4 + 4 * count + 92 * i) as u32).as_slice());
        proof {
            assert(offsets.take(i + 1).drop_last() =~= offsets.take(i as int));
            assert(out@ =~= u32_le_bytes((4 + 96 * count) as u32) + concat_all(
                offsets.take(i + 1),
            ));
        }
        i += 1;
    }
    assert(offsets.take(count as int) =~= offsets);
    let ghost items = packed_nodes(views);
    let ghost head = out@;
    assert(items.take(0) =~= Seq::<Seq<u8>>::empty());
    let mut k: usize = 0;
    while k < count
        invariant
            k <= count,
            count == nodes@.len(),
            views == digest_views(nodes@),
            items == packed_nodes(views),
            out@ == head + concat_all(items.take(k as int)),
        decreases count - k,
    {
        let packed = nodes[k].encode();
        push_bytes(&mut out, packed.as_slice());
        proof {
            assert(items.take(k + 1).drop_last() =~= items.take(k as int));
            assert(items.take(k + 1).last() == nodes@[k as int]@.encode());
            assert(out@ =~= head + concat_all(items.take(k + 1)));
        }
        k += 1;
    }
    assert(items.take(count as int) =~= items);
    out
}

/// Unpacks a proof; `None` unless the bytes are the packed form of one.
pub fn unpack_proof(bytes: &[u8]) -> (r: Option<Vec<HeaderDigest>>)
    ensures
        match r {
            Some(nodes) => unpacked_proof(bytes@) == Some(digest_views(nodes@)),
            None => unpacked_proof(bytes@).is_none(),
        },
{
    reveal(unpacked_proof);
    let len = bytes.len();
    if len < 4 || len > u32::MAX as usize {
        proof {
            if len >= 4 {
                assert(u32_at(bytes@, 0) != bytes@.len());
            }
        }
        return None;
    }
    if (len - 4) % PROOF_ITEM_SIZE != 0 {
        return None;
    }
    let count = (len - 4) / PROOF_ITEM_SIZE;
    if read_u32_le(bytes, 0) as usize != len {
        return None;
    }
    let mut i: usize = 0;
    while i < count
        invariant
            i <= count,
            len == bytes@.len(),
            len == 4 + 96 * count,
            len <= u32::MAX,
            forall|j: int|
                0 <= j < i ==> #[trigger] proof_offset(bytes@, j) == 4 + 4 * count + 92 * j,
        decreases count - i,
    {
        if read_u32_le(bytes, 4 + 4 * i) as usize != 4 + 4 * count + 92 * i {
            proof {
                reveal(unpacked_proof);
                assert(proof_offset(bytes@, i as int) != 4 + 4 * count + 92 * i);
                assert((bytes@.len() - 4) / 96 == count);
            }
            return None;
        }
        i += 1;
    }
    let mut nodes: Vec<HeaderDigest> = Vec::new();
    let mut k: usize = 0;
    while k < count
        invariant
            k <= count,
            len == bytes@.len(),
            len == 4 + 96 * count,
            nodes@.len() == k,
            forall|j: int|
                0 <= j < k ==> DigestView::decode(
                    #[trigger] proof_item(bytes@, count as nat, j),
                ) == Some(nodes@[j]@),
        decreases count - k,
    {
        let from = 4 + 4 * count + 92 * k;
        let item = copy_range(bytes, from, from + HEADER_DIGEST_SIZE);
        match HeaderDigest::decode(item.as_slice()) {
            Some(node) => {
                nodes.push(node);
            },
            None => {
                proof {
                    reveal(unpacked_proof);
                    assert(item@ == proof_item(bytes@, count as nat, k as int));
                    assert((bytes@.len() - 4) / 96 == count);
                }
                return None;
            },
        }
        k += 1;
    }
    assert(unpacked_proof(bytes@)->Some_0 =~= digest_views(nodes@));
    Some(nodes)
}

} // verus!
