//! The packed binary forms of the cells and witnesses: tables whose head
//! gives the full size and the offset of each field, numbers little-endian.

use vstd::prelude::*;
use crate::client::{
    ClientView, SpvBootstrap, SpvClient, SpvInfo, TargetAdjustInfo, TARGET_ADJUST_INFO_SIZE,
};
use crate::constants::{FLAG_CHAIN_TYPE_MASK, FLAG_RESERVED_MASK};
use crate::hash::sha256d_digest;
use crate::header::{push_bytes, HEADER_SIZE};
use crate::mmr::{DigestView, HeaderDigest, HEADER_DIGEST_SIZE};
use crate::uint256::U256;
use crate::wire::{
    le_bytes, le_bytes_len, le_bytes_of_value, le_value, le_value_bound, le_value_of_bytes, pow256,
    read_u32_le, u32_le_bytes, u32_le_bytes_of_le, u32_le_round_trip, u32_of_le, u32_to_le,
};

verus! {

/// The `u32` that the four bytes from `at` on spell.
pub open spec fn u32_at(bytes: Seq<u8>, at: int) -> u32 {
    u32_of_le(bytes.subrange(at, at + 4))
}

/// Copies the bytes from `from` up to `to`.
pub fn copy_range(bytes: &[u8], from: usize, to: usize) -> (r: Vec<u8>)
    requires
        from <= to <= bytes@.len(),
    ensures
        r@ == bytes@.subrange(from as int, to as int),
{
    let mut out: Vec<u8> = Vec::with_capacity(to - from);
    let mut i: usize = from;
    while i < to
        invariant
            from <= i <= to <= bytes@.len(),
            out@ == bytes@.subrange(from as int, i as int),
        decreases to - i,
    {
        out.push(bytes[i]);
        assert(out@ =~= bytes@.subrange(from as int, i + 1));
        i += 1;
    }
    out
}

/// Reads the eight bytes that start at `at`.
fn read_adjust_info(bytes: &[u8], at: usize) -> (r: TargetAdjustInfo)
    requires
        at + 8 <= bytes@.len(),
    ensures
        r@ == bytes@.subrange(at as int, at + 8),
{
    let len = bytes.len();
    let r = TargetAdjustInfo {
        bytes: [
            bytes[at],
            bytes[at + 1],
            bytes[at + 2],
            bytes[at + 3],
            bytes[at + 4],
            bytes[at + 5],
            bytes[at + 6],
            bytes[at + 7],
        ],
    };
    assert(r@ =~= bytes@.subrange(at as int, at + 8));
    r
}

impl DigestView {
    /// Whether the node can be packed and unpacked again: the work fits in
    /// 256 bits and the hash has 32 bytes.
    pub open spec fn is_packable(self) -> bool {
        self.partial_chain_work < pow256(32) && self.children_hash.len() == 32
    }

    /// The node that packed bytes hold; `None` unless they are 92 bytes that
    /// start with the head of every packed node.
    pub open spec fn decode(bytes: Seq<u8>) -> Option<DigestView> {
        if bytes.len() == HEADER_DIGEST_SIZE && u32_at(bytes, 0) == 92 && u32_at(bytes, 4) == 20
            && u32_at(bytes, 8) == 24 && u32_at(bytes, 12) == 28 && u32_at(bytes, 16) == 60 {
            Some(
                DigestView {
                    min_height: u32_at(bytes, 20),
                    max_height: u32_at(bytes, 24),
                    partial_chain_work: le_value(bytes.subrange(28, 60)),
                    children_hash: bytes.subrange(60, 92),
                },
            )
        } else {
            None
        }
    }

    /// Unpacking a packed node gives the node back.
    pub proof fn decode_of_encode(self)
        requires
            self.is_packable(),
        ensures
            self.encode().len() == HEADER_DIGEST_SIZE,
            DigestView::decode(self.encode()) == Some(self),
    {
        let bytes = self.encode();
        le_bytes_len(self.partial_chain_work, 32);
        le_value_of_bytes(self.partial_chain_work, 32);
        assert(bytes.len() == 92);
        assert(bytes.subrange(0, 4) =~= u32_le_bytes(92));
        assert(bytes.subrange(4, 8) =~= u32_le_bytes(20));
        assert(bytes.subrange(8, 12) =~= u32_le_bytes(24));
        assert(bytes.subrange(12, 16) =~= u32_le_bytes(28));
        assert(bytes.subrange(16, 20) =~= u32_le_bytes(60));
        assert(bytes.subrange(20, 24) =~= u32_le_bytes(self.min_height));
        assert(bytes.subrange(24, 28) =~= u32_le_bytes(self.max_height));
        assert(bytes.subrange(28, 60) =~= le_bytes(self.partial_chain_work, 32));
        assert(bytes.subrange(60, 92) =~= self.children_hash);
        u32_le_round_trip(92);
        u32_le_round_trip(20);
        u32_le_round_trip(24);
        u32_le_round_trip(28);
        u32_le_round_trip(60);
        u32_le_round_trip(self.min_height);
        u32_le_round_trip(self.max_height);
    }

    /// Bytes that unpack to a node are the packed form of that node.
    pub proof fn encode_of_decode(bytes: Seq<u8>)
        requires
            DigestView::decode(bytes) is Some,
        ensures
            DigestView::decode(bytes)->Some_0.is_packable(),
            DigestView::decode(bytes)->Some_0.encode() == bytes,
    {
        let node = DigestView::decode(bytes)->Some_0;
        u32_le_bytes_of_le(bytes.subrange(0, 4));
        u32_le_bytes_of_le(bytes.subrange(4, 8));
        u32_le_bytes_of_le(bytes.subrange(8, 12));
        u32_le_bytes_of_le(bytes.subrange(12, 16));
        u32_le_bytes_of_le(bytes.subrange(16, 20));
        u32_le_bytes_of_le(bytes.subrange(20, 24));
        u32_le_bytes_of_le(bytes.subrange(24, 28));
        le_bytes_of_value(bytes.subrange(28, 60));
        le_value_bound(bytes.subrange(28, 60));
        assert(node.encode() =~= bytes);
    }
}

impl HeaderDigest {
    /// Unpacks a node; `None` unless the bytes are the packed form of one.
    pub fn decode(bytes: &[u8]) -> (r: Option<HeaderDigest>)
        ensures
            match r {
                Some(node) => DigestView::decode(bytes@) == Some(node@),
                None => DigestView::decode(bytes@).is_none(),
            },
    {
        if bytes.len() != HEADER_DIGEST_SIZE {
            return None;
        }
        if read_u32_le(bytes, 0) != 92 || read_u32_le(bytes, 4) != 20 || read_u32_le(bytes, 8)
            != 24 || read_u32_le(bytes, 12) != 28 || read_u32_le(bytes, 16) != 60 {
            return None;
        }
        Some(
            HeaderDigest {
                min_height: read_u32_le(bytes, 20),
                max_height: read_u32_le(bytes, 24),
                partial_chain_work: U256::read(bytes, 28),
                children_hash: crate::hash::Hash::read(bytes, 60),
            },
        )
    }
}

/// A borrowed packed node, of any length.
#[derive(Clone, Copy, Debug)]
pub struct HeaderDigestReader<'r> {
    pub data: &'r [u8],
}

impl<'r> HeaderDigestReader<'r> {
    /// Calculates the hash by which a parent commits to the packed node: the
    /// double SHA-256 of the bytes.
    pub fn calc_mmr_hash(&self) -> (r: crate::hash::Hash)
        ensures
            r@ == crate::hash::sha256d(self.data@),
    {
        sha256d_digest(self.data)
    }
}

/// Length of a packed client.
pub const SPV_CLIENT_SIZE: usize = 153;

/// The first 20 bytes of every packed client: its size, 153, and the offsets
/// of its four fields, 20, 21, 53 and 145.
pub open spec fn client_table_head() -> Seq<u8> {
    u32_le_bytes(153) + u32_le_bytes(20) + u32_le_bytes(21) + u32_le_bytes(53) + u32_le_bytes(145)
}

impl ClientView {
    /// Whether the client can be packed and unpacked again: the root can,
    /// the tip block hash has 32 bytes and the target adjust info eight.
    pub open spec fn is_packable(self) -> bool {
        &&& self.headers_mmr_root.is_packable()
        &&& self.tip_block_hash.len() == 32
        &&& self.target_adjust_info.len() == TARGET_ADJUST_INFO_SIZE
    }

    /// The packed form of the client: a table of the id, the tip block hash,
    /// the packed root and the packed target adjust info.
    pub open spec fn encode(self) -> Seq<u8> {
        client_table_head() + seq![self.id] + self.tip_block_hash + self.headers_mmr_root.encode()
            + self.target_adjust_info
    }

    /// The client that packed bytes hold; `None` unless they are 153 bytes
    /// that start with the head of every packed client and hold a packed
    /// root.
    pub open spec fn decode(bytes: Seq<u8>) -> Option<ClientView> {
        if bytes.len() == SPV_CLIENT_SIZE && u32_at(bytes, 0) == 153 && u32_at(bytes, 4) == 20
            && u32_at(bytes, 8) == 21 && u32_at(bytes, 12) == 53 && u32_at(bytes, 16) == 145 {
            match DigestView::decode(bytes.subrange(53, 145)) {
                Some(root) => Some(
                    ClientView {
                        id: bytes[20],
                        tip_block_hash: bytes.subrange(21, 53),
                        headers_mmr_root: root,
                        target_adjust_info: bytes.subrange(145, 153),
                    },
                ),
                None => None,
            }
        } else {
            None
        }
    }

    /// Unpacking a packed client gives the client back.
    pub proof fn decode_of_encode(self)
        requires
            self.is_packable(),
        ensures
            self.encode().len() == SPV_CLIENT_SIZE,
            ClientView::decode(self.encode()) == Some(self),
    {
        let bytes = self.encode();
        self.headers_mmr_root.decode_of_encode();
        assert(bytes.len() == 153);
        assert(bytes.subrange(0, 4) =~= u32_le_bytes(153));
        assert(bytes.subrange(4, 8) =~= u32_le_bytes(20));
        assert(bytes.subrange(8, 12) =~= u32_le_bytes(21));
        assert(bytes.subrange(12, 16) =~= u32_le_bytes(53));
        assert(bytes.subrange(16, 20) =~= u32_le_bytes(145));
        assert(bytes[20] == self.id);
        assert(bytes.subrange(21, 53) =~= self.tip_block_hash);
        assert(bytes.subrange(53, 145) =~= self.headers_mmr_root.encode());
        assert(bytes.subrange(145, 153) =~= self.target_adjust_info);
        u32_le_round_trip(153);
        u32_le_round_trip(20);
        u32_le_round_trip(21);
        u32_le_round_trip(53);
        u32_le_round_trip(145);
    }

    /// Bytes that unpack to a client are the packed form of that client.
    pub proof fn encode_of_decode(bytes: Seq<u8>)
        requires
            ClientView::decode(bytes) is Some,
        ensures
            ClientView::decode(bytes)->Some_0.is_packable(),
            ClientView::decode(bytes)->Some_0.encode() == bytes,
    {
        let client = ClientView::decode(bytes)->Some_0;
        DigestView::encode_of_decode(bytes.subrange(53, 145));
        u32_le_bytes_of_le(bytes.subrange(0, 4));
        u32_le_bytes_of_le(bytes.subrange(4, 8));
        u32_le_bytes_of_le(bytes.subrange(8, 12));
        u32_le_bytes_of_le(bytes.subrange(12, 16));
        u32_le_bytes_of_le(bytes.subrange(16, 20));
        assert(client.encode() =~= bytes);
    }
}

impl SpvClient {
    /// The packed form of the client.
    pub fn encode(&self) -> (r: Vec<u8>)
        ensures
            r@ == self@.encode(),
            r@.len() == SPV_CLIENT_SIZE,
    {
        let mut out: Vec<u8> = Vec::with_capacity(SPV_CLIENT_SIZE);
        push_bytes(&mut out, u32_to_le(153).as_slice());
        push_bytes(&mut out, u32_to_le(20).as_slice());
        push_bytes(&mut out, u32_to_le(21).as_slice());
        push_bytes(&mut out, u32_to_le(53).as_slice());
        push_bytes(&mut out, u32_to_le(145).as_slice());
        out.push(self.id);
        push_bytes(&mut out, self.tip_block_hash.bytes.as_slice());
        let root = self.headers_mmr_root.encode();
        push_bytes(&mut out, root.as_slice());
        push_bytes(&mut out, self.target_adjust_info.bytes.as_slice());
        assert(out@ =~= self@.encode());
        out
    }

    /// Unpacks a client; `None` unless the bytes are the packed form of one.
    pub fn decode(bytes: &[u8]) -> (r: Option<SpvClient>)
        ensures
            match r {
                Some(client) => ClientView::decode(bytes@) == Some(client@),
                None => ClientView::decode(bytes@).is_none(),
            },
    {
        if bytes.len() != SPV_CLIENT_SIZE {
            return None;
        }
        if read_u32_le(bytes, 0) != 153 || read_u32_le(bytes, 4) != 20 || read_u32_le(bytes, 8)
            != 21 || read_u32_le(bytes, 12) != 53 || read_u32_le(bytes, 16) != 145 {
            return None;
        }
        let packed_root = copy_range(bytes, 53, 145);
        let headers_mmr_root = match HeaderDigest::decode(packed_root.as_slice()) {
            Some(root) => root,
            None => {
                return None;
            },
        };
        Some(
            SpvClient {
                id: bytes[20],
                tip_block_hash: crate::hash::Hash::read(bytes, 21),
                headers_mmr_root,
                target_adjust_info: read_adjust_info(bytes, 145),
            },
        )
    }
}

impl SpvInfo {
    /// The packed form of the info cell: the one byte of the id.
    pub open spec fn encode_spec(self) -> Seq<u8> {
        seq![self.tip_client_id]
    }

    /// The info cell that packed bytes hold; `None` unless there is one byte.
    pub open spec fn decode_spec(bytes: Seq<u8>) -> Option<SpvInfo> {
        if bytes.len() == 1 {
            Some(SpvInfo { tip_client_id: bytes[0] })
        } else {
            None
        }
    }

    /// The packed form of the info cell.
    pub fn encode(&self) -> (r: Vec<u8>)
        ensures
            r@ == self.encode_spec(),
    {
        let mut out: Vec<u8> = Vec::with_capacity(1);
        out.push(self.tip_client_id);
        assert(out@ =~= self.encode_spec());
        out
    }

    /// Unpacks an info cell; `None` unless there is one byte.
    pub fn decode(bytes: &[u8]) -> (r: Option<SpvInfo>)
        ensures
            r == SpvInfo::decode_spec(bytes@),
    {
        if bytes.len() != 1 {
            return None;
        }
        Some(SpvInfo { tip_client_id: bytes[0] })
    }

    /// Unpacking a packed info cell gives it back, and bytes that unpack are
    /// the packed form of what they unpack to.
    pub proof fn round_trip(self, bytes: Seq<u8>)
        ensures
            SpvInfo::decode_spec(self.encode_spec()) == Some(self),
            SpvInfo::decode_spec(bytes) matches Some(info) ==> info.encode_spec() == bytes,
    {
        if bytes.len() == 1 {
            assert(seq![bytes[0]] =~= bytes);
        }
    }
}

/// Length of packed type args.
pub const SPV_TYPE_ARGS_SIZE: usize = 50;

/// The args of the type script of the info cell and the client cells.
#[derive(Clone, Copy, Debug)]
pub struct SpvTypeArgs {
    /// The id that ties the cells of one instance together.
    pub type_id: crate::hash::Hash,
    /// The number of client cells in the ring; the info cell is not counted.
    pub clients_count: u8,
    /// The flag byte: the two highest bits name the chain (`00` mainnet, `10`
    /// testnet, `01` signet), the lowest bit switches the difficulty check
    /// off, and the bits between are reserved.
    pub flags: u8,
}

/// What type args hold, as mathematical values.
pub struct TypeArgsView {
    pub type_id: Seq<u8>,
    pub clients_count: u8,
    pub flags: u8,
}

/// Whether a flag byte is one that the client knows: the chain type is not
/// the reserved one and every reserved bit is zero.
pub open spec fn flags_are_recognised(flags: u8) -> bool {
    flags & FLAG_CHAIN_TYPE_MASK != FLAG_CHAIN_TYPE_MASK && flags & FLAG_RESERVED_MASK == 0
}

/// Whether a flag byte is one that the client knows.
pub fn recognises_flags(flags: u8) -> (r: bool)
    ensures
        r == flags_are_recognised(flags),
{
    flags & FLAG_CHAIN_TYPE_MASK != FLAG_CHAIN_TYPE_MASK && flags & FLAG_RESERVED_MASK == 0
}

/// The first 16 bytes of all packed type args: their size, 50, and the
/// offsets of the three fields, 16, 48 and 49.
pub open spec fn type_args_table_head() -> Seq<u8> {
    u32_le_bytes(50) + u32_le_bytes(16) + u32_le_bytes(48) + u32_le_bytes(49)
}

impl View for SpvTypeArgs {
    type V = TypeArgsView;

    open spec fn view(&self) -> TypeArgsView {
        TypeArgsView {
            type_id: self.type_id@,
            clients_count: self.clients_count,
            flags: self.flags,
        }
    }
}

impl TypeArgsView {
    /// Whether the type args can be packed and unpacked again: the type id
    /// has 32 bytes and the flag byte is one that the client knows.
    pub open spec fn is_packable(self) -> bool {
        self.type_id.len() == 32 && flags_are_recognised(self.flags)
    }

    /// The packed form of the type args: a table of the type id, the number
    /// of clients and the flag byte.
    pub open spec fn encode(self) -> Seq<u8> {
        type_args_table_head() + self.type_id + seq![self.clients_count] + seq![self.flags]
    }

    /// The type args that packed bytes hold; `None` unless they are 50 bytes
    /// that start with the head of all packed type args and hold a flag byte
    /// that the client knows.
    pub open spec fn decode(bytes: Seq<u8>) -> Option<TypeArgsView> {
        if bytes.len() == SPV_TYPE_ARGS_SIZE && u32_at(bytes, 0) == 50 && u32_at(bytes, 4) == 16
            && u32_at(bytes, 8) == 48 && u32_at(bytes, 12) == 49 && flags_are_recognised(
            bytes[49],
        ) {
            Some(
                TypeArgsView {
                    type_id: bytes.subrange(16, 48),
                    clients_count: bytes[48],
                    flags: bytes[49],
                },
            )
        } else {
            None
        }
    }

    /// Unpacking packed type args gives them back.
    pub proof fn decode_of_encode(self)
        requires
            self.is_packable(),
        ensures
            TypeArgsView::decode(self.encode()) == Some(self),
    {
        let bytes = self.encode();
        assert(bytes.len() == 50);
        assert(bytes.subrange(0, 4) =~= u32_le_bytes(50));
        assert(bytes.subrange(4, 8) =~= u32_le_bytes(16));
        assert(bytes.subrange(8, 12) =~= u32_le_bytes(48));
        assert(bytes.subrange(12, 16) =~= u32_le_bytes(49));
        assert(bytes.subrange(16, 48) =~= self.type_id);
        assert(bytes[48] == self.clients_count);
        assert(bytes[49] == self.flags);
        u32_le_round_trip(50);
        u32_le_round_trip(16);
        u32_le_round_trip(48);
        u32_le_round_trip(49);
    }

    /// Bytes that unpack to type args are the packed form of those.
    pub proof fn encode_of_decode(bytes: Seq<u8>)
        requires
            TypeArgsView::decode(bytes) is Some,
        ensures
            TypeArgsView::decode(bytes)->Some_0.is_packable(),
            TypeArgsView::decode(bytes)->Some_0.encode() == bytes,
    {
        let args = TypeArgsView::decode(bytes)->Some_0;
        u32_le_bytes_of_le(bytes.subrange(0, 4));
        u32_le_bytes_of_le(bytes.subrange(4, 8));
        u32_le_bytes_of_le(bytes.subrange(8, 12));
        u32_le_bytes_of_le(bytes.subrange(12, 16));
        assert(args.encode() =~= bytes);
    }
}

impl SpvTypeArgs {
    /// The packed form of the type args.
    pub fn encode(&self) -> (r: Vec<u8>)
        ensures
            r@ == self@.encode(),
    {
        let mut out: Vec<u8> = Vec::with_capacity(SPV_TYPE_ARGS_SIZE);
        push_bytes(&mut out, u32_to_le(50).as_slice());
        push_bytes(&mut out, u32_to_le(16).as_slice());
        push_bytes(&mut out, u32_to_le(48).as_slice());
        push_bytes(&mut out, u32_to_le(49).as_slice());
        push_bytes(&mut out, self.type_id.bytes.as_slice());
        out.push(self.clients_count);
        out.push(self.flags);
        assert(out@ =~= self@.encode());
        out
    }

    /// Unpacks type args; `None` unless the bytes are the packed form of type
    /// args with a flag byte that the client knows.
    pub fn decode(bytes: &[u8]) -> (r: Option<SpvTypeArgs>)
        ensures
            match r {
                Some(args) => TypeArgsView::decode(bytes@) == Some(args@),
                None => TypeArgsView::decode(bytes@).is_none(),
            },
    {
        if bytes.len() != SPV_TYPE_ARGS_SIZE {
            return None;
        }
        if read_u32_le(bytes, 0) != 50 || read_u32_le(bytes, 4) != 16 || read_u32_le(bytes, 8)
            != 48 || read_u32_le(bytes, 12) != 49 {
            return None;
        }
        if !recognises_flags(bytes[49]) {
            return None;
        }
        Some(
            SpvTypeArgs {
                type_id: crate::hash::Hash::read(bytes, 16),
                clients_count: bytes[48],
                flags: bytes[49],
            },
        )
    }
}

/// Length of packed bootstrap data.
pub const SPV_BOOTSTRAP_SIZE: usize = 96;

/// The packed form of the data from which a client is bootstrapped: a table
/// of the height and the 80 bytes of the header. Its head gives the size, 96,
/// and the offsets 12 and 16.
pub open spec fn bootstrap_bytes(height: u32, header: Seq<u8>) -> Seq<u8> {
    u32_le_bytes(96) + u32_le_bytes(12) + u32_le_bytes(16) + u32_le_bytes(height) + header
}

/// The height and the encoded header that packed bootstrap data hold; `None`
/// unless there are 96 bytes that start with the head of all packed
/// bootstrap data.
pub open spec fn bootstrap_fields(bytes: Seq<u8>) -> Option<(u32, Seq<u8>)> {
    if bytes.len() == SPV_BOOTSTRAP_SIZE && u32_at(bytes, 0) == 96 && u32_at(bytes, 4) == 12
        && u32_at(bytes, 8) == 16 {
        Some((u32_at(bytes, 12), bytes.subrange(16, 96)))
    } else {
        None
    }
}

/// Unpacking packed bootstrap data gives the height and the header back.
pub proof fn bootstrap_fields_of_bytes(height: u32, header: Seq<u8>)
    requires
        header.len() == HEADER_SIZE,
    ensures
        bootstrap_fields(bootstrap_bytes(height, header)) == Some((height, header)),
{
    let bytes = bootstrap_bytes(height, header);
    assert(bytes.subrange(0, 4) =~= u32_le_bytes(96));
    assert(bytes.subrange(4, 8) =~= u32_le_bytes(12));
    assert(bytes.subrange(8, 12) =~= u32_le_bytes(16));
    assert(bytes.subrange(12, 16) =~= u32_le_bytes(height));
    assert(bytes.subrange(16, 96) =~= header);
    u32_le_round_trip(96);
    u32_le_round_trip(12);
    u32_le_round_trip(16);
    u32_le_round_trip(height);
}

/// Bytes that unpack to bootstrap data are the packed form of those.
pub proof fn bootstrap_bytes_of_fields(bytes: Seq<u8>)
    requires
        bootstrap_fields(bytes) is Some,
    ensures
        bootstrap_fields(bytes)->Some_0.1.len() == HEADER_SIZE,
        bootstrap_bytes(bootstrap_fields(bytes)->Some_0.0, bootstrap_fields(bytes)->Some_0.1)
            == bytes,
{
    let fields = bootstrap_fields(bytes)->Some_0;
    u32_le_bytes_of_le(bytes.subrange(0, 4));
    u32_le_bytes_of_le(bytes.subrange(4, 8));
    u32_le_bytes_of_le(bytes.subrange(8, 12));
    u32_le_bytes_of_le(bytes.subrange(12, 16));
    assert(bootstrap_bytes(fields.0, fields.1) =~= bytes);
}

impl SpvBootstrap {
    /// The packed form of the bootstrap data. The header must have its 80
    /// bytes.
    pub fn encode(&self) -> (r: Vec<u8>)
        requires
            self.header@.len() == HEADER_SIZE,
        ensures
            r@ == bootstrap_bytes(self.height, self.header@),
    {
        let mut out: Vec<u8> = Vec::with_capacity(SPV_BOOTSTRAP_SIZE);
        push_bytes(&mut out, u32_to_le(96).as_slice());
        push_bytes(&mut out, u32_to_le(12).as_slice());
        push_bytes(&mut out, u32_to_le(16).as_slice());
        push_bytes(&mut out, u32_to_le(self.height).as_slice());
        push_bytes(&mut out, self.header.as_slice());
        assert(out@ =~= bootstrap_bytes(self.height, self.header@));
        out
    }

    /// Unpacks bootstrap data; `None` unless the bytes are the packed form of
    /// a height and an 80-byte header.
    pub fn decode(bytes: &[u8]) -> (r: Option<SpvBootstrap>)
        ensures
            match r {
                Some(bootstrap) => bootstrap_fields(bytes@) == Some(
                    (bootstrap.height, bootstrap.header@),
                ),
                None => bootstrap_fields(bytes@).is_none(),
            },
    {
        if bytes.len() != SPV_BOOTSTRAP_SIZE {
            return None;
        }
        if read_u32_le(bytes, 0) != 96 || read_u32_le(bytes, 4) != 12 || read_u32_le(bytes, 8)
            != 16 {
            return None;
        }
        Some(SpvBootstrap { height: read_u32_le(bytes, 12), header: copy_range(bytes, 16, 96) })
    }
}

} // verus!
