use crate::error::OmniError;
use crate::varint::{
    decode_varint, encode_varint, law_varint_roundtrip, leb_encode, varint_result,
};
use smallvec::SmallVec;
use vstd::prelude::*;
use vstd::std_specs::cmp::PartialEqSpecImpl;

pub mod namespace;
pub mod type_id;
pub mod types;

verus! {

/// Magic number: `[0x04][OMNI]`, a length of 4 followed by the ASCII bytes of "OMNI".
pub const MAGIC: [u8; 5] = [0x04, 0x4F, 0x4D, 0x4E, 0x49];

pub open spec fn magic_bytes() -> Seq<u8> {
    seq![0x04u8, 0x4Fu8, 0x4Du8, 0x4Eu8, 0x49u8]
}

// ============================================================================
// The type list: up to 8 varints on the stack, then the heap
// ============================================================================

/// The values of a block type, held in a `smallvec::SmallVec<u64, 8>`.
#[verifier::external_body]
pub struct BlockTypeVec {
    items: SmallVec<u64, 8>,
}

/// The values a `BlockTypeVec` holds, in order.
pub uninterp spec fn block_type_items(v: BlockTypeVec) -> Seq<u64>;

impl BlockTypeVec {
    /// `SmallVec::from(Vec)`: the small vector holds the vector's items in the
    /// same order.
    #[verifier::external_body]
    pub fn from_vec(values: Vec<u64>) -> (r: BlockTypeVec)
        ensures
            block_type_items(r) == values@,
    {
        BlockTypeVec { items: SmallVec::from(values) }
    }

    /// `<SmallVec as AsRef<[u64]>>::as_ref`: the items as a slice.
    #[verifier::external_body]
    pub fn as_slice(&self) -> (r: &[u64])
        ensures
            r@ == block_type_items(*self),
    {
        self.items.as_ref()
    }
}

impl Clone for BlockTypeVec {
    /// `SmallVec::clone`: a new small vector with the same items.
    #[verifier::external_body]
    fn clone(&self) -> (r: BlockTypeVec)
        ensures
            block_type_items(r) == block_type_items(*self),
    {
        BlockTypeVec { items: self.items.clone() }
    }
}

impl core::fmt::Debug for BlockTypeVec {
    /// `<SmallVec as Debug>::fmt`: the items as a list, `[1, 0, 42]`.
    #[verifier::external_body]
    fn fmt(&self, f: &mut core::fmt::Formatter<'_>) -> core::fmt::Result {
        core::fmt::Debug::fmt(&self.items, f)
    }
}

/// Two lists are equal when they hold the same values in the same order.
impl PartialEq for BlockTypeVec {
    fn eq(&self, other: &BlockTypeVec) -> (r: bool) {
        let a = self.as_slice();
        let b = other.as_slice();
        if a.len() != b.len() {
            return false;
        }
        let mut i: usize = 0;
        while i < a.len()
            invariant
                i <= a@.len(),
                a@.len() == b@.len(),
                a@ == block_type_items(*self),
                b@ == block_type_items(*other),
                forall|k: int| 0 <= k < i ==> a@[k] == b@[k],
            decreases a@.len() - i,
        {
            if a[i] != b[i] {
                return false;
            }
            i = i + 1;
        }
        assert(a@ =~= b@);
        true
    }
}

impl PartialEqSpecImpl for BlockTypeVec {
    open spec fn obeys_eq_spec() -> bool {
        true
    }

    open spec fn eq_spec(&self, other: &BlockTypeVec) -> bool {
        block_type_items(*self) == block_type_items(*other)
    }
}


// ============================================================================
// Wire format of a block type: [count][value 1]..[value n], all varints
// ============================================================================

/// The varints of `values`, one after another.
pub open spec fn encode_values(values: Seq<u64>) -> Seq<u8>
    decreases values.len(),
{
    if values.len() == 0 {
        Seq::empty()
    } else {
        leb_encode(values[0] as nat) + encode_values(values.drop_first())
    }
}

/// The bytes of a block type: the number of values, then the values.
pub open spec fn block_type_bytes(values: Seq<u64>) -> Seq<u8> {
    leb_encode(values.len()) + encode_values(values)
}

/// Reading `k` varints starting at `pos`: the values and the position after them,
/// or the first error.
pub open spec fn decode_values(bytes: Seq<u8>, pos: nat, k: nat) -> Result<(Seq<u64>, nat), OmniError>
    decreases k,
{
    if k == 0 {
        Ok((Seq::empty(), pos))
    } else {
        match varint_result(bytes.skip(pos as int)) {
            Err(e) => Err(e),
            Ok((v, n)) => match decode_values(bytes, pos + n as nat, (k - 1) as nat) {
                Ok((vs, p)) => Ok((seq![v] + vs, p)),
                Err(e) => Err(e),
            },
        }
    }
}

/// Reading a block type from the front of `bytes`: its values and the number of
/// bytes it took. A count of zero is refused.
pub open spec fn block_type_decode(bytes: Seq<u8>) -> Result<(Seq<u64>, nat), OmniError> {
    match varint_result(bytes) {
        Err(e) => Err(e),
        Ok((count, n)) => if count == 0 {
            Err(OmniError::EmptyBlockType)
        } else {
            decode_values(bytes, n as nat, count as nat)
        },
    }
}

/// Puts values in front of a successful result.
pub open spec fn prepend_values(
    vs: Seq<u64>,
    r: Result<(Seq<u64>, nat), OmniError>,
) -> Result<(Seq<u64>, nat), OmniError> {
    match r {
        Ok((ws, p)) => Ok((vs + ws, p)),
        Err(e) => Err(e),
    }
}

proof fn lemma_encode_values_push(values: Seq<u64>, v: u64)
    ensures
        encode_values(values.push(v)) == encode_values(values) + leb_encode(v as nat),
    decreases values.len(),
{
    if values.len() == 0 {
        assert(values.push(v).drop_first() =~= Seq::<u64>::empty());
        assert(values.push(v)[0] == v);
        assert(encode_values(Seq::<u64>::empty()) == Seq::<u8>::empty());
        assert(encode_values(values) == Seq::<u8>::empty());
        assert(encode_values(values.push(v)) =~= leb_encode(v as nat));
    } else {
        assert(values.push(v).drop_first() =~= values.drop_first().push(v));
        lemma_encode_values_push(values.drop_first(), v);
        assert(encode_values(values.push(v)) =~= encode_values(values) + leb_encode(v as nat));
    }
}

proof fn lemma_decode_values_encode(values: Seq<u64>, bytes: Seq<u8>, pos: nat, rest: Seq<u8>)
    requires
        pos <= bytes.len(),
        bytes.skip(pos as int) == encode_values(values) + rest,
    ensures
        decode_values(bytes, pos, values.len()) == Ok::<(Seq<u64>, nat), OmniError>(
            (values, pos + encode_values(values).len()),
        ),
    decreases values.len(),
{
    if values.len() == 0 {
        assert(values =~= Seq::<u64>::empty());
    } else {
        let v = values[0];
        let e = leb_encode(v as nat);
        let tail = encode_values(values.drop_first()) + rest;
        assert(bytes.skip(pos as int) =~= e + tail);
        law_varint_roundtrip(v, tail);
        let p2 = pos + e.len();
        assert(bytes.skip(pos as int).len() == e.len() + tail.len());
        assert forall|j: int| 0 <= j < tail.len() implies bytes.skip(p2 as int)[j] == tail[j] by {
            assert(bytes.skip(pos as int)[e.len() + j] == (e + tail)[e.len() + j]);
        }
        assert(bytes.skip(p2 as int) =~= tail);
        lemma_decode_values_encode(values.drop_first(), bytes, p2, rest);
        assert(seq![v] + values.drop_first() =~= values);
    }
}

/// Round trip of block types: reading the bytes of a non-empty list of values
/// gives back the values and consumes exactly those bytes, whatever follows.
pub proof fn law_block_type_roundtrip(values: Seq<u64>, rest: Seq<u8>)
    requires
        values.len() >= 1,
        values.len() <= u64::MAX,
    ensures
        block_type_decode(block_type_bytes(values) + rest) == Ok::<(Seq<u64>, nat), OmniError>(
            (values, block_type_bytes(values).len()),
        ),
{
    let c = leb_encode(values.len());
    let bytes = block_type_bytes(values) + rest;
    let tail = encode_values(values) + rest;
    assert(bytes =~= c + tail);
    law_varint_roundtrip(values.len() as u64, tail);
    assert(bytes.skip(c.len() as int) =~= tail);
    lemma_decode_values_encode(values, bytes, c.len(), rest);
}

// ============================================================================
// BlockType
// ============================================================================

/// The type of a block: an ordered list of varints.
///
/// Data block: `[1, namespace, type_id]`, checksum: `[2, algo_id]`,
/// compression: `[3, algo_id]`, encryption: `[4, algo_id]`, meta: `[5]`,
/// index: `[6]`.
#[derive(Debug, PartialEq)]
pub struct BlockType(pub BlockTypeVec);

impl Clone for BlockType {
    fn clone(&self) -> (r: BlockType)
        ensures
            r@ == self@,
    {
        BlockType(self.0.clone())
    }
}

impl View for BlockType {
    type V = Seq<u64>;

    open spec fn view(&self) -> Seq<u64> {
        block_type_items(self.0)
    }
}

impl BlockType {
    /// A block type with the given values; at least one is required.
    pub fn new(values: Vec<u64>) -> (r: Result<BlockType, OmniError>)
        ensures
            values@.len() == 0 ==> r matches Err(OmniError::EmptyBlockType),
            values@.len() > 0 ==> (r matches Ok(bt) && bt@ == values@),
    {
        if values.len() == 0 {
            return Err(OmniError::EmptyBlockType);
        }
        Ok(BlockType(BlockTypeVec::from_vec(values)))
    }

    /// The first value: the kind of block.
    pub fn primary(&self) -> (r: u64)
        requires
            self@.len() > 0,
        ensures
            r == self@[0],
    {
        self.0.as_slice()[0]
    }

    /// Serialises as `[count][value 1][value 2]..[value n]`.
    pub fn encode(&self) -> (r: Vec<u8>)
        ensures
            r@ == block_type_bytes(self@),
    {
        let values = self.0.as_slice();
        let mut out = encode_varint(values.len() as u64);
        let mut i: usize = 0;
        proof {
            assert(values@.take(0) =~= Seq::<u64>::empty());
            assert(out@ + encode_values(Seq::<u64>::empty()) =~= out@);
        }
        while i < values.len()
            invariant
                i <= values@.len(),
                values@ == self@,
                out@ == leb_encode(values@.len()) + encode_values(values@.take(i as int)),
            decreases values@.len() - i,
        {
            let mut bytes = encode_varint(values[i]);
            proof {
                lemma_encode_values_push(values@.take(i as int), values@[i as int]);
                assert(values@.take(i + 1) =~= values@.take(i as int).push(values@[i as int]));
            }
            out.append(&mut bytes);
            i = i + 1;
        }
        assert(values@.take(values@.len() as int) =~= values@);
        out
    }

    /// Reads a block type from the front of `bytes`: the type and the number of
    /// bytes it took.
    pub fn decode(bytes: &[u8]) -> (r: Result<(BlockType, usize), OmniError>)
        ensures
            match block_type_decode(bytes@) {
                Ok((vs, n)) => r matches Ok((bt, m)) && bt@ == vs && m == n,
                Err(e) => r matches Err(e2) && e2 == e,
            },
    {
        let (count, mut pos) = match decode_varint(bytes) {
            Ok(x) => x,
            Err(e) => return Err(e),
        };
        if count == 0 {
            return Err(OmniError::EmptyBlockType);
        }
        let mut vec: Vec<u64> = Vec::new();
        let mut i: u64 = 0;
        let ghost p0 = pos as nat;
        while i < count
            invariant
                0 <= i <= count,
                pos <= bytes@.len(),
                block_type_decode(bytes@) == decode_values(bytes@, p0, count as nat),
                decode_values(bytes@, p0, count as nat) == prepend_values(
                    vec@,
                    decode_values(bytes@, pos as nat, (count - i) as nat),
                ),
            decreases count - i,
        {
            let rest = vstd::slice::slice_subrange(bytes, pos, bytes.len());
            assert(rest@ =~= bytes@.skip(pos as int));
            match decode_varint(rest) {
                Ok((val, n)) => {
                    let ghost old_vec = vec@;
                    vec.push(val);
                    pos = pos + n;
                    i = i + 1;
                    proof {
                        let x = decode_values(bytes@, pos as nat, (count - i) as nat);
                        assert(old_vec + (seq![val] + match x {
                            Ok((ws, _)) => ws,
                            Err(_) => Seq::empty(),
                        }) =~= vec@ + match x {
                            Ok((ws, _)) => ws,
                            Err(_) => Seq::empty(),
                        });
                    }
                },
                Err(e) => {
                    assert(decode_values(bytes@, pos as nat, (count - i) as nat) == Err::<
                        (Seq<u64>, nat),
                        OmniError,
                    >(e));
                    assert(decode_values(bytes@, p0, count as nat) == Err::<
                        (Seq<u64>, nat),
                        OmniError,
                    >(e));
                    assert(block_type_decode(bytes@) == Err::<(Seq<u64>, nat), OmniError>(e));
                    return Err(e);
                },
            }
        }
        assert(vec@ + Seq::<u64>::empty() =~= vec@);
        Ok((BlockType(BlockTypeVec::from_vec(vec)), pos))
    }
}

// ============================================================================
// BlockHeader: [length][type]
// ============================================================================

/// A block header without the payload.
#[derive(Debug)]
pub struct BlockHeader {
    /// Length of everything after the length varint (type bytes + payload).
    pub data_len: u64,
    /// The type of the block.
    pub block_type: BlockType,
}

impl Clone for BlockHeader {
    fn clone(&self) -> (r: BlockHeader)
        ensures
            r.data_len == self.data_len,
            r.block_type@ == self.block_type@,
    {
        BlockHeader { data_len: self.data_len, block_type: self.block_type.clone() }
    }
}

impl BlockHeader {
    /// The bytes of `[length][type]`.
    pub fn encode(&self) -> (r: Vec<u8>)
        ensures
            r@ == leb_encode(self.data_len as nat) + block_type_bytes(self.block_type@),
    {
        let mut out = encode_varint(self.data_len);
        let mut ty = self.block_type.encode();
        out.append(&mut ty);
        out
    }

    /// Reads `[length][type]` from the front of `bytes`: the header and the number
    /// of bytes it took.
    pub fn decode(bytes: &[u8]) -> (r: Result<(BlockHeader, usize), OmniError>)
        ensures
            match varint_result(bytes@) {
                Err(e) => r matches Err(e2) && e2 == e,
                Ok((len, n)) => match block_type_decode(bytes@.skip(n as int)) {
                    Err(e) => r matches Err(e2) && e2 == e,
                    Ok((vs, t)) => r matches Ok((h, m)) && h.data_len == len && h.block_type@ == vs
                        && m == n + t,
                },
            },
    {
        let (data_len, n) = match decode_varint(bytes) {
            Ok(x) => x,
            Err(e) => return Err(e),
        };
        let rest = vstd::slice::slice_subrange(bytes, n, bytes.len());
        assert(rest@ =~= bytes@.skip(n as int));
        assert(rest@.len() == rest.len());
        match BlockType::decode(rest) {
            Ok((block_type, t)) => {
                proof {
                    lemma_block_type_decode_len(rest@);
                }
                Ok((BlockHeader { data_len, block_type }, n + t))
            },
            Err(e) => Err(e),
        }
    }
}

/// A successful read of a block type stays inside the input.
pub proof fn lemma_block_type_decode_len(bytes: Seq<u8>)
    requires
        bytes.len() <= usize::MAX,
    ensures
        block_type_decode(bytes) matches Ok((vs, t)) ==> t <= bytes.len(),
{
    if let Ok((count, n)) = varint_result(bytes) {
        if count != 0 {
            lemma_varint_result_len(bytes);
            lemma_decode_values_len(bytes, n as nat, count as nat);
        }
    }
}

proof fn lemma_varint_result_len(bytes: Seq<u8>)
    requires
        bytes.len() <= usize::MAX,
    ensures
        varint_result(bytes) matches Ok((v, n)) ==> 1 <= n <= bytes.len(),
{
    if let Some(n) = crate::varint::leb_len(bytes) {
        crate::varint::lemma_len_prefix(bytes, Seq::empty());
        assert(bytes + Seq::<u8>::empty() =~= bytes);
    }
}

proof fn lemma_decode_values_len(bytes: Seq<u8>, pos: nat, k: nat)
    requires
        pos <= bytes.len(),
        bytes.len() <= usize::MAX,
    ensures
        decode_values(bytes, pos, k) matches Ok((vs, p)) ==> pos <= p <= bytes.len() && vs.len()
            == k,
    decreases k,
{
    if k > 0 {
        lemma_varint_result_len(bytes.skip(pos as int));
        if let Ok((v, n)) = varint_result(bytes.skip(pos as int)) {
            lemma_decode_values_len(bytes, pos + n as nat, (k - 1) as nat);
        }
    }
}

// ============================================================================
// Block: [length][type][payload]
// ============================================================================

/// A whole block in memory.
#[derive(Debug)]
pub struct Block {
    pub block_type: BlockType,
    pub payload: Vec<u8>,
}

/// The bytes of a block: the length of type and payload, the type, the payload.
pub open spec fn block_bytes(values: Seq<u64>, payload: Seq<u8>) -> Seq<u8> {
    leb_encode(block_type_bytes(values).len() + payload.len()) + block_type_bytes(values) + payload
}

/// Reading a block from the front of `bytes`: its type, its payload and the
/// number of bytes it took.
pub open spec fn block_decode(bytes: Seq<u8>) -> Result<(Seq<u64>, Seq<u8>, nat), OmniError> {
    match varint_result(bytes) {
        Err(e) => Err(e),
        Ok((len, n)) => if len == 0 {
            Err(OmniError::EmptyBlockType)
        } else if bytes.len() - n < len {
            Err(OmniError::UnexpectedEof)
        } else {
            let data = bytes.subrange(n as int, n + len);
            match block_type_decode(data) {
                Err(e) => Err(e),
                Ok((vs, t)) => Ok((vs, data.skip(t as int), (n + len) as nat)),
            }
        },
    }
}

impl Clone for Block {
    fn clone(&self) -> (r: Block)
        ensures
            r.block_type@ == self.block_type@,
            r.payload@ == self.payload@,
    {
        let payload = self.payload.clone();
        assert(payload@ =~= self.payload@);
        Block { block_type: self.block_type.clone(), payload }
    }
}

impl Block {
    pub fn new(block_type: BlockType, payload: Vec<u8>) -> (r: Block)
        ensures
            r.block_type == block_type,
            r.payload == payload,
    {
        Block { block_type, payload }
    }

    /// The bytes of the whole block, `[length][type][payload]`, where the length
    /// covers the type bytes and the payload.
    pub fn encode(&self) -> (r: Vec<u8>)
        requires
            block_type_bytes(self.block_type@).len() + self.payload@.len() <= usize::MAX,
        ensures
            r@ == block_bytes(self.block_type@, self.payload@),
    {
        let mut type_bytes = self.block_type.encode();
        let data_len = (type_bytes.len() + self.payload.len()) as u64;
        let mut out = encode_varint(data_len);
        out.append(&mut type_bytes);
        let mut payload = self.payload.clone();
        assert(payload@ =~= self.payload@);
        out.append(&mut payload);
        out
    }

    /// Builds a block from the bytes that follow its length: the type, then the
    /// payload up to the end.
    pub fn from_data(data: &[u8]) -> (r: Result<Block, OmniError>)
        ensures
            match block_type_decode(data@) {
                Err(e) => r matches Err(e2) && e2 == e,
                Ok((vs, t)) => r matches Ok(b) && b.block_type@ == vs && b.payload@ == data@.skip(
                    t as int,
                ),
            },
    {
        let (block_type, type_size) = match BlockType::decode(data) {
            Ok(x) => x,
            Err(e) => return Err(e),
        };
        assert(data@.len() == data.len());
        proof {
            lemma_block_type_decode_len(data@);
        }
        let rest = vstd::slice::slice_subrange(data, type_size, data.len());
        let payload = vstd::slice::slice_to_vec(rest);
        assert(payload@ =~= data@.skip(type_size as int));
        Ok(Block { block_type, payload })
    }

    /// Reads a whole block from the front of `bytes`: the block and the number of
    /// bytes it took.
    pub fn decode(bytes: &[u8]) -> (r: Result<(Block, usize), OmniError>)
        ensures
            match block_decode(bytes@) {
                Err(e) => r matches Err(e2) && e2 == e,
                Ok((vs, p, m)) => r matches Ok((b, k)) && b.block_type@ == vs && b.payload@ == p
                    && k == m,
            },
    {
        let (data_len, n) = match decode_varint(bytes) {
            Ok(x) => x,
            Err(e) => return Err(e),
        };
        if data_len == 0 {
            return Err(OmniError::EmptyBlockType);
        }
        let available = bytes.len() - n;
        if (available as u64) < data_len {
            return Err(OmniError::UnexpectedEof);
        }
        let end = n + data_len as usize;
        let data = vstd::slice::slice_subrange(bytes, n, end);
        match Block::from_data(data) {
            Ok(block) => Ok((block, end)),
            Err(e) => Err(e),
        }
    }
}

/// Round trip of blocks: reading the bytes of a block gives back its type and its
/// payload and consumes exactly those bytes, whatever follows.
pub proof fn law_block_roundtrip(values: Seq<u64>, payload: Seq<u8>, rest: Seq<u8>)
    requires
        values.len() >= 1,
        values.len() <= u64::MAX,
        block_type_bytes(values).len() + payload.len() <= u64::MAX,
    ensures
        block_decode(block_bytes(values, payload) + rest) == Ok::<
            (Seq<u64>, Seq<u8>, nat),
            OmniError,
        >((values, payload, block_bytes(values, payload).len())),
{
    let tb = block_type_bytes(values);
    let len = tb.len() + payload.len();
    let c = leb_encode(len);
    let bytes = block_bytes(values, payload) + rest;
    assert(bytes =~= c + (tb + payload + rest));
    law_varint_roundtrip(len as u64, tb + payload + rest);
    let data = bytes.subrange(c.len() as int, (c.len() + len) as int);
    assert(data =~= tb + payload);
    law_block_type_roundtrip(values, payload);
    assert(data.skip(tb.len() as int) =~= payload);
}

// ============================================================================
// Skipping and the magic number
// ============================================================================

/// The size of the block at the front of `bytes` without reading it: the length
/// varint plus the length it announces. Works for every block type, unknown ones
/// too; the block itself need not be present.
pub fn skip_block(bytes: &[u8]) -> (r: Result<u64, OmniError>)
    requires
        varint_result(bytes@) matches Ok((v, n)) ==> v + n <= u64::MAX,
    ensures
        match varint_result(bytes@) {
            Err(e) => r matches Err(e2) && e2 == e,
            Ok((v, n)) => r == Ok::<u64, OmniError>((v + n) as u64),
        },
{
    let (data_len, len_bytes) = match decode_varint(bytes) {
        Ok(x) => x,
        Err(e) => return Err(e),
    };
    Ok(len_bytes as u64 + data_len)
}

/// Skipping a block: the length varint and the length it announces add up to
/// the whole block, so what follows starts right after it.
pub proof fn law_skip_block(values: Seq<u64>, payload: Seq<u8>, rest: Seq<u8>)
    requires
        block_type_bytes(values).len() + payload.len() <= u64::MAX,
    ensures
        varint_result(block_bytes(values, payload) + rest) matches Ok((len, n)) && len + n
            == block_bytes(values, payload).len(),
{
    let tb = block_type_bytes(values);
    let len = tb.len() + payload.len();
    let bytes = block_bytes(values, payload) + rest;
    assert(bytes =~= leb_encode(len) + (tb + payload + rest));
    law_varint_roundtrip(len as u64, tb + payload + rest);
}

/// The magic number that `write_magic` appends is what `check_magic` accepts,
/// whatever follows it.
pub proof fn law_magic_roundtrip(rest: Seq<u8>)
    ensures
        (magic_bytes() + rest).len() >= 5,
        (magic_bytes() + rest).take(5) == magic_bytes(),
{
    assert((magic_bytes() + rest).take(5) =~= magic_bytes());
}

/// Writes the magic number at the end of `out`.
pub fn write_magic(out: &mut Vec<u8>) -> (r: Result<(), OmniError>)
    ensures
        final(out)@ == old(out)@ + magic_bytes(),
        r is Ok,
{
    let mut i: usize = 0;
    let ghost start = out@;
    while i < 5
        invariant
            i <= 5,
            out@ == start + magic_bytes().take(i as int),
        decreases 5 - i,
    {
        out.push(MAGIC[i]);
        proof {
            assert(magic_bytes().take(i + 1) =~= magic_bytes().take(i as int).push(MAGIC@[i as int]));
        }
        i = i + 1;
    }
    assert(magic_bytes().take(5) =~= magic_bytes());
    Ok(())
}

/// Checks that `bytes` starts with the magic number.
pub fn check_magic(bytes: &[u8]) -> (r: Result<(), OmniError>)
    ensures
        bytes@.len() < 5 ==> r matches Err(OmniError::UnexpectedEof),
        bytes@.len() >= 5 && bytes@.take(5) != magic_bytes() ==> r matches Err(OmniError::InvalidMagic),
        bytes@.len() >= 5 && bytes@.take(5) == magic_bytes() ==> r is Ok,
{
    if bytes.len() < 5 {
        return Err(OmniError::UnexpectedEof);
    }
    let mut i: usize = 0;
    while i < 5
        invariant
            i <= 5,
            5 <= bytes@.len(),
            forall|k: int| 0 <= k < i ==> bytes@[k] == magic_bytes()[k],
        decreases 5 - i,
    {
        if bytes[i] != MAGIC[i] {
            assert(bytes@.take(5)[i as int] != magic_bytes()[i as int]);
            return Err(OmniError::InvalidMagic);
        }
        i = i + 1;
    }
    assert(bytes@.take(5) =~= magic_bytes());
    Ok(())
}

// ============================================================================
// Reading a block type one varint at a time
// ============================================================================

/// What a reader of a block type asks for next.
pub enum BlockTypeReadAction {
    /// Read the next varint and feed it.
    NeedVarint,
    /// The block type is complete.
    Finished(BlockType),
    /// The input is not a valid block type.
    Failed(OmniError),
}

/// The decisions of reading `[count][value 1]..[value n]` from a stream: the
/// stream is read by the caller, one varint at a time, and every value is fed
/// here. A count of zero is refused; after `count` values the type is complete
/// and the reader starts over.
pub struct BlockTypeRead {
    count: Option<u64>,
    values: Vec<u64>,
}

impl BlockTypeRead {
    #[verifier::type_invariant]
    closed spec fn well_formed(&self) -> bool {
        match self.count {
            None => self.values@.len() == 0,
            Some(c) => 1 <= c && self.values@.len() < c,
        }
    }

    /// The count read so far, if any.
    pub closed spec fn count_view(&self) -> Option<u64> {
        self.count
    }

    /// The values read so far.
    pub closed spec fn values_view(&self) -> Seq<u64> {
        self.values@
    }

    /// A reader that waits for the count.
    pub fn new() -> (r: Self)
        ensures
            r.count_view() is None,
            r.values_view() == Seq::<u64>::empty(),
    {
        BlockTypeRead { count: None, values: Vec::new() }
    }

    /// Feeds the next varint read from the stream.
    pub fn feed(&mut self, value: u64) -> (r: BlockTypeReadAction)
        ensures
            match old(self).count_view() {
                None => {
                    &&& final(self).values_view() == Seq::<u64>::empty()
                    &&& value == 0 ==> (r matches BlockTypeReadAction::Failed(e) && e
                        == OmniError::EmptyBlockType && final(self).count_view() is None)
                    &&& value != 0 ==> (r is NeedVarint && final(self).count_view() == Some(value))
                },
                Some(c) => if old(self).values_view().len() + 1 == c {
                    &&& (r matches BlockTypeReadAction::Finished(bt) && bt@ == old(
                        self,
                    ).values_view().push(value))
                    &&& final(self).count_view() is None
                    &&& final(self).values_view() == Seq::<u64>::empty()
                } else {
                    &&& r is NeedVarint
                    &&& final(self).count_view() == Some(c)
                    &&& final(self).values_view() == old(self).values_view().push(value)
                },
            },
    {
        proof {
            use_type_invariant(&*self);
        }
        match self.count {
            None => {
                if value == 0 {
                    return BlockTypeReadAction::Failed(OmniError::EmptyBlockType);
                }
                self.count = Some(value);
                BlockTypeReadAction::NeedVarint
            },
            Some(c) => {
                let n = self.values.len() as u64;
                if n + 1 == c {
                    let mut values: Vec<u64> = Vec::new();
                    core::mem::swap(&mut values, &mut self.values);
                    values.push(value);
                    self.count = None;
                    BlockTypeReadAction::Finished(BlockType(BlockTypeVec::from_vec(values)))
                } else {
                    let mut values: Vec<u64> = Vec::new();
                    core::mem::swap(&mut values, &mut self.values);
                    values.push(value);
                    self.values = values;
                    BlockTypeReadAction::NeedVarint
                }
            },
        }
    }
}

/// The payload length of a block read from a stream: refuses a length of zero,
/// as a block always holds at least its type.
pub fn block_data_len(data_len: u64) -> (r: Result<u64, OmniError>)
    ensures
        data_len == 0 ==> r matches Err(OmniError::EmptyBlockType),
        data_len != 0 ==> r == Ok::<u64, OmniError>(data_len),
{
    if data_len == 0 {
        Err(OmniError::EmptyBlockType)
    } else {
        Ok(data_len)
    }
}

/// How far to skip after a block's type to reach the next block: what is left of
/// the announced length once the type's bytes are read, or nothing if the type
/// took more.
pub fn payload_skip_len(data_len: u64, type_bytes_read: u64) -> (r: u64)
    ensures
        data_len >= type_bytes_read ==> r == data_len - type_bytes_read,
        data_len < type_bytes_read ==> r == 0,
{
    data_len.saturating_sub(type_bytes_read)
}

} // verus!
