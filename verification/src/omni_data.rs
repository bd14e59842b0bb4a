use crate::varint::{law_decode_encode, leb_decode, leb_encode, VarInt};
use vstd::prelude::*;

verus! {

/// Types that can be written as bytes.
pub trait OmniSerialize {
    /// The bytes the value is written as.
    spec fn serialized(&self) -> Seq<u8>;

    fn serialize(&self) -> (r: Vec<u8>)
        ensures
            r@ == self.serialized(),
    ;
}

/// What `OmniData::to_bytes_ext` writes.
pub enum OmniExportMode {
    /// The length as a varint, then the data.
    Full,
    /// Only the data.
    DataOnly,
    /// Only the length as a varint.
    LengthOnly,
}

/// A run of bytes that is written with its length in front.
pub struct OmniData {
    pub data: Vec<u8>,
}

/// The bytes of `data` in the given mode.
pub open spec fn export_bytes(data: Seq<u8>, mode: OmniExportMode) -> Seq<u8> {
    match mode {
        OmniExportMode::DataOnly => data,
        OmniExportMode::LengthOnly => leb_encode(data.len()),
        OmniExportMode::Full => leb_encode(data.len()) + data,
    }
}

impl OmniData {
    pub fn new() -> (r: Self)
        ensures
            r.data@ == Seq::<u8>::empty(),
    {
        Self { data: Vec::new() }
    }

    pub fn from_bytes(bytes: Vec<u8>) -> (r: Self)
        ensures
            r.data == bytes,
    {
        Self { data: bytes }
    }

    pub fn len(&self) -> (r: usize)
        ensures
            r == self.data@.len(),
    {
        self.data.len()
    }

    pub fn is_empty(&self) -> (r: bool)
        ensures
            r == (self.data@.len() == 0),
    {
        self.data.len() == 0
    }

    /// The length as a varint, then the data.
    pub fn to_bytes(&self) -> (r: Vec<u8>)
        ensures
            r@ == export_bytes(self.data@, OmniExportMode::Full),
    {
        self.to_bytes_ext(OmniExportMode::Full)
    }

    /// The bytes in the given mode.
    pub fn to_bytes_ext(&self, mode: OmniExportMode) -> (r: Vec<u8>)
        ensures
            r@ == export_bytes(self.data@, mode),
    {
        match mode {
            OmniExportMode::DataOnly => {
                let d = self.data.clone();
                assert(d@ =~= self.data@);
                d
            },
            OmniExportMode::LengthOnly => {
                VarInt::from(self.data.len()).to_vec()
            },
            OmniExportMode::Full => {
                let len_varint = VarInt::from(self.data.len());
                let mut buf: Vec<u8> = Vec::new();
                buf.extend_from_slice(len_varint.as_slice());
                buf.extend_from_slice(self.data.as_slice());
                buf
            },
        }
    }
}

/// The full form is the length followed by the data, and reading the length back
/// tells exactly where the data starts and ends.
pub proof fn law_export_framing(data: Seq<u8>, rest: Seq<u8>)
    requires
        data.len() <= usize::MAX,
    ensures
        export_bytes(data, OmniExportMode::Full) == export_bytes(data, OmniExportMode::LengthOnly)
            + export_bytes(data, OmniExportMode::DataOnly),
        ({
            let k = leb_encode(data.len()).len();
            &&& leb_decode(export_bytes(data, OmniExportMode::Full) + rest, usize::MAX as nat) == Some(
                (data.len(), k),
            )
            &&& (export_bytes(data, OmniExportMode::Full) + rest).subrange(k as int, (k + data.len()) as int)
                == data
        }),
{
    let e = leb_encode(data.len());
    law_decode_encode(data.len(), usize::MAX as nat, data + rest);
    assert(export_bytes(data, OmniExportMode::Full) + rest =~= e + (data + rest));
    assert((e + (data + rest)).subrange(e.len() as int, (e.len() + data.len()) as int) =~= data);
}

impl OmniSerialize for OmniData {
    open spec fn serialized(&self) -> Seq<u8> {
        export_bytes(self.data@, OmniExportMode::Full)
    }

    fn serialize(&self) -> (r: Vec<u8>) {
        self.to_bytes()
    }
}

} // verus!
