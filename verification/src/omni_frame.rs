use crate::omni_data::OmniData;
use crate::varint::VarInt;
use vstd::prelude::*;

verus! {

/// The type of a frame: a list of varints.
pub struct OmniFrameHeader {
    pub block_type: Vec<VarInt>,
}

/// The data of a frame.
pub struct OmniFrameContent {
    pub data: OmniData,
}

/// An optional attachment of a frame, such as a hash.
pub struct OmniFrameFooter {
    pub data: OmniData,
}

/// A header, its content and an optional footer.
pub struct OmniFrame {
    pub header: OmniFrameHeader,
    pub content: OmniFrameContent,
    pub footer: Option<OmniFrameFooter>,
}

impl OmniFrame {
    pub fn new(
        header: OmniFrameHeader,
        content: OmniFrameContent,
        footer: Option<OmniFrameFooter>,
    ) -> (r: Self)
        ensures
            r.header == header,
            r.content == content,
            r.footer == footer,
    {
        Self { header, content, footer }
    }
}

impl OmniFrameHeader {
    pub fn new(ids: Vec<VarInt>) -> (r: Self)
        ensures
            r.block_type == ids,
    {
        Self { block_type: ids }
    }
}

impl OmniFrameContent {
    pub fn new(data: OmniData) -> (r: Self)
        ensures
            r.data == data,
    {
        Self { data }
    }
}

impl OmniFrameFooter {
    pub fn new(data: OmniData) -> (r: Self)
        ensures
            r.data == data,
    {
        Self { data }
    }
}

} // verus!
