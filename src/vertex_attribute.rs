use vstd::prelude::*;

verus! {

/// One interleaved field of a vertex record: how many components it has,
/// the graphics API's code for the component type, and the byte width of
/// one component.
#[derive(Debug, Clone, Copy, PartialEq, Eq, Structural)]
pub struct VertexAttribute {
    pub count: u32,
    pub item_type: u32,
    pub item_size: u32,
}

impl VertexAttribute {
    /// Bytes this attribute takes in one vertex record.
    pub open spec fn byte_size(self) -> int {
        self.count as int * self.item_size as int
    }

    pub fn new(count: u32, item_type: u32, item_size: u32) -> (r: VertexAttribute)
        ensures
            r.count == count,
            r.item_type == item_type,
            r.item_size == item_size,
    {
        VertexAttribute { count, item_size, item_type }
    }
}

} // verus!
