use vstd::prelude::*;

use crate::vertex_attribute::VertexAttribute;

verus! {

/// Why an attribute layout or a draw size cannot be handed to the graphics API,
/// whose stride, offset, size and count parameters are 32-bit signed integers.
#[derive(Debug, Clone, Copy, PartialEq, Eq, Structural)]
pub enum LayoutError {
    /// The sum of the present attributes' byte sizes exceeds `i32::MAX`.
    StrideTooLarge,
    /// A present attribute sits at a slot index above `u32::MAX`, or has a
    /// component count above `i32::MAX`.
    AttributeOutOfRange,
    /// The sum of the present attributes' component counts exceeds `u32::MAX`.
    DivisorTooLarge,
    /// The number of vertices to draw exceeds `i32::MAX`.
    VertexCountTooLarge,
}

/// Arguments of one vertex-attribute pointer binding: slot index, component
/// count, component type, normalization flag, record stride and byte offset.
#[derive(Debug, Clone, Copy, PartialEq, Eq, Structural)]
pub struct AttribPointer {
    pub index: u32,
    pub size: i32,
    pub item_type: u32,
    pub normalized: bool,
    pub stride: i32,
    pub offset: i32,
}

/// Bytes that one slot of an attribute list takes in a vertex record.
pub open spec fn slot_size(slot: Option<VertexAttribute>) -> int {
    match slot {
        Some(a) => a.byte_size(),
        None => 0,
    }
}

/// Component count that one slot contributes to a vertex record.
pub open spec fn slot_count(slot: Option<VertexAttribute>) -> int {
    match slot {
        Some(a) => a.count as int,
        None => 0,
    }
}

/// Byte size of a whole vertex record: the sum of the present slots' sizes.
pub open spec fn stride_of(attrs: Seq<Option<VertexAttribute>>) -> int
    decreases attrs.len(),
{
    if attrs.len() == 0 {
        0
    } else {
        stride_of(attrs.drop_last()) + slot_size(attrs.last())
    }
}

/// Byte offset of slot `i` inside a vertex record: the sizes of the slots before it.
pub open spec fn offset_of(attrs: Seq<Option<VertexAttribute>>, i: int) -> int {
    stride_of(attrs.take(i))
}

/// Sum of the component counts of the present slots.
pub open spec fn count_sum(attrs: Seq<Option<VertexAttribute>>) -> int
    decreases attrs.len(),
{
    if attrs.len() == 0 {
        0
    } else {
        count_sum(attrs.drop_last()) + slot_count(attrs.last())
    }
}

/// Every present slot has an index that fits `u32` and a count that fits `i32`.
pub open spec fn slots_fit(attrs: Seq<Option<VertexAttribute>>) -> bool {
    forall|i: int|
        0 <= i < attrs.len() && (#[trigger] attrs[i]) is Some ==> i <= u32::MAX && attrs[i]->Some_0.count
            <= i32::MAX
}

/// The binding of present slot `i` in a record of `stride` bytes.
pub open spec fn pointer_at(attrs: Seq<Option<VertexAttribute>>, i: int, stride: int) -> AttribPointer
    recommends
        0 <= i < attrs.len(),
        attrs[i] is Some,
{
    let a = attrs[i]->Some_0;
    AttribPointer {
        index: i as u32,
        size: a.count as i32,
        item_type: a.item_type,
        normalized: false,
        stride: stride as i32,
        offset: offset_of(attrs, i) as i32,
    }
}

/// The bindings of the present slots, in slot order; `None` slots get none.
pub open spec fn pointers_of(attrs: Seq<Option<VertexAttribute>>, stride: int) -> Seq<AttribPointer>
    decreases attrs.len(),
{
    if attrs.len() == 0 {
        Seq::empty()
    } else {
        let rest = pointers_of(attrs.drop_last(), stride);
        if attrs.last() is Some {
            rest.push(pointer_at(attrs, attrs.len() - 1, stride))
        } else {
            rest
        }
    }
}

/// The stride of a layout, or why it cannot be given to the graphics API.
pub open spec fn stride_result(attrs: Seq<Option<VertexAttribute>>) -> Result<i32, LayoutError> {
    if stride_of(attrs) > i32::MAX {
        Err(LayoutError::StrideTooLarge)
    } else {
        Ok(stride_of(attrs) as i32)
    }
}

/// The pointer bindings of a layout, or why they cannot be given to the graphics API.
pub open spec fn pointers_result(attrs: Seq<Option<VertexAttribute>>) -> Result<
    Seq<AttribPointer>,
    LayoutError,
> {
    if stride_of(attrs) > i32::MAX {
        Err(LayoutError::StrideTooLarge)
    } else if !slots_fit(attrs) {
        Err(LayoutError::AttributeOutOfRange)
    } else {
        Ok(pointers_of(attrs, stride_of(attrs)))
    }
}

/// The attribute list an entity was given, as a sequence.
pub open spec fn layout_view(attrs: Option<Vec<Option<VertexAttribute>>>) -> Option<
    Seq<Option<VertexAttribute>>,
> {
    match attrs {
        Some(v) => Some(v@),
        None => None,
    }
}

/// Number of floats per vertex used to turn a flat float count into a vertex
/// count: the present slots' component counts, or 1 where there is no list or
/// the counts add up to zero.
pub open spec fn divisor_of(attrs: Option<Seq<Option<VertexAttribute>>>) -> int {
    match attrs {
        Some(s) => if count_sum(s) == 0 {
            1
        } else {
            count_sum(s)
        },
        None => 1,
    }
}

pub open spec fn divisor_result(attrs: Option<Seq<Option<VertexAttribute>>>) -> Result<
    u32,
    LayoutError,
> {
    if divisor_of(attrs) > u32::MAX {
        Err(LayoutError::DivisorTooLarge)
    } else {
        Ok(divisor_of(attrs) as u32)
    }
}

/// Vertices to draw from `float_len` floats, or why that count cannot be drawn.
pub open spec fn vertex_count_result(
    float_len: int,
    attrs: Option<Seq<Option<VertexAttribute>>>,
) -> Result<i32, LayoutError> {
    if divisor_of(attrs) > u32::MAX {
        Err(LayoutError::DivisorTooLarge)
    } else if float_len / divisor_of(attrs) > i32::MAX {
        Err(LayoutError::VertexCountTooLarge)
    } else {
        Ok((float_len / divisor_of(attrs)) as i32)
    }
}

proof fn lemma_stride_nonneg(attrs: Seq<Option<VertexAttribute>>)
    ensures
        stride_of(attrs) >= 0,
    decreases attrs.len(),
{
    if attrs.len() > 0 {
        lemma_stride_nonneg(attrs.drop_last());
        let s = attrs.last();
        if let Some(a) = s {
            assert(a.byte_size() >= 0) by (nonlinear_arith)
                requires
                    a.count >= 0,
                    a.item_size >= 0,
            ;
        }
    }
}

/// The component counts of a prefix add up to no more than those of the whole.
proof fn lemma_count_prefix(attrs: Seq<Option<VertexAttribute>>, i: int)
    requires
        0 <= i <= attrs.len(),
    ensures
        0 <= count_sum(attrs.take(i)) <= count_sum(attrs),
    decreases attrs.len(),
{
    if i < attrs.len() {
        assert(attrs.drop_last().take(i) =~= attrs.take(i));
        lemma_count_prefix(attrs.drop_last(), i);
    } else {
        assert(attrs.take(i) =~= attrs);
        if attrs.len() > 0 {
            lemma_count_prefix(attrs.drop_last(), i - 1);
            assert(attrs.drop_last().take(i - 1) =~= attrs.drop_last());
        }
    }
}

/// A prefix of a layout is no wider than the whole.
proof fn lemma_stride_prefix(attrs: Seq<Option<VertexAttribute>>, i: int)
    requires
        0 <= i <= attrs.len(),
    ensures
        0 <= stride_of(attrs.take(i)) <= stride_of(attrs),
    decreases attrs.len(),
{
    lemma_stride_nonneg(attrs.take(i));
    if i < attrs.len() {
        assert(attrs.drop_last().take(i) =~= attrs.take(i));
        lemma_stride_prefix(attrs.drop_last(), i);
        lemma_stride_nonneg(seq![attrs.last()]);
        assert(seq![attrs.last()].drop_last() =~= Seq::<Option<VertexAttribute>>::empty());
    } else {
        assert(attrs.take(i) =~= attrs);
    }
}

/// Adding slot `i` to the prefix before it adds that slot's size.
proof fn lemma_stride_step(attrs: Seq<Option<VertexAttribute>>, i: int)
    requires
        0 <= i < attrs.len(),
    ensures
        stride_of(attrs.take(i + 1)) == stride_of(attrs.take(i)) + slot_size(attrs[i]),
        count_sum(attrs.take(i + 1)) == count_sum(attrs.take(i)) + slot_count(attrs[i]),
{
    assert(attrs.take(i + 1).drop_last() =~= attrs.take(i));
}

/// The bindings of a prefix are the bindings of the whole layout's slots before it.
proof fn lemma_pointers_step(attrs: Seq<Option<VertexAttribute>>, i: int, stride: int)
    requires
        0 <= i < attrs.len(),
    ensures
        pointers_of(attrs.take(i + 1), stride) == if attrs[i] is Some {
            pointers_of(attrs.take(i), stride).push(pointer_at(attrs, i, stride))
        } else {
            pointers_of(attrs.take(i), stride)
        },
{
    let p = attrs.take(i + 1);
    assert(p.drop_last() =~= attrs.take(i));
    assert(p.take(i) =~= attrs.take(i));
    assert(pointer_at(p, i, stride) == pointer_at(attrs, i, stride));
}

fn slot_bytes(a: VertexAttribute) -> (r: u64)
    ensures
        r == a.byte_size(),
{
    assert(a.count as int * a.item_size as int <= u64::MAX) by (nonlinear_arith)
        requires
            a.count <= u32::MAX,
            a.item_size <= u32::MAX,
    ;
    (a.count as u64) * (a.item_size as u64)
}

/// Computes the stride of a vertex record: the sum of count times item size
/// over the present attributes.
pub fn vertex_stride(attrs: &Vec<Option<VertexAttribute>>) -> (r: Result<i32, LayoutError>)
    ensures
        r == stride_result(attrs@),
{
    let mut stride: u64 = 0;
    let mut i: usize = 0;
    while i < attrs.len()
        invariant
            i <= attrs@.len(),
            stride == stride_of(attrs@.take(i as int)),
            stride <= i32::MAX,
        decreases attrs@.len() - i,
    {
        proof {
            lemma_stride_step(attrs@, i as int);
            lemma_stride_prefix(attrs@, i as int + 1);
        }
        if let Some(a) = attrs[i] {
            let size: u64 = slot_bytes(a);
            if size > i32::MAX as u64 || stride + size > i32::MAX as u64 {
                return Err(LayoutError::StrideTooLarge);
            }
            stride = stride + size;
        }
        i = i + 1;
    }
    assert(attrs@.take(i as int) =~= attrs@);
    Ok(stride as i32)
}

/// Computes the pointer binding of every present attribute, in slot order:
/// each at the running byte offset, which then advances by its own size.
/// `None` slots get no binding and advance nothing.
pub fn attribute_pointers(attrs: &Vec<Option<VertexAttribute>>) -> (r: Result<
    Vec<AttribPointer>,
    LayoutError,
>)
    ensures
        match r {
            Ok(v) => pointers_result(attrs@) == Ok::<Seq<AttribPointer>, LayoutError>(v@),
            Err(e) => pointers_result(attrs@) == Err::<Seq<AttribPointer>, LayoutError>(e),
        },
{
    let stride = match vertex_stride(attrs) {
        Ok(s) => s,
        Err(e) => return Err(e),
    };
    proof {
        lemma_stride_nonneg(attrs@);
    }
    let mut pointers: Vec<AttribPointer> = Vec::new();
    let mut offset: i32 = 0;
    let mut i: usize = 0;
    while i < attrs.len()
        invariant
            i <= attrs@.len(),
            stride == stride_of(attrs@),
            stride_of(attrs@) <= i32::MAX,
            offset == stride_of(attrs@.take(i as int)),
            pointers@ == pointers_of(attrs@.take(i as int), stride as int),
            slots_fit(attrs@.take(i as int)),
        decreases attrs@.len() - i,
    {
        proof {
            lemma_stride_step(attrs@, i as int);
            lemma_stride_prefix(attrs@, i as int);
            lemma_stride_prefix(attrs@, i as int + 1);
            lemma_pointers_step(attrs@, i as int, stride as int);
        }
        if let Some(a) = attrs[i] {
            if i > u32::MAX as usize || a.count > i32::MAX as u32 {
                assert(!slots_fit(attrs@));
                return Err(LayoutError::AttributeOutOfRange);
            }
            let size: u64 = slot_bytes(a);
            pointers.push(
                AttribPointer {
                    index: i as u32,
                    size: a.count as i32,
                    item_type: a.item_type,
                    normalized: false,
                    stride,
                    offset,
                },
            );
            offset = offset + size as i32;
        }
        assert(slots_fit(attrs@.take(i as int + 1))) by {
            assert forall|k: int|
                0 <= k < i + 1 && (#[trigger] attrs@.take(i as int + 1)[k]) is Some implies k
                <= u32::MAX && attrs@.take(i as int + 1)[k]->Some_0.count <= i32::MAX by {
                if k < i {
                    assert(attrs@.take(i as int)[k] == attrs@.take(i as int + 1)[k]);
                }
            }
        }
        i = i + 1;
    }
    assert(attrs@.take(i as int) =~= attrs@);
    Ok(pointers)
}

/// Computes how many floats make up one vertex: the sum of the present
/// attributes' component counts, or 1 where there is no attribute list or the
/// counts add up to zero.
pub fn vertex_divisor(attrs: &Option<Vec<Option<VertexAttribute>>>) -> (r: Result<u32, LayoutError>)
    ensures
        r == divisor_result(layout_view(*attrs)),
{
    match attrs {
        None => Ok(1),
        Some(v) => {
            let mut sum: u64 = 0;
            let mut i: usize = 0;
            while i < v.len()
                invariant
                    i <= v@.len(),
                    layout_view(*attrs) == Some(v@),
                    sum == count_sum(v@.take(i as int)),
                    sum <= u32::MAX,
                decreases v@.len() - i,
            {
                proof {
                    lemma_stride_step(v@, i as int);
                    lemma_count_prefix(v@, i as int + 1);
                }
                if let Some(a) = v[i] {
                    if sum + a.count as u64 > u32::MAX as u64 {
                        return Err(LayoutError::DivisorTooLarge);
                    }
                    sum = sum + a.count as u64;
                }
                i = i + 1;
            }
            assert(v@.take(i as int) =~= v@);
            if sum == 0 {
                Ok(1)
            } else {
                Ok(sum as u32)
            }
        },
    }
}

/// Computes how many vertices a draw call covers for `float_len` floats of
/// vertex data laid out by `attrs`.
pub fn vertex_count(float_len: usize, attrs: &Option<Vec<Option<VertexAttribute>>>) -> (r: Result<
    i32,
    LayoutError,
>)
    ensures
        r == vertex_count_result(float_len as int, layout_view(*attrs)),
{
    let divisor = match vertex_divisor(attrs) {
        Ok(d) => d,
        Err(e) => return Err(e),
    };
    proof {
        if let Some(v) = attrs {
            lemma_count_prefix(v@, 0);
        }
    }
    let n: usize = float_len / (divisor as usize);
    if n > i32::MAX as usize {
        Err(LayoutError::VertexCountTooLarge)
    } else {
        Ok(n as i32)
    }
}

/// The present attributes of a layout, in slot order.
pub open spec fn present(attrs: Seq<Option<VertexAttribute>>) -> Seq<VertexAttribute>
    decreases attrs.len(),
{
    if attrs.len() == 0 {
        Seq::empty()
    } else {
        let rest = present(attrs.drop_last());
        match attrs.last() {
            Some(a) => rest.push(a),
            None => rest,
        }
    }
}

/// The sum of count times item size over a sequence of attributes.
pub open spec fn sizes_sum(s: Seq<VertexAttribute>) -> int
    decreases s.len(),
{
    if s.len() == 0 {
        0
    } else {
        sizes_sum(s.drop_last()) + s.last().byte_size()
    }
}

/// The stride of any attribute list is the sum of count times item size over
/// its present attributes.
pub proof fn lemma_stride_is_sum_of_present(attrs: Seq<Option<VertexAttribute>>)
    ensures
        stride_of(attrs) == sizes_sum(present(attrs)),
    decreases attrs.len(),
{
    if attrs.len() > 0 {
        lemma_stride_is_sum_of_present(attrs.drop_last());
        if let Some(a) = attrs.last() {
            assert(present(attrs).drop_last() =~= present(attrs.drop_last()));
        }
    }
}

/// Where a layout can be bound, its bindings follow the present attributes in
/// order: the k-th binding has the k-th present attribute's count and type,
/// the record stride, and as offset the sizes of the present attributes before
/// it, so that each offset exceeds the one before by exactly the previous
/// attribute's own size.
pub proof fn lemma_pointer_offsets(attrs: Seq<Option<VertexAttribute>>)
    requires
        pointers_result(attrs) is Ok,
    ensures
        ({
            let p = pointers_of(attrs, stride_of(attrs));
            let q = present(attrs);
            &&& p.len() == q.len()
            &&& p.len() > 0 ==> p[0].offset == 0
            &&& forall|k: int|
                0 <= k < p.len() ==> {
                    &&& (#[trigger] p[k]).offset as int == sizes_sum(q.take(k))
                    &&& p[k].size as int == q[k].count
                    &&& p[k].item_type == q[k].item_type
                    &&& p[k].stride as int == stride_of(attrs)
                    &&& !p[k].normalized
                }
            &&& forall|k: int|
                0 <= k < p.len() - 1 ==> #[trigger] p[k + 1].offset as int == p[k].offset as int
                    + q[k].byte_size()
        }),
{
    lemma_stride_nonneg(attrs);
    lemma_pointers_present(attrs, stride_of(attrs));
    let p = pointers_of(attrs, stride_of(attrs));
    let q = present(attrs);
    if p.len() > 0 {
        assert(q.take(0) =~= Seq::<VertexAttribute>::empty());
    }
    assert forall|k: int| 0 <= k < p.len() - 1 implies #[trigger] p[k + 1].offset as int
        == p[k].offset as int + q[k].byte_size() by {
        assert(q.take(k + 1).drop_last() =~= q.take(k));
    }
}

proof fn lemma_pointers_present(attrs: Seq<Option<VertexAttribute>>, stride: int)
    requires
        0 <= stride <= i32::MAX,
        stride_of(attrs) <= stride,
        slots_fit(attrs),
    ensures
        ({
            let p = pointers_of(attrs, stride);
            let q = present(attrs);
            &&& p.len() == q.len()
            &&& forall|k: int|
                0 <= k < p.len() ==> {
                    &&& (#[trigger] p[k]).offset as int == sizes_sum(q.take(k))
                    &&& p[k].size as int == q[k].count
                    &&& p[k].item_type == q[k].item_type
                    &&& p[k].stride as int == stride
                    &&& !p[k].normalized
                }
        }),
    decreases attrs.len(),
{
    if attrs.len() > 0 {
        let d = attrs.drop_last();
        lemma_stride_prefix(attrs, attrs.len() - 1);
        assert(attrs.take(attrs.len() - 1) =~= d);
        assert(slots_fit(d)) by {
            assert forall|i: int| 0 <= i < d.len() && (#[trigger] d[i]) is Some implies i
                <= u32::MAX && d[i]->Some_0.count <= i32::MAX by {
                assert(d[i] == attrs[i]);
            }
        }
        lemma_pointers_present(d, stride);
        lemma_stride_is_sum_of_present(d);
        let p = pointers_of(attrs, stride);
        let q = present(attrs);
        let pd = pointers_of(d, stride);
        let qd = present(d);
        if let Some(a) = attrs.last() {
            assert(attrs[attrs.len() - 1] is Some);
            assert forall|k: int| 0 <= k < p.len() implies {
                &&& (#[trigger] p[k]).offset as int == sizes_sum(q.take(k))
                &&& p[k].size as int == q[k].count
                &&& p[k].item_type == q[k].item_type
                &&& p[k].stride as int == stride
                &&& !p[k].normalized
            } by {
                if k < pd.len() {
                    assert(q.take(k) =~= qd.take(k));
                    assert(pd[k] == p[k]);
                } else {
                    assert(q.take(k) =~= qd);
                }
            }
        }
    }
}

/// Attribute lists whose present attributes are the same, in the same order,
/// have the same stride and bind them at the same offsets, whatever the
/// number and place of their `None` slots.
pub proof fn lemma_none_slots_do_not_move_offsets(
    a: Seq<Option<VertexAttribute>>,
    b: Seq<Option<VertexAttribute>>,
)
    requires
        present(a) == present(b),
        pointers_result(a) is Ok,
        pointers_result(b) is Ok,
    ensures
        stride_of(a) == stride_of(b),
        pointers_of(a, stride_of(a)).len() == pointers_of(b, stride_of(b)).len(),
        forall|k: int|
            0 <= k < pointers_of(a, stride_of(a)).len() ==> {
                &&& (#[trigger] pointers_of(a, stride_of(a))[k]).offset == pointers_of(
                    b,
                    stride_of(b),
                )[k].offset
                &&& pointers_of(a, stride_of(a))[k].size == pointers_of(b, stride_of(b))[k].size
                &&& pointers_of(a, stride_of(a))[k].item_type == pointers_of(
                    b,
                    stride_of(b),
                )[k].item_type
                &&& pointers_of(a, stride_of(a))[k].stride == pointers_of(b, stride_of(b))[k].stride
            },
{
    lemma_stride_is_sum_of_present(a);
    lemma_stride_is_sum_of_present(b);
    lemma_pointer_offsets(a);
    lemma_pointer_offsets(b);
}

} // verus!
