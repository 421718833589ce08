use reindeer::layout::{attribute_pointers, vertex_count, vertex_divisor, vertex_stride};
use reindeer::{AttribPointer, LayoutError, VertexAttribute};

const FLOAT: u32 = 0x1406;
const UNSIGNED_BYTE: u32 = 0x1401;

fn fvec3() -> VertexAttribute {
    VertexAttribute::new(3, FLOAT, 4)
}

#[test]
fn new_keeps_fields() {
    let a = VertexAttribute::new(2, UNSIGNED_BYTE, 1);
    assert_eq!(a.count, 2);
    assert_eq!(a.item_type, UNSIGNED_BYTE);
    assert_eq!(a.item_size, 1);
}

#[test]
fn stride_sums_present_attributes() {
    let attrs = vec![
        Some(VertexAttribute::new(3, FLOAT, 4)),
        None,
        Some(VertexAttribute::new(2, FLOAT, 4)),
        Some(VertexAttribute::new(4, UNSIGNED_BYTE, 1)),
    ];
    assert_eq!(vertex_stride(&attrs), Ok(12 + 8 + 4));
}

#[test]
fn stride_of_empty_and_all_none_is_zero() {
    assert_eq!(vertex_stride(&vec![]), Ok(0));
    assert_eq!(vertex_stride(&vec![None, None]), Ok(0));
}

#[test]
fn offsets_advance_by_each_attribute_size() {
    let attrs = vec![
        Some(VertexAttribute::new(3, FLOAT, 4)),
        Some(VertexAttribute::new(2, FLOAT, 4)),
        Some(VertexAttribute::new(4, UNSIGNED_BYTE, 1)),
    ];
    let p = attribute_pointers(&attrs).unwrap();
    assert_eq!(p.len(), 3);
    let offsets: Vec<i32> = p.iter().map(|x| x.offset).collect();
    assert_eq!(offsets, vec![0, 12, 20]);
    assert!(p.iter().all(|x| x.stride == 24));
    assert_eq!(p[1].size, 2);
    assert_eq!(p[2].item_type, UNSIGNED_BYTE);
}

#[test]
fn none_slots_take_no_binding_and_no_offset() {
    let a = VertexAttribute::new(3, FLOAT, 4);
    let b = VertexAttribute::new(2, FLOAT, 4);
    let packed = attribute_pointers(&vec![Some(a), Some(b)]).unwrap();
    let gapped = attribute_pointers(&vec![None, Some(a), None, None, Some(b), None]).unwrap();
    assert_eq!(packed.len(), 2);
    assert_eq!(gapped.len(), 2);
    for k in 0..2 {
        assert_eq!(packed[k].offset, gapped[k].offset);
        assert_eq!(packed[k].stride, gapped[k].stride);
        assert_eq!(packed[k].size, gapped[k].size);
    }
    assert_eq!(gapped[0].index, 1);
    assert_eq!(gapped[1].index, 4);
    assert_eq!(vertex_stride(&vec![Some(a), Some(b)]), vertex_stride(&vec![None, Some(a), None, Some(b)]));
}

#[test]
fn cube_layout_has_stride_24_and_divisor_6() {
    let attrs = vec![Some(fvec3()), None, Some(fvec3())];
    assert_eq!(vertex_stride(&attrs), Ok(24));
    assert_eq!(vertex_divisor(&Some(attrs.clone())), Ok(6));
    let p = attribute_pointers(&attrs).unwrap();
    assert_eq!(
        p,
        vec![
            AttribPointer { index: 0, size: 3, item_type: FLOAT, normalized: false, stride: 24, offset: 0 },
            AttribPointer { index: 2, size: 3, item_type: FLOAT, normalized: false, stride: 24, offset: 12 },
        ]
    );
    assert_eq!(vertex_count(72, &Some(attrs.clone())), Ok(12));
    assert_eq!(vertex_count(216, &Some(attrs)), Ok(36));
}

#[test]
fn divisor_defaults_to_one() {
    assert_eq!(vertex_divisor(&None), Ok(1));
    assert_eq!(vertex_divisor(&Some(vec![])), Ok(1));
    assert_eq!(vertex_divisor(&Some(vec![None])), Ok(1));
    assert_eq!(vertex_count(9, &None), Ok(9));
    assert_eq!(vertex_count(9, &Some(vec![])), Ok(9));
}

#[test]
fn vertex_count_rounds_down() {
    let attrs = Some(vec![Some(fvec3()), Some(VertexAttribute::new(2, FLOAT, 4))]);
    assert_eq!(vertex_count(11, &attrs), Ok(2));
    assert_eq!(vertex_count(0, &attrs), Ok(0));
}

#[test]
fn stride_too_large_is_rejected() {
    let big = VertexAttribute::new(1 << 20, FLOAT, 1 << 12);
    assert_eq!(vertex_stride(&vec![Some(big)]), Err(LayoutError::StrideTooLarge));
    assert_eq!(attribute_pointers(&vec![Some(big)]), Err(LayoutError::StrideTooLarge));
    let half = VertexAttribute::new(1 << 30, FLOAT, 1);
    assert_eq!(vertex_stride(&vec![Some(half)]), Ok(1 << 30));
    assert_eq!(vertex_stride(&vec![Some(half), None, Some(half)]), Err(LayoutError::StrideTooLarge));
    let max = VertexAttribute::new(i32::MAX as u32, FLOAT, 1);
    assert_eq!(vertex_stride(&vec![Some(max)]), Ok(i32::MAX));
}

#[test]
fn count_out_of_range_is_rejected() {
    let wide = VertexAttribute::new(u32::MAX, FLOAT, 0);
    assert_eq!(vertex_stride(&vec![Some(wide)]), Ok(0));
    assert_eq!(attribute_pointers(&vec![Some(wide)]), Err(LayoutError::AttributeOutOfRange));
}

#[test]
fn divisor_too_large_is_rejected() {
    let wide = VertexAttribute::new(u32::MAX, FLOAT, 0);
    let attrs = Some(vec![Some(wide), Some(VertexAttribute::new(1, FLOAT, 0))]);
    assert_eq!(vertex_divisor(&attrs), Err(LayoutError::DivisorTooLarge));
    assert_eq!(vertex_count(3, &attrs), Err(LayoutError::DivisorTooLarge));
    assert_eq!(vertex_divisor(&Some(vec![Some(wide)])), Ok(u32::MAX));
}

#[test]
fn vertex_count_too_large_is_rejected() {
    let n = i32::MAX as usize + 1;
    assert_eq!(vertex_count(n, &None), Err(LayoutError::VertexCountTooLarge));
    assert_eq!(vertex_count(n - 1, &None), Ok(i32::MAX));
    assert_eq!(vertex_count(2 * (n - 1), &Some(vec![Some(VertexAttribute::new(2, FLOAT, 4))])), Ok(i32::MAX));
}
