use cxx_gen::{symbol, symbols, ElementType, ShimOp};
use std::mem::{align_of, size_of};

const ALL: [ElementType; 12] = [
    ElementType::Bool,
    ElementType::U8,
    ElementType::U16,
    ElementType::U32,
    ElementType::U64,
    ElementType::I8,
    ElementType::I16,
    ElementType::I32,
    ElementType::I64,
    ElementType::F32,
    ElementType::F64,
    ElementType::Text,
];

#[test]
fn symbol_spelling() {
    assert_eq!(symbol(ElementType::U32, ShimOp::New), "cxxbridge04$rust_vec$u32$new");
    assert_eq!(symbol(ElementType::Text, ShimOp::Stride), "cxxbridge04$rust_vec$string$stride");
    assert_eq!(symbol(ElementType::Bool, ShimOp::Drop), "cxxbridge04$rust_vec$bool$drop");
    assert_eq!(symbol(ElementType::F64, ShimOp::Data), "cxxbridge04$rust_vec$f64$data");
    assert_eq!(symbol(ElementType::I8, ShimOp::Len), "cxxbridge04$rust_vec$i8$len");
}

#[test]
fn u32_and_text_give_ten_distinct_symbols() {
    let mut all = symbols(ElementType::U32);
    all.extend(symbols(ElementType::Text));
    assert_eq!(all.len(), 10);
    for i in 0..all.len() {
        for j in (i + 1)..all.len() {
            assert_ne!(all[i], all[j]);
        }
    }
    assert_eq!(all[4], "cxxbridge04$rust_vec$u32$stride");
    assert_eq!(all[5], "cxxbridge04$rust_vec$string$new");
}

#[test]
fn all_symbols_distinct() {
    let mut all: Vec<String> = Vec::new();
    for t in ALL {
        all.extend(symbols(t));
    }
    assert_eq!(all.len(), 60);
    let mut sorted = all.clone();
    sorted.sort();
    sorted.dedup();
    assert_eq!(sorted.len(), 60);
}

#[test]
fn strides_match_native_sizes() {
    assert_eq!(ElementType::Bool.stride(), size_of::<bool>());
    assert_eq!(ElementType::U8.stride(), 1);
    assert_eq!(ElementType::U16.stride(), 2);
    assert_eq!(ElementType::U32.stride(), 4);
    assert_eq!(ElementType::U64.stride(), 8);
    assert_eq!(ElementType::I8.stride(), 1);
    assert_eq!(ElementType::I16.stride(), 2);
    assert_eq!(ElementType::I32.stride(), 4);
    assert_eq!(ElementType::I64.stride(), 8);
    assert_eq!(ElementType::F32.stride(), size_of::<f32>());
    assert_eq!(ElementType::F64.stride(), size_of::<f64>());
    assert_eq!(ElementType::Text.stride(), size_of::<String>());
}

#[test]
fn float_stride_is_four() {
    assert_eq!(ElementType::F32.stride(), 4);
}

#[test]
fn segments_and_names() {
    assert_eq!(ElementType::Text.segment(), "string");
    assert_eq!(ElementType::I64.segment(), "i64");
    assert_eq!(ShimOp::Stride.name(), "stride");
}

fn layout_holds<T>() {
    assert_eq!(size_of::<Vec<T>>(), 3 * size_of::<usize>());
    assert_eq!(align_of::<Vec<T>>(), align_of::<usize>());
}

#[test]
fn sequence_layout_is_three_words() {
    layout_holds::<bool>();
    layout_holds::<u8>();
    layout_holds::<u16>();
    layout_holds::<u32>();
    layout_holds::<u64>();
    layout_holds::<i8>();
    layout_holds::<i16>();
    layout_holds::<i32>();
    layout_holds::<i64>();
    layout_holds::<f32>();
    layout_holds::<f64>();
    layout_holds::<String>();
}

#[test]
fn new_then_push_round_trip() {
    let mut v: Vec<f32> = Vec::new();
    assert_eq!(v.len(), 0);
    v.push(1.5);
    assert_eq!(v.len(), 1);
    assert!(std::ptr::eq(v.as_ptr(), &v[0]));
    assert_eq!(ElementType::F32.stride(), 4);
}
