//! Naming and element strides of the foreign-callable shims that the other
//! language side uses to reach a growable sequence: five operations for each
//! supported element type.
use vstd::prelude::*;

verus! {

/// An element type for which sequence shims exist.
#[derive(Clone, Copy, PartialEq, Eq, Debug, Structural)]
pub enum ElementType {
    Bool,
    U8,
    U16,
    U32,
    U64,
    I8,
    I16,
    I32,
    I64,
    F32,
    F64,
    /// The owned text-string type.
    Text,
}

/// One of the five operations offered for a sequence.
#[derive(Clone, Copy, PartialEq, Eq, Debug, Structural)]
pub enum ShimOp {
    /// Constructs an empty sequence in place.
    New,
    /// Destroys a sequence in place.
    Drop,
    /// Number of elements.
    Len,
    /// Pointer to the first element.
    Data,
    /// Byte size of one element.
    Stride,
}

/// The segment of a symbol that names the element type: the primitive's own
/// name, or `string` for text.
pub open spec fn segment_of(t: ElementType) -> Seq<char> {
    match t {
        ElementType::Bool => seq!['b', 'o', 'o', 'l'],
        ElementType::U8 => seq!['u', '8'],
        ElementType::U16 => seq!['u', '1', '6'],
        ElementType::U32 => seq!['u', '3', '2'],
        ElementType::U64 => seq!['u', '6', '4'],
        ElementType::I8 => seq!['i', '8'],
        ElementType::I16 => seq!['i', '1', '6'],
        ElementType::I32 => seq!['i', '3', '2'],
        ElementType::I64 => seq!['i', '6', '4'],
        ElementType::F32 => seq!['f', '3', '2'],
        ElementType::F64 => seq!['f', '6', '4'],
        ElementType::Text => seq!['s', 't', 'r', 'i', 'n', 'g'],
    }
}

/// The segment of a symbol that names the operation.
pub open spec fn op_name(op: ShimOp) -> Seq<char> {
    match op {
        ShimOp::New => seq!['n', 'e', 'w'],
        ShimOp::Drop => seq!['d', 'r', 'o', 'p'],
        ShimOp::Len => seq!['l', 'e', 'n'],
        ShimOp::Data => seq!['d', 'a', 't', 'a'],
        ShimOp::Stride => seq!['s', 't', 'r', 'i', 'd', 'e'],
    }
}

/// The fixed start of every shim symbol.
pub open spec fn symbol_prefix() -> Seq<char> {
    "cxxbridge04$rust_vec$"@
}

/// The exported symbol of an operation for an element type: the prefix, the
/// type segment, a `$`, and the operation segment.
pub open spec fn symbol_of(t: ElementType, op: ShimOp) -> Seq<char> {
    symbol_prefix() + segment_of(t) + seq!['$'] + op_name(op)
}

/// Byte size of one element of the given type.
pub open spec fn stride_of(t: ElementType) -> nat {
    match t {
        ElementType::Bool => 1,
        ElementType::U8 => 1,
        ElementType::U16 => 2,
        ElementType::U32 => 4,
        ElementType::U64 => 8,
        ElementType::I8 => 1,
        ElementType::I16 => 2,
        ElementType::I32 => 4,
        ElementType::I64 => 8,
        ElementType::F32 => 4,
        ElementType::F64 => 8,
        ElementType::Text => vstd::layout::size_of::<String>(),
    }
}

/// All element types, in the order their shims are instantiated.
pub open spec fn all_element_types() -> Seq<ElementType> {
    seq![
        ElementType::Bool,
        ElementType::U8,
        ElementType::U16,
        ElementType::U32,
        ElementType::U64,
        ElementType::I8,
        ElementType::I16,
        ElementType::I32,
        ElementType::I64,
        ElementType::F32,
        ElementType::F64,
        ElementType::Text,
    ]
}

/// The five operations, in the order their shims are emitted.
pub open spec fn all_ops() -> Seq<ShimOp> {
    seq![ShimOp::New, ShimOp::Drop, ShimOp::Len, ShimOp::Data, ShimOp::Stride]
}

impl ElementType {
    /// The symbol segment of this element type.
    pub fn segment(self) -> (r: &'static str)
        ensures
            r@ == segment_of(self),
    {
        proof {
            reveal_strlit("bool");
            reveal_strlit("u8");
            reveal_strlit("u16");
            reveal_strlit("u32");
            reveal_strlit("u64");
            reveal_strlit("i8");
            reveal_strlit("i16");
            reveal_strlit("i32");
            reveal_strlit("i64");
            reveal_strlit("f32");
            reveal_strlit("f64");
            reveal_strlit("string");
        }
        match self {
            ElementType::Bool => "bool",
            ElementType::U8 => "u8",
            ElementType::U16 => "u16",
            ElementType::U32 => "u32",
            ElementType::U64 => "u64",
            ElementType::I8 => "i8",
            ElementType::I16 => "i16",
            ElementType::I32 => "i32",
            ElementType::I64 => "i64",
            ElementType::F32 => "f32",
            ElementType::F64 => "f64",
            ElementType::Text => "string",
        }
    }

    /// Byte size of one element, what the stride operation reports.
    pub fn stride(self) -> (r: usize)
        ensures
            r as nat == stride_of(self),
    {
        broadcast use vstd::layout::layout_of_primitives;

        match self {
            ElementType::Bool => core::mem::size_of::<bool>(),
            ElementType::U8 => core::mem::size_of::<u8>(),
            ElementType::U16 => core::mem::size_of::<u16>(),
            ElementType::U32 => core::mem::size_of::<u32>(),
            ElementType::U64 => core::mem::size_of::<u64>(),
            ElementType::I8 => core::mem::size_of::<i8>(),
            ElementType::I16 => core::mem::size_of::<i16>(),
            ElementType::I32 => core::mem::size_of::<i32>(),
            ElementType::I64 => core::mem::size_of::<i64>(),
            // The two floating-point widths have the sizes their names state.
            ElementType::F32 => 4,
            ElementType::F64 => 8,
            ElementType::Text => core::mem::size_of::<String>(),
        }
    }
}

impl ShimOp {
    /// The symbol segment of this operation.
    pub fn name(self) -> (r: &'static str)
        ensures
            r@ == op_name(self),
    {
        proof {
            reveal_strlit("new");
            reveal_strlit("drop");
            reveal_strlit("len");
            reveal_strlit("data");
            reveal_strlit("stride");
        }
        match self {
            ShimOp::New => "new",
            ShimOp::Drop => "drop",
            ShimOp::Len => "len",
            ShimOp::Data => "data",
            ShimOp::Stride => "stride",
        }
    }
}

/// The exported symbol of one shim.
pub fn symbol(t: ElementType, op: ShimOp) -> (r: String)
    ensures
        r@ == symbol_of(t, op),
{
    let mut s = String::from_str("cxxbridge04$rust_vec$");
    s.append(t.segment());
    s.append("$");
    proof {
        reveal_strlit("$");
    }
    s.append(op.name());
    s
}

/// The five exported symbols of an element type, in operation order.
pub fn symbols(t: ElementType) -> (r: Vec<String>)
    ensures
        r@.len() == 5,
        forall|i: int| 0 <= i < 5 ==> #[trigger] r@[i]@ == symbol_of(t, all_ops()[i]),
{
    let mut r: Vec<String> = Vec::new();
    r.push(symbol(t, ShimOp::New));
    r.push(symbol(t, ShimOp::Drop));
    r.push(symbol(t, ShimOp::Len));
    r.push(symbol(t, ShimOp::Data));
    r.push(symbol(t, ShimOp::Stride));
    r
}

proof fn lemma_segment_has_no_dollar(t: ElementType)
    ensures
        forall|k: int| 0 <= k < segment_of(t).len() ==> segment_of(t)[k] != '$',
{
}

proof fn lemma_segments_distinct(t1: ElementType, t2: ElementType)
    requires
        segment_of(t1) == segment_of(t2),
    ensures
        t1 == t2,
{
    assert(segment_of(t1).len() == segment_of(t2).len());
    assert(segment_of(t1)[0] == segment_of(t2)[0]);
    if segment_of(t1).len() > 1 {
        assert(segment_of(t1)[1] == segment_of(t2)[1]);
    }
    if segment_of(t1).len() > 2 {
        assert(segment_of(t1)[2] == segment_of(t2)[2]);
    }
}

proof fn lemma_op_names_distinct(o1: ShimOp, o2: ShimOp)
    requires
        op_name(o1) == op_name(o2),
    ensures
        o1 == o2,
{
    assert(op_name(o1).len() == op_name(o2).len());
    assert(op_name(o1)[0] == op_name(o2)[0]);
    assert(op_name(o1)[1] == op_name(o2)[1]);
}

/// Shim symbols never collide: two shims have the same symbol only if they
/// are the same operation for the same element type.
pub proof fn lemma_symbols_unique(t1: ElementType, o1: ShimOp, t2: ElementType, o2: ShimOp)
    ensures
        symbol_of(t1, o1) == symbol_of(t2, o2) <==> (t1 == t2 && o1 == o2),
{
    if symbol_of(t1, o1) == symbol_of(t2, o2) {
        let s = symbol_of(t1, o1);
        let p = symbol_prefix().len() as int;
        let a1 = segment_of(t1).len() as int;
        let a2 = segment_of(t2).len() as int;
        lemma_segment_has_no_dollar(t1);
        lemma_segment_has_no_dollar(t2);
        assert(s[p + a1] == '$');
        assert(symbol_of(t2, o2)[p + a2] == '$');
        if a1 < a2 {
            assert(symbol_of(t2, o2)[p + a1] == segment_of(t2)[a1]);
        }
        if a2 < a1 {
            assert(s[p + a2] == segment_of(t1)[a2]);
        }
        assert(a1 == a2);
        assert(s.subrange(p, p + a1) =~= segment_of(t1));
        assert(symbol_of(t2, o2).subrange(p, p + a2) =~= segment_of(t2));
        lemma_segments_distinct(t1, t2);
        assert(s.subrange(p + a1 + 1, s.len() as int) =~= op_name(o1));
        assert(symbol_of(t2, o2).subrange(p + a2 + 1, s.len() as int) =~= op_name(o2));
        lemma_op_names_distinct(o1, o2);
    }
}

} // verus!
