//! Types, constant values and operators of the IR.

use vstd::prelude::*;

verus! {

/// The type of an IR value.
#[derive(Debug, PartialEq)]
pub enum IrType {
    Void,
    Bool,
    I8,
    I16,
    I32,
    I64,
    U8,
    U16,
    U32,
    U64,
    F32,
    F64,
    Ptr(Box<IrType>),
    Ref(Box<IrType>),
    Array(Box<IrType>, usize),
    Slice(Box<IrType>),
    String,
    Struct { name: String, fields: Vec<IrType> },
    Union { name: String, variants: Vec<IrType> },
    Function { params: Vec<IrType>, return_type: Box<IrType>, varargs: bool },
    Opaque { name: String, size: usize, align: usize },
    Any,
    TypeVar(String),
}

/// The mathematical shape of an `IrType`: the same tree with sequences in
/// place of vectors and character sequences in place of strings.
pub enum TypeModel {
    Void,
    Bool,
    I8,
    I16,
    I32,
    I64,
    U8,
    U16,
    U32,
    U64,
    F32,
    F64,
    Ptr(Box<TypeModel>),
    Ref(Box<TypeModel>),
    Array(Box<TypeModel>, usize),
    Slice(Box<TypeModel>),
    Str,
    Struct { name: Seq<char>, fields: Seq<TypeModel> },
    Union { name: Seq<char>, variants: Seq<TypeModel> },
    Function { params: Seq<TypeModel>, return_type: Box<TypeModel>, varargs: bool },
    Opaque { name: Seq<char>, size: usize, align: usize },
    Any,
    TypeVar(Seq<char>),
}

impl View for IrType {
    type V = TypeModel;

    open spec fn view(&self) -> TypeModel
        decreases self,
    {
        match self {
            IrType::Void => TypeModel::Void,
            IrType::Bool => TypeModel::Bool,
            IrType::I8 => TypeModel::I8,
            IrType::I16 => TypeModel::I16,
            IrType::I32 => TypeModel::I32,
            IrType::I64 => TypeModel::I64,
            IrType::U8 => TypeModel::U8,
            IrType::U16 => TypeModel::U16,
            IrType::U32 => TypeModel::U32,
            IrType::U64 => TypeModel::U64,
            IrType::F32 => TypeModel::F32,
            IrType::F64 => TypeModel::F64,
            IrType::Ptr(b) => TypeModel::Ptr(Box::new((**b).view())),
            IrType::Ref(b) => TypeModel::Ref(Box::new((**b).view())),
            IrType::Array(b, n) => TypeModel::Array(Box::new((**b).view()), *n),
            IrType::Slice(b) => TypeModel::Slice(Box::new((**b).view())),
            IrType::String => TypeModel::Str,
            IrType::Struct { name, fields } => TypeModel::Struct {
                name: name@,
                fields: types_view(fields@),
            },
            IrType::Union { name, variants } => TypeModel::Union {
                name: name@,
                variants: types_view(variants@),
            },
            IrType::Function { params, return_type, varargs } => TypeModel::Function {
                params: types_view(params@),
                return_type: Box::new((**return_type).view()),
                varargs: *varargs,
            },
            IrType::Opaque { name, size, align } => TypeModel::Opaque {
                name: name@,
                size: *size,
                align: *align,
            },
            IrType::Any => TypeModel::Any,
            IrType::TypeVar(n) => TypeModel::TypeVar(n@),
        }
    }
}

/// The models of a sequence of types, element by element.
pub open spec fn types_view(s: Seq<IrType>) -> Seq<TypeModel>
    decreases s,
{
    if s.len() == 0 {
        Seq::empty()
    } else {
        types_view(s.drop_last()).push(s.last().view())
    }
}

pub proof fn lemma_types_view(s: Seq<IrType>)
    ensures
        types_view(s).len() == s.len(),
        forall|i: int| 0 <= i < s.len() ==> #[trigger] types_view(s)[i] == s[i]@,
    decreases s.len(),
{
    if s.len() > 0 {
        lemma_types_view(s.drop_last());
        assert(types_view(s) == types_view(s.drop_last()).push(s.last().view()));
    } else {
        assert(types_view(s) == Seq::<TypeModel>::empty());
    }
}

/// Two sequences of types whose elements have the same models have the same model.
pub proof fn lemma_types_view_eq(a: Seq<IrType>, b: Seq<IrType>)
    requires
        a.len() == b.len(),
        forall|i: int| 0 <= i < a.len() ==> (#[trigger] a[i])@ == b[i]@,
    ensures
        types_view(a) == types_view(b),
{
    lemma_types_view(a);
    lemma_types_view(b);
    assert(types_view(a) =~= types_view(b));
}

/// Copies a vector of types, element by element.
pub fn copy_types(v: &Vec<IrType>) -> (r: Vec<IrType>)
    ensures
        r@.len() == v@.len(),
        forall|i: int| 0 <= i < v@.len() ==> (#[trigger] r@[i])@ == v@[i]@,
    decreases v@, 0nat,
{
    let mut r: Vec<IrType> = Vec::new();
    let mut i: usize = 0;
    while i < v.len()
        invariant
            i <= v@.len(),
            r@.len() == i,
            forall|k: int| 0 <= k < i ==> (#[trigger] r@[k])@ == v@[k]@,
        decreases v@.len() - i,
    {
        let t = v[i].copy_type();
        r.push(t);
        i = i + 1;
    }
    r
}

impl IrType {
    /// A deep copy of the type.
    pub fn copy_type(&self) -> (r: IrType)
        ensures
            r@ == self@,
        decreases self, 1nat,
    {
        match self {
            IrType::Void => IrType::Void,
            IrType::Bool => IrType::Bool,
            IrType::I8 => IrType::I8,
            IrType::I16 => IrType::I16,
            IrType::I32 => IrType::I32,
            IrType::I64 => IrType::I64,
            IrType::U8 => IrType::U8,
            IrType::U16 => IrType::U16,
            IrType::U32 => IrType::U32,
            IrType::U64 => IrType::U64,
            IrType::F32 => IrType::F32,
            IrType::F64 => IrType::F64,
            IrType::Ptr(b) => IrType::Ptr(Box::new(b.copy_type())),
            IrType::Ref(b) => IrType::Ref(Box::new(b.copy_type())),
            IrType::Array(b, n) => IrType::Array(Box::new(b.copy_type()), *n),
            IrType::Slice(b) => IrType::Slice(Box::new(b.copy_type())),
            IrType::String => IrType::String,
            IrType::Struct { name, fields } => {
                let f = copy_types(fields);
                let r = IrType::Struct { name: name.clone(), fields: f };
                proof { lemma_types_view_eq(f@, fields@); }
                r
            },
            IrType::Union { name, variants } => {
                let f = copy_types(variants);
                let r = IrType::Union { name: name.clone(), variants: f };
                proof { lemma_types_view_eq(f@, variants@); }
                r
            },
            IrType::Function { params, return_type, varargs } => {
                let f = copy_types(params);
                let r = IrType::Function {
                    params: f,
                    return_type: Box::new(return_type.copy_type()),
                    varargs: *varargs,
                };
                proof { lemma_types_view_eq(f@, params@); }
                r
            },
            IrType::Opaque { name, size, align } => IrType::Opaque {
                name: name.clone(),
                size: *size,
                align: *align,
            },
            IrType::Any => IrType::Any,
            IrType::TypeVar(n) => IrType::TypeVar(n.clone()),
        }
    }
}

impl Clone for IrType {
    fn clone(&self) -> (r: IrType)
        ensures
            r@ == self@,
    {
        self.copy_type()
    }
}

/// A constant value.
#[derive(Debug, PartialEq)]
pub enum IrValue {
    Undef,
    Null,
    Bool(bool),
    I8(i8),
    I16(i16),
    I32(i32),
    I64(i64),
    U8(u8),
    U16(u16),
    U32(u32),
    U64(u64),
    String(String),
}

impl Clone for IrValue {
    fn clone(&self) -> (r: IrValue)
        ensures
            r == *self,
    {
        match self {
            IrValue::Undef => IrValue::Undef,
            IrValue::Null => IrValue::Null,
            IrValue::Bool(b) => IrValue::Bool(*b),
            IrValue::I8(v) => IrValue::I8(*v),
            IrValue::I16(v) => IrValue::I16(*v),
            IrValue::I32(v) => IrValue::I32(*v),
            IrValue::I64(v) => IrValue::I64(*v),
            IrValue::U8(v) => IrValue::U8(*v),
            IrValue::U16(v) => IrValue::U16(*v),
            IrValue::U32(v) => IrValue::U32(*v),
            IrValue::U64(v) => IrValue::U64(*v),
            IrValue::String(s) => IrValue::String(s.clone()),
        }
    }
}

/// Arithmetic and bitwise operators.
#[derive(Clone, Copy, Debug, PartialEq, Eq, Structural)]
pub enum BinaryOp {
    Add,
    Sub,
    Mul,
    Div,
    Rem,
    And,
    Or,
    Xor,
    Shl,
    Shr,
    FAdd,
    FSub,
    FMul,
    FDiv,
    FRem,
}

/// Unary operators.
#[derive(Clone, Copy, Debug, PartialEq, Eq, Structural)]
pub enum UnaryOp {
    Neg,
    Not,
    FNeg,
}

/// Comparison operators.
#[derive(Clone, Copy, Debug, PartialEq, Eq, Structural)]
pub enum CompareOp {
    Eq,
    Ne,
    Lt,
    Le,
    Gt,
    Ge,
    ULt,
    ULe,
    UGt,
    UGe,
}

/// How a function receives its arguments.
#[derive(Clone, Copy, Debug, PartialEq, Eq, Structural)]
pub enum CallingConvention {
    Haxe,
    C,
    Fast,
}

/// A position in a source file, kept for debugging.
#[derive(Clone, Copy, Debug, PartialEq, Eq, Structural)]
pub struct IrSourceLocation {
    pub file_id: u32,
    pub line: u32,
    pub column: u32,
}

impl IrSourceLocation {
    pub open spec fn unknown_spec() -> IrSourceLocation {
        IrSourceLocation { file_id: 0, line: 0, column: 0 }
    }

    pub fn unknown() -> (r: IrSourceLocation)
        ensures
            r == Self::unknown_spec(),
    {
        IrSourceLocation { file_id: 0, line: 0, column: 0 }
    }
}

} // verus!
