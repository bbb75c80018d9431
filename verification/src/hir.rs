//! The parts of the front end's high-level IR and type table that lowering
//! reads: types by kind, the signatures of module functions, and the shape of
//! function bodies (expressions, statements, patterns and assignment targets).

use vstd::prelude::*;
use crate::ids::SymbolId;

verus! {

/// A type of the front end's type table.
#[derive(Clone, Copy, Debug, PartialEq, Eq, Hash, Structural)]
pub struct TypeId(pub u32);

/// The kind of a type of the type table, with what lowering reads of it.
#[derive(Debug)]
pub enum TypeKind {
    Int,
    Float,
    Bool,
    Void,
    String,
    Char,
    Function { params: Vec<TypeId>, return_type: TypeId },
    /// A class; `symbol_id` is the class's symbol.
    Class { symbol_id: SymbolId },
    Interface,
    Enum,
    Array { element_type: TypeId },
    Optional { inner_type: TypeId },
    Abstract { underlying: Option<TypeId> },
    /// A type parameter; `name` is its symbol's name, where the symbol
    /// table has one.
    TypeParameter { symbol_id: SymbolId, name: Option<String> },
    Dynamic,
    Unknown,
    Error,
    GenericInstance,
    /// A map type.
    MapType,
    /// An anonymous structure type.
    Anonymous { fields: Vec<AnonymousField> },
    Union,
    Intersection,
    TypeAlias { target_type: TypeId },
    Placeholder,
    /// Any other kind.
    Other,
}

/// An interned name: its id in the string interner, and its text where the
/// interner has it.
#[derive(Debug)]
pub struct InternedName {
    pub raw: u32,
    pub text: Option<String>,
}

/// A field of an anonymous structure type.
#[derive(Debug)]
pub struct AnonymousField {
    pub name: InternedName,
    pub type_id: TypeId,
}

/// The type table: the kind of each type, each id once.
#[derive(Debug)]
pub struct TypeTable {
    pub types: Vec<(TypeId, TypeKind)>,
}

/// A type parameter of a function; `name` is its interned name, where the
/// interner has it, and `raw` the interned id.
#[derive(Debug)]
pub struct HirTypeParam {
    pub name: Option<String>,
    pub raw: u32,
}

/// A parameter of a function.
#[derive(Debug)]
pub struct HirParam {
    pub symbol_id: SymbolId,
    pub name: String,
    pub ty: TypeId,
}

/// A literal of the front end, as attribute arguments carry it.
#[derive(Debug)]
pub enum HirLiteral {
    Int(i64),
    Bool(bool),
    /// A string literal, its interned text resolved.
    String(String),
    /// A regular-expression literal.
    Regex,
}

/// An argument of an attribute.
#[derive(Debug)]
pub enum HirAttributeArg {
    Literal(HirLiteral),
    /// A named or expression argument.
    Other,
}

/// An attribute attached to a function, such as the optimization hints
/// that the front end's data-flow analysis leaves for lowering.
#[derive(Debug)]
pub struct HirAttribute {
    pub name: String,
    pub args: Vec<HirAttributeArg>,
}

/// What lowering reads of a function to register it: its name (where the
/// interner has it), type parameters, parameters, return type, linkage, and
/// the attributes it carries.
#[derive(Debug)]
pub struct HirFunction {
    pub symbol_id: SymbolId,
    pub name: Option<String>,
    pub type_params: Vec<HirTypeParam>,
    pub params: Vec<HirParam>,
    pub return_type: TypeId,
    pub is_extern: bool,
    pub metadata: Vec<HirAttribute>,
    /// The body; none for an extern function.
    pub body: Option<HirBlock>,
}

/// A binary operator of the front end.
#[derive(Clone, Copy, Debug, PartialEq, Eq, Structural)]
pub enum HirBinaryOp {
    Add,
    Sub,
    Mul,
    Div,
    Mod,
    Eq,
    Ne,
    Lt,
    Le,
    Gt,
    Ge,
    BitAnd,
    BitOr,
    BitXor,
    Shl,
    Shr,
    And,
    Or,
}

/// A unary operator of the front end.
#[derive(Clone, Copy, Debug, PartialEq, Eq, Structural)]
pub enum HirUnaryOp {
    Not,
    Neg,
    BitNot,
    PreIncr,
    PreDecr,
    PostIncr,
    PostDecr,
}

/// An expression of a function body, with its type.
#[derive(Debug)]
pub struct HirExpr {
    pub kind: HirExprKind,
    pub ty: TypeId,
}

/// The kinds of expression of a function body.
#[derive(Debug)]
pub enum HirExprKind {
    Literal(HirLiteral),
    Null,
    /// A read of a local variable or parameter.
    Variable { symbol: SymbolId },
    Binary { op: HirBinaryOp, lhs: Box<HirExpr>, rhs: Box<HirExpr> },
    Unary { op: HirUnaryOp, operand: Box<HirExpr> },
    /// A call of a function value; `callee` names a function of a module
    /// directly, or is any expression giving a function pointer.
    Call { callee: Box<HirExpr>, args: Vec<HirExpr> },
    /// A conversion of the value of `expr` to type `target`.
    Cast { expr: Box<HirExpr>, target: TypeId },
    /// A conditional expression.
    If { condition: Box<HirExpr>, then_expr: Box<HirExpr>, else_expr: Box<HirExpr> },
    /// A block used as an expression.
    Block(HirBlock),
    /// A read of field `field` of the object `object` gives.
    Field { object: Box<HirExpr>, field: SymbolId },
}

/// A block: its statements and the expression that ends it, if any.
#[derive(Debug)]
pub struct HirBlock {
    pub statements: Vec<HirStatement>,
    pub expr: Option<Box<HirExpr>>,
}

/// The target of an assignment: a local variable.
#[derive(Debug)]
pub enum HirLValue {
    Variable(SymbolId),
}

/// A pattern that binds variables.
#[derive(Debug)]
pub enum HirPattern {
    /// Binds `symbol`, named `name` in the source.
    Variable { symbol: SymbolId, name: String },
    Tuple(Vec<HirPattern>),
    /// An enum constructor, named `variant`, with a pattern for each field.
    Constructor { variant: String, fields: Vec<HirPattern> },
    Array { elements: Vec<HirPattern>, rest: Option<Box<HirPattern>> },
    Wildcard,
    /// A literal to compare against: it binds nothing.
    Literal(HirLiteral),
}

/// A statement of a function body.
#[derive(Debug)]
pub enum HirStatement {
    /// A declaration; `type_hint` is the declared type, if any.
    Let { pattern: HirPattern, type_hint: Option<TypeId>, init: Option<HirExpr>, is_mutable: bool },
    Expr(HirExpr),
    /// An assignment; `op` is the operator of a compound assignment.
    Assign { lhs: HirLValue, rhs: HirExpr, op: Option<HirBinaryOp> },
    Return(Option<HirExpr>),
    Break(Option<SymbolId>),
    Continue(Option<SymbolId>),
    If { condition: HirExpr, then_branch: HirBlock, else_branch: Option<HirBlock> },
    While { condition: HirExpr, body: HirBlock, label: Option<SymbolId> },
    DoWhile { body: HirBlock, condition: HirExpr, label: Option<SymbolId> },
    /// A labelled block.
    Label { symbol: SymbolId, block: HirBlock },
}

/// How a property is read or written.
#[derive(Debug, Clone, PartialEq)]
pub enum PropertyAccessor {
    Default,
    Null,
    Never,
    Dynamic,
    /// Through the method of this name.
    Method(String),
}

/// The accessors of a property.
#[derive(Debug, Clone, PartialEq)]
pub struct PropertyAccessInfo {
    pub getter: PropertyAccessor,
    pub setter: PropertyAccessor,
}

/// A field of a class.
#[derive(Debug)]
pub struct HirClassField {
    pub symbol_id: SymbolId,
    pub name: String,
    pub ty: TypeId,
    /// The accessors, for a property with custom ones.
    pub property_access: Option<PropertyAccessInfo>,
}

/// A class: what lowering reads of it to lay out its instances.
#[derive(Debug)]
pub struct HirClass {
    pub symbol_id: SymbolId,
    pub name: String,
    /// The parent class, if any.
    pub extends: Option<TypeId>,
    pub fields: Vec<HirClassField>,
}

/// A method of an interface, by name.
#[derive(Debug)]
pub struct HirInterfaceMethod {
    pub name: String,
}

#[derive(Debug)]
pub struct HirInterface {
    pub name: String,
    pub methods: Vec<HirInterfaceMethod>,
}

/// A field of an enum variant, by name.
#[derive(Debug)]
pub struct HirEnumField {
    pub name: String,
}

/// A variant of an enum, with the discriminant the source gives it, if any.
#[derive(Debug)]
pub struct HirEnumVariant {
    pub name: String,
    pub discriminant: Option<i32>,
    pub fields: Vec<HirEnumField>,
}

#[derive(Debug)]
pub struct HirEnum {
    pub name: String,
    pub variants: Vec<HirEnumVariant>,
}

#[derive(Debug)]
pub struct HirAbstract {
    pub name: String,
}

#[derive(Debug)]
pub struct HirTypeAlias {
    pub name: String,
    pub aliased_type: TypeId,
}

/// A parameter of a constructor; `name` is its text, where the interner
/// has it.
#[derive(Debug)]
pub struct HirConstructorParam {
    pub symbol_id: SymbolId,
    pub name: Option<String>,
    pub ty: TypeId,
}

/// What registering a constructor reads of it: its parameters.
#[derive(Debug)]
pub struct HirConstructor {
    pub params: Vec<HirConstructorParam>,
}

/// What the symbol table gives of a class symbol: its qualified name and
/// its simple name, each as text where the interner has it.
#[derive(Debug)]
pub struct ClassSymbolNames {
    pub qualified: Option<String>,
    pub name: Option<String>,
}

/// A variable a lambda captures, with its type.
#[derive(Debug)]
pub struct HirCapture {
    pub symbol: SymbolId,
    pub ty: TypeId,
}

/// A parameter of a lambda; `name` is its text, where the interner has it.
#[derive(Debug)]
pub struct HirLambdaParam {
    pub name: Option<String>,
    pub ty: TypeId,
}

/// A module of the front end: its name, its source file and its
/// functions (symbol, function).
#[derive(Debug)]
pub struct HirModule {
    pub name: String,
    pub source_file: String,
    pub functions: Vec<(SymbolId, HirFunction)>,
}

/// A type declared by a module.
#[derive(Debug)]
pub enum HirTypeDecl {
    Class(HirClass),
    Interface(HirInterface),
    Enum(HirEnum),
    Abstract(HirAbstract),
    TypeAlias(HirTypeAlias),
}

} // verus!
