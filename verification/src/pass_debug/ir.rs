//! The library's plain model of a parsed WGSL module: what the AST outline and
//! the dependency index read of the shader IR.
//!
//! Handles are indices into the arena they refer to (the expressions of the
//! enclosing function, or the module's global expressions); debug renderings of
//! front-end values that the outline shows verbatim are kept as text.

use vstd::prelude::*;

verus! {

/// A byte range `[start, end)` of the source.
#[derive(Clone, Copy, Debug, PartialEq, Eq, Structural)]
pub struct IrSpan {
    pub start: usize,
    pub end: usize,
}

/// The pipeline stage of an entry point.
#[derive(Clone, Copy, Debug, PartialEq, Eq, Structural)]
pub enum IrStage {
    Vertex,
    Fragment,
    Compute,
}

/// A component selected by a swizzle.
#[derive(Clone, Copy, Debug, PartialEq, Eq, Structural)]
pub enum IrSwizzleComponent {
    X,
    Y,
    Z,
    W,
}

/// A named operand of an expression or statement; `handle` is `None` when an
/// optional operand is absent.
#[derive(Debug)]
pub struct IrOperand {
    pub label: &'static str,
    pub handle: Option<usize>,
}

/// An expression whose operands are other expressions of the same arena.
/// Textual payloads are the front end's debug renderings.
#[derive(Debug)]
pub enum IrExprOp {
    Access { base: usize, index: usize },
    AccessIndex { base: usize, index: u32 },
    /// `size` is the debug rendering of the vector size, `width` its number of components.
    Splat { size: String, width: usize, value: usize },
    Load { pointer: usize },
    ImageSample {
        level: String,
        image: usize,
        sampler: usize,
        coordinate: usize,
        array_index: Option<usize>,
        offset: Option<usize>,
        depth_ref: Option<usize>,
    },
    ImageLoad {
        image: usize,
        coordinate: usize,
        array_index: Option<usize>,
        sample: Option<usize>,
        level: Option<usize>,
    },
    ImageQuery { query: String, image: usize },
    Unary { op: String, expr: usize },
    Binary { op: String, left: usize, right: usize },
    Select { condition: usize, accept: usize, reject: usize },
    Derivative { axis: String, ctrl: String, expr: usize },
    Relational { fun: String, argument: usize },
    Math { fun: String, arg: usize, arg1: Option<usize>, arg2: Option<usize>, arg3: Option<usize> },
    As { kind: String, convert: String, expr: usize },
    RayQueryGetIntersection { query: usize, committed: bool },
}

/// An expression shown without operand expressions. Handles are the indices
/// of the items they name.
#[derive(Debug)]
pub enum IrExprLeaf {
    Literal(String),
    Constant(usize),
    Override(usize),
    ZeroValue(usize),
    FunctionArgument(u32),
    GlobalVariable(usize),
    LocalVariable(usize),
    CallResult(usize),
    AtomicResult { ty: usize, comparison: bool },
    WorkGroupUniformLoadResult { ty: usize },
    ArrayLength(usize),
    RayQueryProceedResult,
    SubgroupBallotResult,
    SubgroupOperationResult { ty: usize },
    /// An expression of a shape this model does not list, by its debug rendering.
    Unlisted(String),
}

/// The shape of an expression.
#[derive(Debug)]
pub enum IrExprKind {
    /// A composite built from the listed component expressions.
    Compose { ty: usize, components: Vec<usize> },
    /// A swizzle of `size` components of `vector`.
    Swizzle { size: usize, vector: usize, pattern: [IrSwizzleComponent; 4] },
    Operands { op: IrExprOp },
    /// `pretty` is the expression's full multi-line debug rendering.
    Leaf { leaf: IrExprLeaf, pretty: String },
}

#[derive(Debug)]
pub struct IrExpression {
    pub kind: IrExprKind,
    pub span: Option<IrSpan>,
}

#[derive(Debug)]
pub struct IrSwitchCase {
    /// Debug rendering of the case value (`I32(2)`, `Default`, ...).
    pub value: String,
    pub fall_through: bool,
    pub body: Vec<IrStatement>,
}

/// A statement with operand expressions; textual payloads are debug renderings.
#[derive(Debug)]
pub enum IrStmtOp {
    Store { pointer: usize, value: usize },
    ImageStore { image: usize, coordinate: usize, array_index: Option<usize>, value: usize },
    Atomic { fun: String, pointer: usize, value: usize, result: Option<usize> },
    WorkGroupUniformLoad { pointer: usize, result: usize },
    RayQuery { fun: String, query: usize },
    SubgroupBallot { result: usize, predicate: Option<usize> },
    SubgroupGather { mode: String, argument: usize, result: usize },
    SubgroupCollectiveOperation { op: String, collective_op: String, argument: usize, result: usize },
}

/// A statement without operands.
#[derive(Debug)]
pub enum IrStmtLeaf {
    Break,
    Continue,
    Kill,
    Barrier(String),
    /// A statement of a shape this model does not list, by its debug rendering.
    Unlisted(String),
}

/// The shape of a statement.
#[derive(Debug)]
pub enum IrStatement {
    /// Emits the expressions with handles in `[start, end)`.
    Emit { start: usize, end: usize },
    Block { body: Vec<IrStatement> },
    If { condition: usize, accept: Vec<IrStatement>, reject: Vec<IrStatement> },
    Switch { selector: usize, cases: Vec<IrSwitchCase> },
    Loop { body: Vec<IrStatement>, continuing: Vec<IrStatement>, break_if: Option<usize> },
    Return { value: Option<usize> },
    Call { function: usize, arguments: Vec<usize>, result: Option<usize> },
    Operands { op: IrStmtOp },
    /// `pretty` is the statement's full multi-line debug rendering.
    Leaf { leaf: IrStmtLeaf, pretty: String },
}

#[derive(Debug)]
pub struct IrArgument {
    pub name: Option<String>,
    pub ty: usize,
    /// Debug rendering of the argument's binding.
    pub binding: String,
}

#[derive(Debug)]
pub struct IrResult {
    pub ty: usize,
    pub binding: String,
}

#[derive(Debug)]
pub struct IrLocal {
    pub name: Option<String>,
    pub ty: usize,
    pub init: Option<usize>,
    pub span: Option<IrSpan>,
}

#[derive(Debug)]
pub struct IrNamedExpression {
    pub handle: usize,
    pub name: String,
}

#[derive(Debug)]
pub struct IrFunction {
    pub name: Option<String>,
    pub arguments: Vec<IrArgument>,
    pub result: Option<IrResult>,
    pub locals: Vec<IrLocal>,
    pub expressions: Vec<IrExpression>,
    pub named_expressions: Vec<IrNamedExpression>,
    pub body: Vec<IrStatement>,
}

#[derive(Debug)]
pub struct IrEntryPoint {
    pub name: String,
    pub stage: IrStage,
    /// Debug rendering of the early depth test setting.
    pub early_depth_test: String,
    pub workgroup_size: [u32; 3],
    pub function: IrFunction,
}

#[derive(Debug)]
pub struct IrGlobal {
    pub name: Option<String>,
    /// Debug renderings of the address space and of the resource binding.
    pub space: String,
    pub binding: String,
    pub ty: usize,
    pub init: Option<usize>,
    pub span: Option<IrSpan>,
}

/// A member of a struct type.
#[derive(Debug)]
pub struct IrMember {
    pub name: Option<String>,
    pub ty: usize,
}

/// What the dependency analysis reads of a type's definition.
#[derive(Debug)]
pub enum IrTypeShape {
    /// A vector of `size` components.
    Vector { size: usize },
    Struct { members: Vec<IrMember> },
    Array { base: usize },
    BindingArray { base: usize },
    Pointer { base: usize },
    /// Any other type.
    Other,
}

#[derive(Debug)]
pub struct IrType {
    pub name: Option<String>,
    /// Debug rendering of the type's definition.
    pub inner: String,
    pub shape: IrTypeShape,
}

#[derive(Debug)]
pub struct IrConstant {
    pub name: Option<String>,
    pub ty: usize,
    pub init: usize,
}

#[derive(Debug)]
pub struct IrOverride {
    pub name: Option<String>,
    pub id: Option<u16>,
    pub ty: usize,
    pub init: Option<usize>,
}

/// A parsed WGSL module.
#[derive(Debug)]
pub struct ShaderModule {
    pub entry_points: Vec<IrEntryPoint>,
    pub functions: Vec<IrFunction>,
    pub globals: Vec<IrGlobal>,
    pub types: Vec<IrType>,
    pub constants: Vec<IrConstant>,
    pub overrides: Vec<IrOverride>,
    pub global_expressions: Vec<IrExpression>,
}

} // verus!
