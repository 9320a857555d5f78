//! Reading a WGSL module with naga and copying naga's IR into the library's
//! plain model (`super::ir`).
//!
//! Every function here that touches a naga value is a trusted conversion:
//! it copies names, handle indices and spans one for one, and renders naga's
//! debug text for values the outline shows verbatim. Nothing is decided here:
//! the outline and the dependency index are computed from the model by
//! verified code.

use vstd::prelude::*;

use super::ast::module_ok;
use super::ir::{
    IrArgument, IrConstant, IrEntryPoint, IrExprKind, IrExprLeaf, IrExprOp, IrExpression, IrFunction,
    IrGlobal, IrLocal, IrNamedExpression, IrOverride, IrResult, IrSpan, IrStage, IrStatement,
    IrMember, IrStmtLeaf, IrStmtOp, IrSwitchCase, IrSwizzleComponent, IrType, IrTypeShape, ShaderModule,
};
use naga::Expression as E;
use naga::Statement as S;

verus! {

#[verifier::external_type_specification]
#[verifier::external_body]
pub struct ExNagaModule(naga::Module);

#[verifier::external_type_specification]
#[verifier::external_body]
pub struct ExNagaFunction(naga::Function);

#[verifier::external_type_specification]
#[verifier::external_body]
pub struct ExNagaEntryPoint(naga::EntryPoint);

#[verifier::external_type_specification]
#[verifier::external_body]
pub struct ExNagaBlock(naga::Block);

#[verifier::external_type_specification]
#[verifier::external_body]
pub struct ExNagaStatement(naga::Statement);

#[verifier::external_type_specification]
#[verifier::external_body]
pub struct ExNagaExpression(naga::Expression);

#[verifier::external_type_specification]
#[verifier::external_body]
pub struct ExNagaSwitchCase(naga::SwitchCase);

#[verifier::external_type_specification]
#[verifier::external_body]
pub struct ExNagaSwizzleComponent(naga::SwizzleComponent);

#[verifier::external_type_specification]
#[verifier::external_body]
pub struct ExNagaTypeInner(naga::TypeInner);

#[verifier::external_type_specification]
#[verifier::external_body]
#[verifier::reject_recursive_types(T)]
pub struct ExNagaArena<T>(naga::Arena<T>);

/// What the WGSL front end does on a source text: `None` where it does not
/// return, else the module's model or the text of the parse error.
pub uninterp spec fn wgsl_front_end(source: Seq<char>) -> Option<Result<ShaderModule, Seq<char>>>;

/// The sources on which the WGSL front end returns: it panics on a source
/// declaring an array or struct whose byte size or member offset exceeds
/// `u32::MAX` (see `parse_wgsl_module`), and its documentation warns that
/// deep nesting may exhaust the stack. Nothing can tell these sources apart
/// without running the front end itself.
pub open spec fn front_end_returns(source: Seq<char>) -> bool {
    wgsl_front_end(source) is Some
}

/// `naga::front::wgsl::parse_str`, with the module copied into the library's
/// model and the error turned into its display text. The result is claimed to
/// be a function of the source text alone (`wgsl_front_end`).
///
/// The front end does not return on every source: lowering a struct unwraps
/// the layouter's update, which computes the size of an array as its count
/// times its stride and the offsets of struct members in `u32`, so a source
/// declaring a type whose byte size or member offset exceeds `u32::MAX`
/// panics. `requires` leaves out the sources on which it does not return.
///
/// Claimed besides: every handle of the module points into the arena it
/// indexes (`module_ok`), as the front end makes each handle by appending
/// to the arena that the handle then indexes. Nothing is claimed about which
/// sources parse.
#[verifier::external_body]
pub fn parse_wgsl_module(source: &str) -> (r: Result<ShaderModule, String>)
    requires
        front_end_returns(source@),
    ensures
        match r {
            Ok(module) => wgsl_front_end(source@) == Some(Ok::<ShaderModule, Seq<char>>(module)) && module_ok(module),
            Err(error) => wgsl_front_end(source@) == Some(Err::<ShaderModule, Seq<char>>(error@)),
        },
{
    match naga::front::wgsl::parse_str(source) {
        Ok(module) => Ok(lower_module(&module)),
        Err(error) => Err(error.to_string()),
    }
}

/// Copies a naga module.
#[verifier::external_body]
fn lower_module(module: &naga::Module) -> ShaderModule {
    ShaderModule {
        entry_points: module.entry_points.iter().map(lower_entry_point).collect(),
        functions: module.functions.iter().map(|(_, f)| lower_function(f)).collect(),
        globals: lower_globals(module),
        types: lower_types(module),
        constants: lower_constants(module),
        overrides: lower_overrides(module),
        global_expressions: lower_expressions(&module.global_expressions),
    }
}

/// Copies an entry point; the early depth test is rendered.
#[verifier::external_body]
fn lower_entry_point(entry: &naga::EntryPoint) -> IrEntryPoint {
    IrEntryPoint {
        name: entry.name.clone(),
        stage: match entry.stage {
            naga::ShaderStage::Vertex => IrStage::Vertex,
            naga::ShaderStage::Fragment => IrStage::Fragment,
            naga::ShaderStage::Compute => IrStage::Compute,
        },
        early_depth_test: format!("{:?}", entry.early_depth_test),
        workgroup_size: entry.workgroup_size,
        function: lower_function(&entry.function),
    }
}

/// Copies the global variables of a module; space and binding are rendered.
#[verifier::external_body]
fn lower_globals(module: &naga::Module) -> Vec<IrGlobal> {
    let arena = &module.global_variables;
    arena.iter().map(|(h, g)| IrGlobal {
        name: g.name.clone(),
        space: format!("{:?}", g.space),
        binding: format!("{:?}", g.binding),
        ty: g.ty.index(),
        init: g.init.map(naga::Handle::index),
        span: arena.get_span(h).to_range().map(|r| IrSpan { start: r.start, end: r.end }),
    }).collect()
}

/// Copies the types of a module, rendering each definition.
#[verifier::external_body]
fn lower_types(module: &naga::Module) -> Vec<IrType> {
    module.types.iter().map(|(_, t)| IrType {
        name: t.name.clone(),
        inner: format!("{:?}", t.inner),
        shape: lower_type_shape(&t.inner),
    }).collect()
}

/// Copies the shape of a type definition: vector sizes, struct members,
/// array and pointer bases. Scalars, matrices, atomics, value pointers,
/// images, samplers, acceleration structures and ray queries are `Other`.
#[verifier::external_body]
fn lower_type_shape(inner: &naga::TypeInner) -> IrTypeShape {
    match inner {
        naga::TypeInner::Vector { size, .. } => IrTypeShape::Vector { size: *size as usize },
        naga::TypeInner::Struct { members, .. } => IrTypeShape::Struct {
            members: members.iter().map(|m| IrMember { name: m.name.clone(), ty: m.ty.index() }).collect(),
        },
        naga::TypeInner::Array { base, .. } => IrTypeShape::Array { base: base.index() },
        naga::TypeInner::BindingArray { base, .. } => IrTypeShape::BindingArray { base: base.index() },
        naga::TypeInner::Pointer { base, .. } => IrTypeShape::Pointer { base: base.index() },
        _ => IrTypeShape::Other,
    }
}

/// Copies the constants of a module.
#[verifier::external_body]
fn lower_constants(module: &naga::Module) -> Vec<IrConstant> {
    module.constants.iter().map(|(_, c)| IrConstant { name: c.name.clone(), ty: c.ty.index(), init: c.init.index() }).collect()
}

/// Copies the pipeline-overridable constants of a module.
#[verifier::external_body]
fn lower_overrides(module: &naga::Module) -> Vec<IrOverride> {
    module.overrides.iter().map(|(_, o)| IrOverride {
        name: o.name.clone(),
        id: o.id,
        ty: o.ty.index(),
        init: o.init.map(naga::Handle::index),
    }).collect()
}

/// Copies a function.
#[verifier::external_body]
fn lower_function(function: &naga::Function) -> IrFunction {
    IrFunction {
        name: function.name.clone(),
        arguments: lower_arguments(function),
        result: function.result.as_ref().map(|r| IrResult { ty: r.ty.index(), binding: format!("{:?}", r.binding) }),
        locals: lower_locals(function),
        expressions: lower_expressions(&function.expressions),
        named_expressions: function.named_expressions.iter().map(|(h, n)| IrNamedExpression { handle: h.index(), name: n.clone() }).collect(),
        body: lower_block(&function.body),
    }
}

/// Copies the arguments of a function; bindings are rendered.
#[verifier::external_body]
fn lower_arguments(function: &naga::Function) -> Vec<IrArgument> {
    function.arguments.iter().map(|a| IrArgument { name: a.name.clone(), ty: a.ty.index(), binding: format!("{:?}", a.binding) }).collect()
}

/// Copies the local variables of a function.
#[verifier::external_body]
fn lower_locals(function: &naga::Function) -> Vec<IrLocal> {
    let arena = &function.local_variables;
    arena.iter().map(|(h, l)| IrLocal {
        name: l.name.clone(),
        ty: l.ty.index(),
        init: l.init.map(naga::Handle::index),
        span: arena.get_span(h).to_range().map(|r| IrSpan { start: r.start, end: r.end }),
    }).collect()
}

/// Copies an expression arena, with each expression's span.
#[verifier::external_body]
fn lower_expressions(arena: &naga::Arena<naga::Expression>) -> Vec<IrExpression> {
    arena.iter().map(|(h, e)| IrExpression { kind: lower_expression(e), span: arena.get_span(h).to_range().map(|r| IrSpan { start: r.start, end: r.end }) }).collect()
}

/// Copies one expression: composites and swizzles.
#[verifier::external_body]
fn lower_expression(expr: &naga::Expression) -> IrExprKind {
    match expr {
        E::Compose { ty, components } => IrExprKind::Compose { ty: ty.index(), components: components.iter().map(|c| c.index()).collect() },
        E::Swizzle { size, vector, pattern } => IrExprKind::Swizzle { size: *size as usize, vector: vector.index(), pattern: pattern.map(lower_swizzle_component) },
        _ => lower_expression_leaf(expr),
    }
}

/// Copies a swizzle component.
#[verifier::external_body]
fn lower_swizzle_component(c: naga::SwizzleComponent) -> IrSwizzleComponent {
    match c {
        naga::SwizzleComponent::X => IrSwizzleComponent::X,
        naga::SwizzleComponent::Y => IrSwizzleComponent::Y,
        naga::SwizzleComponent::Z => IrSwizzleComponent::Z,
        naga::SwizzleComponent::W => IrSwizzleComponent::W,
    }
}

/// Copies the expressions shown without operands: literals and references.
#[verifier::external_body]
fn lower_expression_leaf(expr: &naga::Expression) -> IrExprKind {
    let leaf = |leaf: IrExprLeaf| IrExprKind::Leaf { leaf, pretty: format!("{expr:#?}") };
    match expr {
        E::Literal(v) => leaf(IrExprLeaf::Literal(format!("{v:?}"))),
        E::Constant(h) => leaf(IrExprLeaf::Constant(h.index())),
        E::Override(h) => leaf(IrExprLeaf::Override(h.index())),
        E::ZeroValue(h) => leaf(IrExprLeaf::ZeroValue(h.index())),
        E::FunctionArgument(i) => leaf(IrExprLeaf::FunctionArgument(*i)),
        E::GlobalVariable(h) => leaf(IrExprLeaf::GlobalVariable(h.index())),
        E::LocalVariable(h) => leaf(IrExprLeaf::LocalVariable(h.index())),
        _ => lower_expression_result(expr),
    }
}

/// Copies the expressions shown without operands: results and markers.
#[verifier::external_body]
fn lower_expression_result(expr: &naga::Expression) -> IrExprKind {
    let leaf = |leaf: IrExprLeaf| IrExprKind::Leaf { leaf, pretty: format!("{expr:#?}") };
    match expr {
        E::CallResult(h) => leaf(IrExprLeaf::CallResult(h.index())),
        E::AtomicResult { ty, comparison } => leaf(IrExprLeaf::AtomicResult { ty: ty.index(), comparison: *comparison }),
        E::WorkGroupUniformLoadResult { ty } => leaf(IrExprLeaf::WorkGroupUniformLoadResult { ty: ty.index() }),
        E::ArrayLength(h) => leaf(IrExprLeaf::ArrayLength(h.index())),
        E::RayQueryProceedResult => leaf(IrExprLeaf::RayQueryProceedResult),
        E::SubgroupBallotResult => leaf(IrExprLeaf::SubgroupBallotResult),
        E::SubgroupOperationResult { ty } => leaf(IrExprLeaf::SubgroupOperationResult { ty: ty.index() }),
        _ => lower_expression_access(expr),
    }
}

/// Copies the expressions with operands: access and splats.
#[verifier::external_body]
fn lower_expression_access(expr: &naga::Expression) -> IrExprKind {
    let op = |op: IrExprOp| IrExprKind::Operands { op };
    match expr {
        E::Access { base, index } => op(IrExprOp::Access { base: base.index(), index: index.index() }),
        E::AccessIndex { base, index } => op(IrExprOp::AccessIndex { base: base.index(), index: *index }),
        E::Splat { size, value } => op(IrExprOp::Splat { size: format!("{size:?}"), width: *size as usize, value: value.index() }),
        E::Load { pointer } => op(IrExprOp::Load { pointer: pointer.index() }),
        _ => lower_expression_arithmetic(expr),
    }
}

/// Copies the expressions with operands: arithmetic and selection.
#[verifier::external_body]
fn lower_expression_arithmetic(expr: &naga::Expression) -> IrExprKind {
    let op = |op: IrExprOp| IrExprKind::Operands { op };
    match expr {
        E::Unary { op: o, expr } => op(IrExprOp::Unary { op: format!("{o:?}"), expr: expr.index() }),
        E::Binary { op: o, left, right } => op(IrExprOp::Binary { op: format!("{o:?}"), left: left.index(), right: right.index() }),
        E::Select { condition, accept, reject } => op(IrExprOp::Select { condition: condition.index(), accept: accept.index(), reject: reject.index() }),
        _ => lower_expression_builtin(expr),
    }
}

/// Copies the expressions with operands: derivatives, tests and conversions.
#[verifier::external_body]
fn lower_expression_builtin(expr: &naga::Expression) -> IrExprKind {
    let op = |op: IrExprOp| IrExprKind::Operands { op };
    match expr {
        E::Derivative { axis, ctrl, expr } => op(IrExprOp::Derivative { axis: format!("{axis:?}"), ctrl: format!("{ctrl:?}"), expr: expr.index() }),
        E::Relational { fun, argument } => op(IrExprOp::Relational { fun: format!("{fun:?}"), argument: argument.index() }),
        E::As { expr, kind, convert } => op(IrExprOp::As { kind: format!("{kind:?}"), convert: format!("{convert:?}"), expr: expr.index() }),
        _ => lower_expression_math(expr),
    }
}

/// Copies `Math`, ray-query and image-query expressions.
#[verifier::external_body]
fn lower_expression_math(expr: &naga::Expression) -> IrExprKind {
    let op = |op: IrExprOp| IrExprKind::Operands { op };
    let h = |h: &Option<naga::Handle<naga::Expression>>| h.map(naga::Handle::index);
    match expr {
        E::Math { fun, arg, arg1, arg2, arg3 } => op(IrExprOp::Math { fun: format!("{fun:?}"), arg: arg.index(), arg1: h(arg1), arg2: h(arg2), arg3: h(arg3) }),
        E::RayQueryGetIntersection { query, committed } => op(IrExprOp::RayQueryGetIntersection { query: query.index(), committed: *committed }),
        E::ImageQuery { image, query } => op(IrExprOp::ImageQuery { query: format!("{query:?}"), image: image.index() }),
        _ => lower_expression_sample(expr),
    }
}

/// Copies the image sampling expression.
#[verifier::external_body]
fn lower_expression_sample(expr: &naga::Expression) -> IrExprKind {
    let h = |h: &Option<naga::Handle<naga::Expression>>| h.map(naga::Handle::index);
    match expr {
        E::ImageSample { image, sampler, coordinate, array_index, offset, level, depth_ref, .. } => IrExprKind::Operands { op: IrExprOp::ImageSample { level: format!("{level:?}"), image: image.index(), sampler: sampler.index(), coordinate: coordinate.index(), array_index: h(array_index), offset: h(offset), depth_ref: h(depth_ref) } },
        _ => lower_expression_image_load(expr),
    }
}

/// Copies the image loading expression. Every other expression of naga 23
/// is copied by one of the functions before this one, so no expression
/// reaches the last arm, which keeps an expression by its debug rendering.
#[verifier::external_body]
fn lower_expression_image_load(expr: &naga::Expression) -> IrExprKind {
    let h = |h: &Option<naga::Handle<naga::Expression>>| h.map(naga::Handle::index);
    match expr {
        E::ImageLoad { image, coordinate, array_index, sample, level } => IrExprKind::Operands { op: IrExprOp::ImageLoad { image: image.index(), coordinate: coordinate.index(), array_index: h(array_index), sample: h(sample), level: h(level) } },
        _ => IrExprKind::Leaf { leaf: IrExprLeaf::Unlisted(format!("{expr:?}")), pretty: format!("{expr:#?}") },
    }
}

/// Copies a block of statements.
#[verifier::external_body]
fn lower_block(block: &naga::Block) -> Vec<IrStatement> {
    block.iter().map(lower_statement).collect()
}

/// Copies one statement: control flow.
#[verifier::external_body]
fn lower_statement(stmt: &naga::Statement) -> IrStatement {
    match stmt {
        S::Emit(range) => IrStatement::Emit { start: range.index_range().start as usize, end: range.index_range().end as usize },
        S::Block(block) => IrStatement::Block { body: lower_block(block) },
        S::If { condition, accept, reject } => IrStatement::If { condition: condition.index(), accept: lower_block(accept), reject: lower_block(reject) },
        S::Switch { selector, cases } => IrStatement::Switch { selector: selector.index(), cases: cases.iter().map(lower_case).collect() },
        _ => lower_statement_loop(stmt),
    }
}

/// Copies one statement: loops and returns.
#[verifier::external_body]
fn lower_statement_loop(stmt: &naga::Statement) -> IrStatement {
    match stmt {
        S::Loop { body, continuing, break_if } => IrStatement::Loop { body: lower_block(body), continuing: lower_block(continuing), break_if: break_if.map(naga::Handle::index) },
        S::Return { value } => IrStatement::Return { value: value.map(naga::Handle::index) },
        _ => lower_statement_more(stmt),
    }
}

/// Copies a switch case; its value is rendered.
#[verifier::external_body]
fn lower_case(case: &naga::SwitchCase) -> IrSwitchCase {
    IrSwitchCase { value: format!("{:?}", case.value), fall_through: case.fall_through, body: lower_block(&case.body) }
}

/// Copies one statement: calls and statements without operands.
#[verifier::external_body]
fn lower_statement_more(stmt: &naga::Statement) -> IrStatement {
    let leaf = |leaf: IrStmtLeaf| IrStatement::Leaf { leaf, pretty: format!("{stmt:#?}") };
    match stmt {
        S::Call { function, arguments, result } => IrStatement::Call { function: function.index(), arguments: arguments.iter().map(|h| h.index()).collect(), result: result.map(naga::Handle::index) },
        S::Break => leaf(IrStmtLeaf::Break),
        S::Continue => leaf(IrStmtLeaf::Continue),
        S::Kill => leaf(IrStmtLeaf::Kill),
        S::Barrier(b) => leaf(IrStmtLeaf::Barrier(format!("{b:?}"))),
        _ => lower_statement_op(stmt),
    }
}

/// Copies the statements with operands: stores.
#[verifier::external_body]
fn lower_statement_op(stmt: &naga::Statement) -> IrStatement {
    let op = |op: IrStmtOp| IrStatement::Operands { op };
    match stmt {
        S::Store { pointer, value } => op(IrStmtOp::Store { pointer: pointer.index(), value: value.index() }),
        S::ImageStore { image, coordinate, array_index, value } => op(IrStmtOp::ImageStore { image: image.index(), coordinate: coordinate.index(), array_index: array_index.map(naga::Handle::index), value: value.index() }),
        _ => lower_statement_atomic(stmt),
    }
}

/// Copies the statements with operands: atomics and uniform loads.
#[verifier::external_body]
fn lower_statement_atomic(stmt: &naga::Statement) -> IrStatement {
    let op = |op: IrStmtOp| IrStatement::Operands { op };
    match stmt {
        S::Atomic { pointer, fun, value, result } => op(IrStmtOp::Atomic { fun: format!("{fun:?}"), pointer: pointer.index(), value: value.index(), result: result.map(naga::Handle::index) }),
        S::WorkGroupUniformLoad { pointer, result } => op(IrStmtOp::WorkGroupUniformLoad { pointer: pointer.index(), result: result.index() }),
        S::RayQuery { query, fun } => op(IrStmtOp::RayQuery { fun: format!("{fun:?}"), query: query.index() }),
        _ => lower_statement_subgroup(stmt),
    }
}

/// Copies the subgroup statements. Every other statement of naga 23 is
/// copied by one of the functions before this one, so no statement reaches
/// the last arm, which keeps a statement by its debug rendering.
#[verifier::external_body]
fn lower_statement_subgroup(stmt: &naga::Statement) -> IrStatement {
    let op = |op: IrStmtOp| IrStatement::Operands { op };
    match stmt {
        S::SubgroupBallot { result, predicate } => op(IrStmtOp::SubgroupBallot { result: result.index(), predicate: predicate.map(naga::Handle::index) }),
        S::SubgroupGather { mode, argument, result } => op(IrStmtOp::SubgroupGather { mode: format!("{mode:?}"), argument: argument.index(), result: result.index() }),
        S::SubgroupCollectiveOperation { op: o, collective_op, argument, result } => op(IrStmtOp::SubgroupCollectiveOperation { op: format!("{o:?}"), collective_op: format!("{collective_op:?}"), argument: argument.index(), result: result.index() }),
        _ => IrStatement::Leaf { leaf: IrStmtLeaf::Unlisted(format!("{stmt:?}")), pretty: format!("{stmt:#?}") },
    }
}

} // verus!
