//! Labels and named operands of expression and statement shapes, as the
//! outline shows them.

use vstd::prelude::*;

use super::ir::{IrExprLeaf, IrExprOp, IrOperand, IrStmtLeaf, IrStmtOp};
use crate::text::{bool_label, concat, concat3, decimal, owned, spec_bool_label, spec_decimal};

verus! {

pub open spec fn some_operand(label: &'static str, h: usize) -> IrOperand {
    IrOperand { label, handle: Some(h) }
}

pub open spec fn opt_operand(label: &'static str, h: Option<usize>) -> IrOperand {
    IrOperand { label, handle: h }
}

/// `[h]`, how a handle is rendered.
pub open spec fn spec_handle(h: usize) -> Seq<char> {
    "["@ + spec_decimal(h as nat) + "]"@
}

pub fn handle_text(h: usize) -> (r: String)
    ensures
        r@ == spec_handle(h),
{
    let d = decimal(h);
    concat3("[", d.as_str(), "]")
}

// ---------------------------------------------------------------------------
// Expressions
// ---------------------------------------------------------------------------

/// The label of an expression with operands: its kind and the debug
/// rendering of its parameters.
pub open spec fn spec_expr_op_label(op: IrExprOp) -> Seq<char> {
    match op {
        IrExprOp::Access { .. } => "Access"@,
        IrExprOp::AccessIndex { index, .. } => "AccessIndex "@ + spec_decimal(index as nat),
        IrExprOp::Splat { size, .. } => "Splat "@ + size@,
        IrExprOp::Load { .. } => "Load"@,
        IrExprOp::ImageSample { level, .. } => "ImageSample "@ + level@,
        IrExprOp::ImageLoad { .. } => "ImageLoad"@,
        IrExprOp::ImageQuery { query, .. } => "ImageQuery "@ + query@,
        IrExprOp::Unary { op, .. } => "Unary "@ + op@,
        IrExprOp::Binary { op, .. } => "Binary "@ + op@,
        IrExprOp::Select { .. } => "Select"@,
        IrExprOp::Derivative { axis, ctrl, .. } => "Derivative "@ + axis@ + "/"@ + ctrl@,
        IrExprOp::Relational { fun, .. } => "Relational "@ + fun@,
        IrExprOp::Math { fun, .. } => "Math "@ + fun@,
        IrExprOp::As { kind, convert, .. } => "As "@ + kind@ + " convert="@ + convert@,
        IrExprOp::RayQueryGetIntersection { committed, .. } => "RayQueryGetIntersection committed="@
            + spec_bool_label(committed),
    }
}

/// The named operands of an expression, in the order the outline lists them.
pub open spec fn spec_expr_op_operands(op: IrExprOp) -> Seq<IrOperand> {
    match op {
        IrExprOp::Access { base, index } => seq![some_operand("base", base), some_operand("index", index)],
        IrExprOp::AccessIndex { base, .. } => seq![some_operand("base", base)],
        IrExprOp::Splat { value, .. } => seq![some_operand("value", value)],
        IrExprOp::Load { pointer } => seq![some_operand("pointer", pointer)],
        IrExprOp::ImageSample { image, sampler, coordinate, array_index, offset, depth_ref, .. } => seq![
            some_operand("image", image),
            some_operand("sampler", sampler),
            some_operand("coordinate", coordinate),
            opt_operand("array_index", array_index),
            opt_operand("offset", offset),
            opt_operand("depth_ref", depth_ref),
        ],
        IrExprOp::ImageLoad { image, coordinate, array_index, sample, level } => seq![
            some_operand("image", image),
            some_operand("coordinate", coordinate),
            opt_operand("array_index", array_index),
            opt_operand("sample", sample),
            opt_operand("level", level),
        ],
        IrExprOp::ImageQuery { image, .. } => seq![some_operand("image", image)],
        IrExprOp::Unary { expr, .. } => seq![some_operand("expr", expr)],
        IrExprOp::Binary { left, right, .. } => seq![some_operand("left", left), some_operand("right", right)],
        IrExprOp::Select { condition, accept, reject } => seq![
            some_operand("condition", condition),
            some_operand("accept", accept),
            some_operand("reject", reject),
        ],
        IrExprOp::Derivative { expr, .. } => seq![some_operand("expr", expr)],
        IrExprOp::Relational { argument, .. } => seq![some_operand("argument", argument)],
        IrExprOp::Math { arg, arg1, arg2, arg3, .. } => seq![
            some_operand("arg", arg),
            opt_operand("arg1", arg1),
            opt_operand("arg2", arg2),
            opt_operand("arg3", arg3),
        ],
        IrExprOp::As { expr, .. } => seq![some_operand("expr", expr)],
        IrExprOp::RayQueryGetIntersection { query, .. } => seq![some_operand("query", query)],
    }
}

/// The label of an expression shown without operands.
pub open spec fn spec_expr_leaf_label(leaf: IrExprLeaf) -> Seq<char> {
    match leaf {
        IrExprLeaf::Literal(v) => "Literal "@ + v@,
        IrExprLeaf::Constant(h) => "Constant "@ + spec_handle(h),
        IrExprLeaf::Override(h) => "Override "@ + spec_handle(h),
        IrExprLeaf::ZeroValue(h) => "ZeroValue "@ + spec_handle(h),
        IrExprLeaf::FunctionArgument(i) => "FunctionArgument "@ + spec_decimal(i as nat),
        IrExprLeaf::GlobalVariable(h) => "GlobalVariable "@ + spec_handle(h),
        IrExprLeaf::LocalVariable(h) => "LocalVariable "@ + spec_handle(h),
        IrExprLeaf::CallResult(h) => "CallResult "@ + spec_handle(h),
        IrExprLeaf::AtomicResult { ty, comparison } => "AtomicResult "@ + spec_handle(ty) + " comparison="@
            + spec_bool_label(comparison),
        IrExprLeaf::WorkGroupUniformLoadResult { ty } => "WorkGroupUniformLoadResult "@ + spec_handle(ty),
        IrExprLeaf::ArrayLength(h) => "ArrayLength "@ + spec_handle(h),
        IrExprLeaf::RayQueryProceedResult => "RayQueryProceedResult"@,
        IrExprLeaf::SubgroupBallotResult => "SubgroupBallotResult"@,
        IrExprLeaf::SubgroupOperationResult { ty } => "SubgroupOperationResult "@ + spec_handle(ty),
        IrExprLeaf::Unlisted(text) => text@,
    }
}

pub fn expr_op_label(op: &IrExprOp) -> (r: String)
    ensures
        r@ == spec_expr_op_label(*op),
{
    match op {
        IrExprOp::Access { .. } => owned("Access"),
        IrExprOp::AccessIndex { index, .. } => {
            let d = decimal(*index as usize);
            concat("AccessIndex ", d.as_str())
        },
        IrExprOp::Splat { size, .. } => concat("Splat ", size.as_str()),
        IrExprOp::Load { .. } => owned("Load"),
        IrExprOp::ImageSample { level, .. } => concat("ImageSample ", level.as_str()),
        IrExprOp::ImageLoad { .. } => owned("ImageLoad"),
        IrExprOp::ImageQuery { query, .. } => concat("ImageQuery ", query.as_str()),
        IrExprOp::Unary { op, .. } => concat("Unary ", op.as_str()),
        IrExprOp::Binary { op, .. } => concat("Binary ", op.as_str()),
        IrExprOp::Select { .. } => owned("Select"),
        IrExprOp::Derivative { axis, ctrl, .. } => {
            let mut r = concat3("Derivative ", axis.as_str(), "/");
            r.append(ctrl.as_str());
            r
        },
        IrExprOp::Relational { fun, .. } => concat("Relational ", fun.as_str()),
        IrExprOp::Math { fun, .. } => concat("Math ", fun.as_str()),
        IrExprOp::As { kind, convert, .. } => {
            let mut r = concat3("As ", kind.as_str(), " convert=");
            r.append(convert.as_str());
            r
        },
        IrExprOp::RayQueryGetIntersection { committed, .. } => {
            let b = bool_label(*committed);
            concat("RayQueryGetIntersection committed=", b.as_str())
        },
    }
}

fn operand(label: &'static str, handle: Option<usize>) -> (r: IrOperand)
    ensures
        r == opt_operand(label, handle),
{
    IrOperand { label, handle }
}

fn operands1(a: IrOperand) -> (r: Vec<IrOperand>)
    ensures
        r@ == seq![a],
{
    let mut v = Vec::new();
    v.push(a);
    v
}

fn operands2(a: IrOperand, b: IrOperand) -> (r: Vec<IrOperand>)
    ensures
        r@ == seq![a, b],
{
    let mut v = operands1(a);
    v.push(b);
    v
}

fn operands3(a: IrOperand, b: IrOperand, c: IrOperand) -> (r: Vec<IrOperand>)
    ensures
        r@ == seq![a, b, c],
{
    let mut v = operands2(a, b);
    v.push(c);
    v
}

fn operands4(a: IrOperand, b: IrOperand, c: IrOperand, d: IrOperand) -> (r: Vec<IrOperand>)
    ensures
        r@ == seq![a, b, c, d],
{
    let mut v = operands3(a, b, c);
    v.push(d);
    v
}

pub fn expr_op_operands(op: &IrExprOp) -> (r: Vec<IrOperand>)
    ensures
        r@ == spec_expr_op_operands(*op),
{
    match op {
        IrExprOp::Access { base, index } => operands2(operand("base", Some(*base)), operand("index", Some(*index))),
        IrExprOp::AccessIndex { base, .. } => operands1(operand("base", Some(*base))),
        IrExprOp::Splat { value, .. } => operands1(operand("value", Some(*value))),
        IrExprOp::Load { pointer } => operands1(operand("pointer", Some(*pointer))),
        IrExprOp::ImageSample { image, sampler, coordinate, array_index, offset, depth_ref, .. } => {
            let mut v = operands3(
                operand("image", Some(*image)),
                operand("sampler", Some(*sampler)),
                operand("coordinate", Some(*coordinate)),
            );
            v.push(operand("array_index", *array_index));
            v.push(operand("offset", *offset));
            v.push(operand("depth_ref", *depth_ref));
            v
        },
        IrExprOp::ImageLoad { image, coordinate, array_index, sample, level } => {
            let mut v = operands3(
                operand("image", Some(*image)),
                operand("coordinate", Some(*coordinate)),
                operand("array_index", *array_index),
            );
            v.push(operand("sample", *sample));
            v.push(operand("level", *level));
            v
        },
        IrExprOp::ImageQuery { image, .. } => operands1(operand("image", Some(*image))),
        IrExprOp::Unary { expr, .. } => operands1(operand("expr", Some(*expr))),
        IrExprOp::Binary { left, right, .. } => operands2(operand("left", Some(*left)), operand("right", Some(*right))),
        IrExprOp::Select { condition, accept, reject } => operands3(
            operand("condition", Some(*condition)),
            operand("accept", Some(*accept)),
            operand("reject", Some(*reject)),
        ),
        IrExprOp::Derivative { expr, .. } => operands1(operand("expr", Some(*expr))),
        IrExprOp::Relational { argument, .. } => operands1(operand("argument", Some(*argument))),
        IrExprOp::Math { arg, arg1, arg2, arg3, .. } => operands4(
            operand("arg", Some(*arg)),
            operand("arg1", *arg1),
            operand("arg2", *arg2),
            operand("arg3", *arg3),
        ),
        IrExprOp::As { expr, .. } => operands1(operand("expr", Some(*expr))),
        IrExprOp::RayQueryGetIntersection { query, .. } => operands1(operand("query", Some(*query))),
    }
}

pub fn expr_leaf_label(leaf: &IrExprLeaf) -> (r: String)
    ensures
        r@ == spec_expr_leaf_label(*leaf),
{
    match leaf {
        IrExprLeaf::Literal(v) => concat("Literal ", v.as_str()),
        IrExprLeaf::Constant(h) => handle_label("Constant ", *h),
        IrExprLeaf::Override(h) => handle_label("Override ", *h),
        IrExprLeaf::ZeroValue(h) => handle_label("ZeroValue ", *h),
        IrExprLeaf::FunctionArgument(i) => {
            let d = decimal(*i as usize);
            concat("FunctionArgument ", d.as_str())
        },
        IrExprLeaf::GlobalVariable(h) => handle_label("GlobalVariable ", *h),
        IrExprLeaf::LocalVariable(h) => handle_label("LocalVariable ", *h),
        IrExprLeaf::CallResult(h) => handle_label("CallResult ", *h),
        IrExprLeaf::AtomicResult { ty, comparison } => {
            let mut r = handle_label("AtomicResult ", *ty);
            r.append(" comparison=");
            let b = bool_label(*comparison);
            r.append(b.as_str());
            r
        },
        IrExprLeaf::WorkGroupUniformLoadResult { ty } => handle_label("WorkGroupUniformLoadResult ", *ty),
        IrExprLeaf::ArrayLength(h) => handle_label("ArrayLength ", *h),
        IrExprLeaf::RayQueryProceedResult => owned("RayQueryProceedResult"),
        IrExprLeaf::SubgroupBallotResult => owned("SubgroupBallotResult"),
        IrExprLeaf::SubgroupOperationResult { ty } => handle_label("SubgroupOperationResult ", *ty),
        IrExprLeaf::Unlisted(text) => text.clone(),
    }
}

/// `prefix` followed by the rendering of handle `h`.
fn handle_label(prefix: &str, h: usize) -> (r: String)
    ensures
        r@ == prefix@ + spec_handle(h),
{
    let t = handle_text(h);
    concat(prefix, t.as_str())
}

// ---------------------------------------------------------------------------
// Statements
// ---------------------------------------------------------------------------

pub open spec fn spec_stmt_op_label(op: IrStmtOp) -> Seq<char> {
    match op {
        IrStmtOp::Store { .. } => "Store"@,
        IrStmtOp::ImageStore { .. } => "ImageStore"@,
        IrStmtOp::Atomic { fun, .. } => "Atomic "@ + fun@,
        IrStmtOp::WorkGroupUniformLoad { .. } => "WorkGroupUniformLoad"@,
        IrStmtOp::RayQuery { fun, .. } => "RayQuery "@ + fun@,
        IrStmtOp::SubgroupBallot { .. } => "SubgroupBallot"@,
        IrStmtOp::SubgroupGather { mode, .. } => "SubgroupGather "@ + mode@,
        IrStmtOp::SubgroupCollectiveOperation { op, collective_op, .. } => "SubgroupCollectiveOperation "@
            + op@ + "/"@ + collective_op@,
    }
}

pub open spec fn spec_stmt_op_operands(op: IrStmtOp) -> Seq<IrOperand> {
    match op {
        IrStmtOp::Store { pointer, value } => seq![some_operand("pointer", pointer), some_operand("value", value)],
        IrStmtOp::ImageStore { image, coordinate, array_index, value } => seq![
            some_operand("image", image),
            some_operand("coordinate", coordinate),
            opt_operand("array_index", array_index),
            some_operand("value", value),
        ],
        IrStmtOp::Atomic { pointer, value, result, .. } => seq![
            some_operand("pointer", pointer),
            some_operand("value", value),
            opt_operand("result", result),
        ],
        IrStmtOp::WorkGroupUniformLoad { pointer, result } => seq![
            some_operand("pointer", pointer),
            some_operand("result", result),
        ],
        IrStmtOp::RayQuery { query, .. } => seq![some_operand("query", query)],
        IrStmtOp::SubgroupBallot { result, predicate } => seq![
            some_operand("result", result),
            opt_operand("predicate", predicate),
        ],
        IrStmtOp::SubgroupGather { argument, result, .. } => seq![
            some_operand("argument", argument),
            some_operand("result", result),
        ],
        IrStmtOp::SubgroupCollectiveOperation { argument, result, .. } => seq![
            some_operand("argument", argument),
            some_operand("result", result),
        ],
    }
}

pub open spec fn spec_stmt_leaf_label(leaf: IrStmtLeaf) -> Seq<char> {
    match leaf {
        IrStmtLeaf::Break => "Break"@,
        IrStmtLeaf::Continue => "Continue"@,
        IrStmtLeaf::Kill => "Kill"@,
        IrStmtLeaf::Barrier(b) => "Barrier "@ + b@,
        IrStmtLeaf::Unlisted(text) => text@,
    }
}

pub fn stmt_op_label(op: &IrStmtOp) -> (r: String)
    ensures
        r@ == spec_stmt_op_label(*op),
{
    match op {
        IrStmtOp::Store { .. } => owned("Store"),
        IrStmtOp::ImageStore { .. } => owned("ImageStore"),
        IrStmtOp::Atomic { fun, .. } => concat("Atomic ", fun.as_str()),
        IrStmtOp::WorkGroupUniformLoad { .. } => owned("WorkGroupUniformLoad"),
        IrStmtOp::RayQuery { fun, .. } => concat("RayQuery ", fun.as_str()),
        IrStmtOp::SubgroupBallot { .. } => owned("SubgroupBallot"),
        IrStmtOp::SubgroupGather { mode, .. } => concat("SubgroupGather ", mode.as_str()),
        IrStmtOp::SubgroupCollectiveOperation { op, collective_op, .. } => {
            let mut r = concat3("SubgroupCollectiveOperation ", op.as_str(), "/");
            r.append(collective_op.as_str());
            r
        },
    }
}

pub fn stmt_op_operands(op: &IrStmtOp) -> (r: Vec<IrOperand>)
    ensures
        r@ == spec_stmt_op_operands(*op),
{
    match op {
        IrStmtOp::Store { pointer, value } => operands2(
            operand("pointer", Some(*pointer)),
            operand("value", Some(*value)),
        ),
        IrStmtOp::ImageStore { image, coordinate, array_index, value } => operands4(
            operand("image", Some(*image)),
            operand("coordinate", Some(*coordinate)),
            operand("array_index", *array_index),
            operand("value", Some(*value)),
        ),
        IrStmtOp::Atomic { pointer, value, result, .. } => operands3(
            operand("pointer", Some(*pointer)),
            operand("value", Some(*value)),
            operand("result", *result),
        ),
        IrStmtOp::WorkGroupUniformLoad { pointer, result } => operands2(
            operand("pointer", Some(*pointer)),
            operand("result", Some(*result)),
        ),
        IrStmtOp::RayQuery { query, .. } => operands1(operand("query", Some(*query))),
        IrStmtOp::SubgroupBallot { result, predicate } => operands2(
            operand("result", Some(*result)),
            operand("predicate", *predicate),
        ),
        IrStmtOp::SubgroupGather { argument, result, .. } => operands2(
            operand("argument", Some(*argument)),
            operand("result", Some(*result)),
        ),
        IrStmtOp::SubgroupCollectiveOperation { argument, result, .. } => operands2(
            operand("argument", Some(*argument)),
            operand("result", Some(*result)),
        ),
    }
}

pub fn stmt_leaf_label(leaf: &IrStmtLeaf) -> (r: String)
    ensures
        r@ == spec_stmt_leaf_label(*leaf),
{
    match leaf {
        IrStmtLeaf::Break => owned("Break"),
        IrStmtLeaf::Continue => owned("Continue"),
        IrStmtLeaf::Kill => owned("Kill"),
        IrStmtLeaf::Barrier(b) => concat("Barrier ", b.as_str()),
        IrStmtLeaf::Unlisted(text) => text.clone(),
    }
}

} // verus!
