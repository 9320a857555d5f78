//! The blend state of a render pass, read from its parameters: a named
//! preset, optionally overridden field by field, or a fully explicit custom
//! state.

use vstd::prelude::*;

use crate::text::{
    is_white_space, lemma_trim_ends, lemma_trim_of_trimmed, owned, spec_trim, string_of, trim_chars,
};

verus! {

/// How source and destination terms are combined.
#[derive(Clone, Copy, Debug, PartialEq, Eq, Structural)]
pub enum BlendOperation {
    Add,
    Subtract,
    ReverseSubtract,
    Min,
    Max,
}

/// A factor applied to the source or destination term.
#[derive(Clone, Copy, Debug, PartialEq, Eq, Structural)]
pub enum BlendFactor {
    Zero,
    One,
    Src,
    OneMinusSrc,
    SrcAlpha,
    OneMinusSrcAlpha,
    Dst,
    OneMinusDst,
    DstAlpha,
    OneMinusDstAlpha,
    SrcAlphaSaturated,
    Constant,
    OneMinusConstant,
}

/// The blending of one channel group.
#[derive(Clone, Copy, Debug, PartialEq, Eq, Structural)]
pub struct BlendComponent {
    pub src_factor: BlendFactor,
    pub dst_factor: BlendFactor,
    pub operation: BlendOperation,
}

/// The blending of color and alpha.
#[derive(Clone, Copy, Debug, PartialEq, Eq, Structural)]
pub struct BlendState {
    pub color: BlendComponent,
    pub alpha: BlendComponent,
}

/// A parameter of the pass as the blend logic reads it.
#[derive(Clone, Debug, PartialEq, Eq)]
pub enum ParamValue {
    Missing,
    Text(String),
    /// Present, but not a string.
    Other,
}

/// The blend parameters of a render pass.
#[derive(Clone, Debug, PartialEq, Eq)]
pub struct BlendParams {
    pub blend_preset: ParamValue,
    pub blendfunc: ParamValue,
    pub src_factor: ParamValue,
    pub dst_factor: ParamValue,
    pub src_alpha_factor: ParamValue,
    pub dst_alpha_factor: ParamValue,
}

/// Why a blend state could not be read.
#[derive(Clone, Debug, PartialEq, Eq)]
pub enum BlendError {
    /// The normalized operation name is not known.
    UnsupportedOperation(String),
    /// The normalized factor name is not known.
    UnsupportedFactor(String),
    /// The normalized preset name is not known.
    UnsupportedPreset(String),
    /// The custom preset lacks the parameter.
    CustomMissing(String),
    /// The custom preset's parameter is not a string.
    CustomNotString(String),
    /// The custom preset's parameter `key` names an unknown operation
    /// (`value` is the normalized name).
    InvalidCustomOperation { key: String, value: String },
    /// The custom preset's parameter `key` names an unknown factor (`value`
    /// is the normalized name).
    InvalidCustomFactor { key: String, value: String },
}

/// The abstract value of a [`BlendError`].
pub enum BlendErrorSpec {
    UnsupportedOperation(Seq<char>),
    UnsupportedFactor(Seq<char>),
    UnsupportedPreset(Seq<char>),
    CustomMissing(Seq<char>),
    CustomNotString(Seq<char>),
    InvalidCustomOperation(Seq<char>, Seq<char>),
    InvalidCustomFactor(Seq<char>, Seq<char>),
}

pub open spec fn error_view(e: BlendError) -> BlendErrorSpec {
    match e {
        BlendError::UnsupportedOperation(v) => BlendErrorSpec::UnsupportedOperation(v@),
        BlendError::UnsupportedFactor(v) => BlendErrorSpec::UnsupportedFactor(v@),
        BlendError::UnsupportedPreset(v) => BlendErrorSpec::UnsupportedPreset(v@),
        BlendError::CustomMissing(k) => BlendErrorSpec::CustomMissing(k@),
        BlendError::CustomNotString(k) => BlendErrorSpec::CustomNotString(k@),
        BlendError::InvalidCustomOperation { key, value } => BlendErrorSpec::InvalidCustomOperation(
            key@,
            value@,
        ),
        BlendError::InvalidCustomFactor { key, value } => BlendErrorSpec::InvalidCustomFactor(key@, value@),
    }
}

pub open spec fn result_view<T>(r: Result<T, BlendError>) -> Result<T, BlendErrorSpec> {
    match r {
        Ok(v) => Ok(v),
        Err(e) => Err(error_view(e)),
    }
}

pub open spec fn spec_error_message(e: BlendErrorSpec) -> Seq<char> {
    match e {
        BlendErrorSpec::UnsupportedOperation(v) => "unsupported blendfunc/blend operation: "@ + v,
        BlendErrorSpec::UnsupportedFactor(v) => "unsupported blend factor: "@ + v,
        BlendErrorSpec::UnsupportedPreset(v) => "unsupported blend_preset: "@ + v,
        BlendErrorSpec::CustomMissing(k) => "blend_preset=custom requires '"@ + k + "'"@,
        BlendErrorSpec::CustomNotString(k) => "blend_preset=custom requires '"@ + k + "' to be a string"@,
        BlendErrorSpec::InvalidCustomOperation(k, v) => "invalid custom blend param '"@ + k + "': "@
            + "unsupported blendfunc/blend operation: "@ + v,
        BlendErrorSpec::InvalidCustomFactor(k, v) => "invalid custom blend param '"@ + k + "': "@
            + "unsupported blend factor: "@ + v,
    }
}

impl BlendError {
    /// The error's message, with the underlying cause appended after a colon.
    pub fn message(&self) -> (r: String)
        ensures
            r@ == spec_error_message(error_view(*self)),
    {
        let mut r = String::new();
        match self {
            BlendError::UnsupportedOperation(v) => {
                r.append("unsupported blendfunc/blend operation: ");
                r.append(v.as_str());
            },
            BlendError::UnsupportedFactor(v) => {
                r.append("unsupported blend factor: ");
                r.append(v.as_str());
            },
            BlendError::UnsupportedPreset(v) => {
                r.append("unsupported blend_preset: ");
                r.append(v.as_str());
            },
            BlendError::CustomMissing(k) => {
                r.append("blend_preset=custom requires '");
                r.append(k.as_str());
                r.append("'");
            },
            BlendError::CustomNotString(k) => {
                r.append("blend_preset=custom requires '");
                r.append(k.as_str());
                r.append("' to be a string");
            },
            BlendError::InvalidCustomOperation { key, value } => {
                r.append("invalid custom blend param '");
                r.append(key.as_str());
                r.append("': ");
                r.append("unsupported blendfunc/blend operation: ");
                r.append(value.as_str());
            },
            BlendError::InvalidCustomFactor { key, value } => {
                r.append("invalid custom blend param '");
                r.append(key.as_str());
                r.append("': ");
                r.append("unsupported blend factor: ");
                r.append(value.as_str());
            },
        }
        r
    }
}

// ---------------------------------------------------------------------------
// Names
// ---------------------------------------------------------------------------

/// ASCII upper case letters become lower case, `_` becomes `-`.
pub open spec fn fold_char(c: char) -> char {
    if c == '_' {
        '-'
    } else if 65 <= (c as u32) <= 90 {
        ((c as u32) + 32) as char
    } else {
        c
    }
}

/// A blend name as it is matched: trimmed, ASCII-lower-cased, with `_`
/// written as `-`.
pub open spec fn spec_normalize_blend_token(s: Seq<char>) -> Seq<char> {
    spec_trim(s).map_values(|c: char| fold_char(c))
}

fn fold_char_exec(c: char) -> (r: char)
    ensures
        r == fold_char(c),
{
    if c == '_' {
        '-'
    } else if 'A' <= c && c <= 'Z' {
        ((c as u8) + 32) as char
    } else {
        c
    }
}

pub fn normalize_blend_token(s: &str) -> (r: String)
    ensures
        r@ == spec_normalize_blend_token(s@),
{
    let cs = trim_chars(s);
    let mut out: Vec<char> = Vec::new();
    let mut i: usize = 0;
    while i < cs.len()
        invariant
            i <= cs@.len(),
            out@ == cs@.take(i as int).map_values(|c: char| fold_char(c)),
        decreases cs@.len() - i,
    {
        out.push(fold_char_exec(cs[i]));
        assert(cs@.take(i + 1).map_values(|c: char| fold_char(c)) =~= cs@.take(i as int).map_values(
            |c: char| fold_char(c),
        ).push(fold_char(cs@[i as int])));
        i = i + 1;
    }
    assert(cs@.take(i as int) =~= cs@);
    string_of(&out)
}

/// The operation named by `n` (a normalized name).
pub open spec fn operation_named(n: Seq<char>) -> Option<BlendOperation> {
    if n == "add"@ {
        Some(BlendOperation::Add)
    } else if n == "subtract"@ {
        Some(BlendOperation::Subtract)
    } else if n == "reverse-subtract"@ || n == "rev-subtract"@ {
        Some(BlendOperation::ReverseSubtract)
    } else if n == "min"@ {
        Some(BlendOperation::Min)
    } else if n == "max"@ {
        Some(BlendOperation::Max)
    } else {
        None
    }
}

/// The factor named by `n` (a normalized name).
pub open spec fn factor_named(n: Seq<char>) -> Option<BlendFactor> {
    if n == "zero"@ {
        Some(BlendFactor::Zero)
    } else if n == "one"@ {
        Some(BlendFactor::One)
    } else if n == "src"@ || n == "src-color"@ {
        Some(BlendFactor::Src)
    } else if n == "one-minus-src"@ || n == "one-minus-src-color"@ {
        Some(BlendFactor::OneMinusSrc)
    } else if n == "src-alpha"@ {
        Some(BlendFactor::SrcAlpha)
    } else if n == "one-minus-src-alpha"@ {
        Some(BlendFactor::OneMinusSrcAlpha)
    } else if n == "dst"@ || n == "dst-color"@ {
        Some(BlendFactor::Dst)
    } else if n == "one-minus-dst"@ || n == "one-minus-dst-color"@ {
        Some(BlendFactor::OneMinusDst)
    } else if n == "dst-alpha"@ {
        Some(BlendFactor::DstAlpha)
    } else if n == "one-minus-dst-alpha"@ {
        Some(BlendFactor::OneMinusDstAlpha)
    } else if n == "src-alpha-saturated"@ {
        Some(BlendFactor::SrcAlphaSaturated)
    } else if n == "constant"@ || n == "blend-color"@ {
        Some(BlendFactor::Constant)
    } else if n == "one-minus-constant"@ || n == "one-minus-blend-color"@ {
        Some(BlendFactor::OneMinusConstant)
    } else {
        None
    }
}

pub open spec fn spec_parse_blend_operation(op: Seq<char>) -> Result<BlendOperation, BlendErrorSpec> {
    let n = spec_normalize_blend_token(op);
    match operation_named(n) {
        Some(o) => Ok(o),
        None => Err(BlendErrorSpec::UnsupportedOperation(n)),
    }
}

pub open spec fn spec_parse_blend_factor(f: Seq<char>) -> Result<BlendFactor, BlendErrorSpec> {
    let n = spec_normalize_blend_token(f);
    match factor_named(n) {
        Some(x) => Ok(x),
        None => Err(BlendErrorSpec::UnsupportedFactor(n)),
    }
}

/// `s` holds exactly the text `lit`.
fn is_text(s: &String, lit: &str) -> (r: bool)
    ensures
        r == (s@ == lit@),
{
    *s == owned(lit)
}

pub fn parse_blend_operation(op: &str) -> (r: Result<BlendOperation, BlendError>)
    ensures
        result_view(r) == spec_parse_blend_operation(op@),
{
    let n = normalize_blend_token(op);
    if is_text(&n, "add") {
        Ok(BlendOperation::Add)
    } else if is_text(&n, "subtract") {
        Ok(BlendOperation::Subtract)
    } else if is_text(&n, "reverse-subtract") || is_text(&n, "rev-subtract") {
        Ok(BlendOperation::ReverseSubtract)
    } else if is_text(&n, "min") {
        Ok(BlendOperation::Min)
    } else if is_text(&n, "max") {
        Ok(BlendOperation::Max)
    } else {
        Err(BlendError::UnsupportedOperation(n))
    }
}

pub fn parse_blend_factor(f: &str) -> (r: Result<BlendFactor, BlendError>)
    ensures
        result_view(r) == spec_parse_blend_factor(f@),
{
    let n = normalize_blend_token(f);
    if is_text(&n, "zero") {
        Ok(BlendFactor::Zero)
    } else if is_text(&n, "one") {
        Ok(BlendFactor::One)
    } else if is_text(&n, "src") || is_text(&n, "src-color") {
        Ok(BlendFactor::Src)
    } else if is_text(&n, "one-minus-src") || is_text(&n, "one-minus-src-color") {
        Ok(BlendFactor::OneMinusSrc)
    } else if is_text(&n, "src-alpha") {
        Ok(BlendFactor::SrcAlpha)
    } else if is_text(&n, "one-minus-src-alpha") {
        Ok(BlendFactor::OneMinusSrcAlpha)
    } else if is_text(&n, "dst") || is_text(&n, "dst-color") {
        Ok(BlendFactor::Dst)
    } else if is_text(&n, "one-minus-dst") || is_text(&n, "one-minus-dst-color") {
        Ok(BlendFactor::OneMinusDst)
    } else if is_text(&n, "dst-alpha") {
        Ok(BlendFactor::DstAlpha)
    } else if is_text(&n, "one-minus-dst-alpha") {
        Ok(BlendFactor::OneMinusDstAlpha)
    } else if is_text(&n, "src-alpha-saturated") {
        Ok(BlendFactor::SrcAlphaSaturated)
    } else if is_text(&n, "constant") || is_text(&n, "blend-color") {
        Ok(BlendFactor::Constant)
    } else if is_text(&n, "one-minus-constant") || is_text(&n, "one-minus-blend-color") {
        Ok(BlendFactor::OneMinusConstant)
    } else {
        Err(BlendError::UnsupportedFactor(n))
    }
}

// ---------------------------------------------------------------------------
// Presets
// ---------------------------------------------------------------------------

pub open spec fn component(src: BlendFactor, dst: BlendFactor, op: BlendOperation) -> BlendComponent {
    BlendComponent { src_factor: src, dst_factor: dst, operation: op }
}

/// The state that writes the source over the destination.
pub open spec fn spec_replace() -> BlendState {
    let c = component(BlendFactor::One, BlendFactor::Zero, BlendOperation::Add);
    BlendState { color: c, alpha: c }
}

pub fn replace_state() -> (r: BlendState)
    ensures
        r == spec_replace(),
{
    let c = BlendComponent {
        src_factor: BlendFactor::One,
        dst_factor: BlendFactor::Zero,
        operation: BlendOperation::Add,
    };
    BlendState { color: c, alpha: c }
}

/// Premultiplied blending: `one, one-minus-src-alpha, add`.
pub open spec fn premul_component() -> BlendComponent {
    component(BlendFactor::One, BlendFactor::OneMinusSrcAlpha, BlendOperation::Add)
}

/// The names under which a preset disables blending.
pub open spec fn is_replace_name(n: Seq<char>) -> bool {
    n == "opaque"@ || n == "none"@ || n == "off"@ || n == "replace"@
}

/// The state of the preset named `n` (a normalized name).
pub open spec fn preset_named(n: Seq<char>) -> Option<BlendState> {
    if n == "premul-alpha"@ || n == "premul"@ || n == "premultiplied-alpha"@ {
        Some(BlendState { color: premul_component(), alpha: premul_component() })
    } else if n == "alpha"@ {
        Some(
            BlendState {
                color: component(BlendFactor::SrcAlpha, BlendFactor::OneMinusSrcAlpha, BlendOperation::Add),
                alpha: premul_component(),
            },
        )
    } else if n == "add"@ || n == "additive"@ {
        let c = component(BlendFactor::One, BlendFactor::One, BlendOperation::Add);
        Some(BlendState { color: c, alpha: c })
    } else if is_replace_name(n) || n == "custom"@ {
        Some(spec_replace())
    } else {
        None
    }
}

pub open spec fn spec_default_blend_state_for_preset(preset: Seq<char>) -> Result<BlendState, BlendErrorSpec> {
    let n = spec_normalize_blend_token(preset);
    match preset_named(n) {
        Some(s) => Ok(s),
        None => Err(BlendErrorSpec::UnsupportedPreset(n)),
    }
}

fn is_replace_name_exec(n: &String) -> (r: bool)
    ensures
        r == is_replace_name(n@),
{
    is_text(n, "opaque") || is_text(n, "none") || is_text(n, "off") || is_text(n, "replace")
}

pub fn default_blend_state_for_preset(preset: &str) -> (r: Result<BlendState, BlendError>)
    ensures
        result_view(r) == spec_default_blend_state_for_preset(preset@),
{
    let n = normalize_blend_token(preset);
    let premul = BlendComponent {
        src_factor: BlendFactor::One,
        dst_factor: BlendFactor::OneMinusSrcAlpha,
        operation: BlendOperation::Add,
    };
    if is_text(&n, "premul-alpha") || is_text(&n, "premul") || is_text(&n, "premultiplied-alpha") {
        Ok(BlendState { color: premul, alpha: premul })
    } else if is_text(&n, "alpha") {
        Ok(
            BlendState {
                color: BlendComponent {
                    src_factor: BlendFactor::SrcAlpha,
                    dst_factor: BlendFactor::OneMinusSrcAlpha,
                    operation: BlendOperation::Add,
                },
                alpha: premul,
            },
        )
    } else if is_text(&n, "add") || is_text(&n, "additive") {
        let c = BlendComponent {
            src_factor: BlendFactor::One,
            dst_factor: BlendFactor::One,
            operation: BlendOperation::Add,
        };
        Ok(BlendState { color: c, alpha: c })
    } else if is_replace_name_exec(&n) || is_text(&n, "custom") {
        Ok(replace_state())
    } else {
        Err(BlendError::UnsupportedPreset(n))
    }
}

// ---------------------------------------------------------------------------
// Parameters
// ---------------------------------------------------------------------------


/// The text of a parameter, when it is a string.
pub open spec fn text_of(p: ParamValue) -> Option<Seq<char>> {
    match p {
        ParamValue::Text(s) => Some(s@),
        _ => None,
    }
}

/// A parameter the custom preset requires: its text, or why it is not usable.
pub open spec fn spec_require_custom_str(p: ParamValue, key: Seq<char>) -> Result<Seq<char>, BlendErrorSpec> {
    match p {
        ParamValue::Missing => Err(BlendErrorSpec::CustomMissing(key)),
        ParamValue::Text(s) => Ok(s@),
        ParamValue::Other => Err(BlendErrorSpec::CustomNotString(key)),
    }
}

fn require_custom_str<'a>(p: &'a ParamValue, key: &str) -> (r: Result<&'a String, BlendError>)
    ensures
        match r {
            Ok(s) => spec_require_custom_str(*p, key@) == Ok::<Seq<char>, BlendErrorSpec>(s@),
            Err(e) => spec_require_custom_str(*p, key@) == Err::<Seq<char>, BlendErrorSpec>(error_view(e)),
        },
{
    match p {
        ParamValue::Missing => Err(BlendError::CustomMissing(owned(key))),
        ParamValue::Text(s) => Ok(s),
        ParamValue::Other => Err(BlendError::CustomNotString(owned(key))),
    }
}

/// The unknown-name error `e` under the context of custom parameter `key`.
pub open spec fn in_custom_context(key: Seq<char>, e: BlendErrorSpec) -> BlendErrorSpec {
    match e {
        BlendErrorSpec::UnsupportedOperation(v) => BlendErrorSpec::InvalidCustomOperation(key, v),
        BlendErrorSpec::UnsupportedFactor(v) => BlendErrorSpec::InvalidCustomFactor(key, v),
        _ => e,
    }
}

pub open spec fn custom_factor(text: Seq<char>, key: Seq<char>) -> Result<BlendFactor, BlendErrorSpec> {
    match spec_parse_blend_factor(text) {
        Ok(f) => Ok(f),
        Err(e) => Err(in_custom_context(key, e)),
    }
}

pub open spec fn custom_operation(text: Seq<char>) -> Result<BlendOperation, BlendErrorSpec> {
    match spec_parse_blend_operation(text) {
        Ok(o) => Ok(o),
        Err(e) => Err(in_custom_context("blendfunc"@, e)),
    }
}

/// The custom preset: all five parameters must be strings (checked in the
/// order blendfunc, src_factor, dst_factor, src_alpha_factor,
/// dst_alpha_factor), then each is read (color source and destination
/// factors, operation, alpha source and destination factors).
pub open spec fn spec_parse_custom_blend_state(p: BlendParams) -> Result<BlendState, BlendErrorSpec> {
    match spec_require_custom_str(p.blendfunc, "blendfunc"@) {
        Err(e) => Err(e),
        Ok(op) => match spec_require_custom_str(p.src_factor, "src_factor"@) {
            Err(e) => Err(e),
            Ok(src) => match spec_require_custom_str(p.dst_factor, "dst_factor"@) {
                Err(e) => Err(e),
                Ok(dst) => match spec_require_custom_str(p.src_alpha_factor, "src_alpha_factor"@) {
                    Err(e) => Err(e),
                    Ok(src_a) => match spec_require_custom_str(p.dst_alpha_factor, "dst_alpha_factor"@) {
                        Err(e) => Err(e),
                        Ok(dst_a) => match custom_factor(src, "src_factor"@) {
                            Err(e) => Err(e),
                            Ok(cs) => match custom_factor(dst, "dst_factor"@) {
                                Err(e) => Err(e),
                                Ok(cd) => match custom_operation(op) {
                                    Err(e) => Err(e),
                                    Ok(o) => match custom_factor(src_a, "src_alpha_factor"@) {
                                        Err(e) => Err(e),
                                        Ok(as_) => match custom_factor(dst_a, "dst_alpha_factor"@) {
                                            Err(e) => Err(e),
                                            Ok(ad) => Ok(
                                                BlendState {
                                                    color: component(cs, cd, o),
                                                    alpha: component(as_, ad, o),
                                                },
                                            ),
                                        },
                                    },
                                },
                            },
                        },
                    },
                },
            },
        },
    }
}

fn custom_factor_exec(text: &String, key: &str) -> (r: Result<BlendFactor, BlendError>)
    ensures
        result_view(r) == custom_factor(text@, key@),
{
    match parse_blend_factor(text.as_str()) {
        Ok(f) => Ok(f),
        Err(BlendError::UnsupportedFactor(value)) => Err(BlendError::InvalidCustomFactor { key: owned(key), value }),
        Err(e) => Err(e),
    }
}

fn custom_operation_exec(text: &String) -> (r: Result<BlendOperation, BlendError>)
    ensures
        result_view(r) == custom_operation(text@),
{
    match parse_blend_operation(text.as_str()) {
        Ok(o) => Ok(o),
        Err(BlendError::UnsupportedOperation(value)) => Err(
            BlendError::InvalidCustomOperation { key: owned("blendfunc"), value },
        ),
        Err(e) => Err(e),
    }
}

pub fn parse_custom_blend_state(p: &BlendParams) -> (r: Result<BlendState, BlendError>)
    ensures
        result_view(r) == spec_parse_custom_blend_state(*p),
{
    let op = match require_custom_str(&p.blendfunc, "blendfunc") {
        Ok(s) => s,
        Err(e) => return Err(e),
    };
    let src = match require_custom_str(&p.src_factor, "src_factor") {
        Ok(s) => s,
        Err(e) => return Err(e),
    };
    let dst = match require_custom_str(&p.dst_factor, "dst_factor") {
        Ok(s) => s,
        Err(e) => return Err(e),
    };
    let src_a = match require_custom_str(&p.src_alpha_factor, "src_alpha_factor") {
        Ok(s) => s,
        Err(e) => return Err(e),
    };
    let dst_a = match require_custom_str(&p.dst_alpha_factor, "dst_alpha_factor") {
        Ok(s) => s,
        Err(e) => return Err(e),
    };
    let cs = match custom_factor_exec(src, "src_factor") {
        Ok(f) => f,
        Err(e) => return Err(e),
    };
    let cd = match custom_factor_exec(dst, "dst_factor") {
        Ok(f) => f,
        Err(e) => return Err(e),
    };
    let o = match custom_operation_exec(op) {
        Ok(o) => o,
        Err(e) => return Err(e),
    };
    let a_s = match custom_factor_exec(src_a, "src_alpha_factor") {
        Ok(f) => f,
        Err(e) => return Err(e),
    };
    let a_d = match custom_factor_exec(dst_a, "dst_alpha_factor") {
        Ok(f) => f,
        Err(e) => return Err(e),
    };
    Ok(
        BlendState {
            color: BlendComponent { src_factor: cs, dst_factor: cd, operation: o },
            alpha: BlendComponent { src_factor: a_s, dst_factor: a_d, operation: o },
        },
    )
}

/// The explicit overrides applied to `s`, in order: operation (color and
/// alpha), color source, color destination, alpha source, alpha destination.
pub open spec fn spec_apply_overrides(s: BlendState, p: BlendParams) -> Result<BlendState, BlendErrorSpec> {
    let s1 = match text_of(p.blendfunc) {
        None => Ok(s),
        Some(t) => match spec_parse_blend_operation(t) {
            Ok(o) => Ok(
                BlendState {
                    color: BlendComponent { operation: o, ..s.color },
                    alpha: BlendComponent { operation: o, ..s.alpha },
                },
            ),
            Err(e) => Err(e),
        },
    };
    match s1 {
        Err(e) => Err(e),
        Ok(s1) => {
            let s2 = match text_of(p.src_factor) {
                None => Ok(s1),
                Some(t) => match spec_parse_blend_factor(t) {
                    Ok(f) => Ok(BlendState { color: BlendComponent { src_factor: f, ..s1.color }, ..s1 }),
                    Err(e) => Err(e),
                },
            };
            match s2 {
                Err(e) => Err(e),
                Ok(s2) => {
                    let s3 = match text_of(p.dst_factor) {
                        None => Ok(s2),
                        Some(t) => match spec_parse_blend_factor(t) {
                            Ok(f) => Ok(BlendState { color: BlendComponent { dst_factor: f, ..s2.color }, ..s2 }),
                            Err(e) => Err(e),
                        },
                    };
                    match s3 {
                        Err(e) => Err(e),
                        Ok(s3) => {
                            let s4 = match text_of(p.src_alpha_factor) {
                                None => Ok(s3),
                                Some(t) => match spec_parse_blend_factor(t) {
                                    Ok(f) => Ok(
                                        BlendState { alpha: BlendComponent { src_factor: f, ..s3.alpha }, ..s3 },
                                    ),
                                    Err(e) => Err(e),
                                },
                            };
                            match s4 {
                                Err(e) => Err(e),
                                Ok(s4) => match text_of(p.dst_alpha_factor) {
                                    None => Ok(s4),
                                    Some(t) => match spec_parse_blend_factor(t) {
                                        Ok(f) => Ok(
                                            BlendState {
                                                alpha: BlendComponent { dst_factor: f, ..s4.alpha },
                                                ..s4
                                            },
                                        ),
                                        Err(e) => Err(e),
                                    },
                                },
                            }
                        },
                    }
                },
            }
        },
    }
}

/// The blend state of a render pass. A preset that disables blending wins
/// over every override, `custom` reads the explicit state, any other preset
/// (or none, which means replace) is taken as the base for the overrides.
pub open spec fn spec_parse_render_pass_blend_state(p: BlendParams) -> Result<BlendState, BlendErrorSpec> {
    match text_of(p.blend_preset) {
        Some(preset) => {
            let n = spec_normalize_blend_token(preset);
            if is_replace_name(n) {
                Ok(spec_replace())
            } else if n == "custom"@ {
                spec_parse_custom_blend_state(p)
            } else {
                match spec_default_blend_state_for_preset(preset) {
                    Ok(s) => spec_apply_overrides(s, p),
                    Err(e) => Err(e),
                }
            }
        },
        None => spec_apply_overrides(spec_replace(), p),
    }
}

fn apply_overrides(state: BlendState, p: &BlendParams) -> (r: Result<BlendState, BlendError>)
    ensures
        result_view(r) == spec_apply_overrides(state, *p),
{
    let mut state = state;
    if let ParamValue::Text(t) = &p.blendfunc {
        match parse_blend_operation(t.as_str()) {
            Ok(o) => {
                state.color.operation = o;
                state.alpha.operation = o;
            },
            Err(e) => return Err(e),
        }
    }
    if let ParamValue::Text(t) = &p.src_factor {
        match parse_blend_factor(t.as_str()) {
            Ok(f) => state.color.src_factor = f,
            Err(e) => return Err(e),
        }
    }
    if let ParamValue::Text(t) = &p.dst_factor {
        match parse_blend_factor(t.as_str()) {
            Ok(f) => state.color.dst_factor = f,
            Err(e) => return Err(e),
        }
    }
    if let ParamValue::Text(t) = &p.src_alpha_factor {
        match parse_blend_factor(t.as_str()) {
            Ok(f) => state.alpha.src_factor = f,
            Err(e) => return Err(e),
        }
    }
    if let ParamValue::Text(t) = &p.dst_alpha_factor {
        match parse_blend_factor(t.as_str()) {
            Ok(f) => state.alpha.dst_factor = f,
            Err(e) => return Err(e),
        }
    }
    Ok(state)
}

pub fn parse_render_pass_blend_state(p: &BlendParams) -> (r: Result<BlendState, BlendError>)
    ensures
        result_view(r) == spec_parse_render_pass_blend_state(*p),
{
    match &p.blend_preset {
        ParamValue::Text(preset) => {
            let n = normalize_blend_token(preset.as_str());
            if is_replace_name_exec(&n) {
                return Ok(replace_state());
            }
            if is_text(&n, "custom") {
                return parse_custom_blend_state(p);
            }
            match default_blend_state_for_preset(preset.as_str()) {
                Ok(s) => apply_overrides(s, p),
                Err(e) => Err(e),
            }
        },
        _ => apply_overrides(replace_state(), p),
    }
}


// ---------------------------------------------------------------------------
// Laws
// ---------------------------------------------------------------------------

proof fn lemma_fold_char(c: char)
    ensures
        fold_char(fold_char(c)) == fold_char(c),
        is_white_space(fold_char(c)) == is_white_space(c),
{
    if 65 <= (c as u32) <= 90 {
        assert(((c as u32) + 32) as char as u32 == (c as u32) + 32);
    }
}

/// Normalizing a blend name twice gives the same name as normalizing it once.
pub proof fn lemma_normalize_blend_token_idempotent(s: Seq<char>)
    ensures
        spec_normalize_blend_token(spec_normalize_blend_token(s)) == spec_normalize_blend_token(s),
{
    let t = spec_trim(s);
    let n = t.map_values(|c: char| fold_char(c));
    lemma_trim_ends(s);
    if t.len() > 0 {
        lemma_fold_char(t[0]);
        lemma_fold_char(t.last());
        assert(n[0] == fold_char(t[0]));
        assert(n.last() == fold_char(t.last()));
    }
    lemma_trim_of_trimmed(n);
    assert forall|i: int| 0 <= i < n.len() implies #[trigger] fold_char(n[i]) == n[i] by {
        lemma_fold_char(t[i]);
    }
    assert(n.map_values(|c: char| fold_char(c)) =~= n);
}

/// A preset that disables blending (`opaque`, `none`, `off`, `replace`, in
/// any case, with `_` for `-` and surrounding white space) gives the replace
/// state whatever the other parameters hold.
pub proof fn lemma_replace_presets_ignore_overrides(p: BlendParams, q: BlendParams)
    requires
        text_of(p.blend_preset) matches Some(t) && is_replace_name(spec_normalize_blend_token(t)),
        q.blend_preset == p.blend_preset,
    ensures
        spec_parse_render_pass_blend_state(p) == Ok::<BlendState, BlendErrorSpec>(spec_replace()),
        spec_parse_render_pass_blend_state(q) == spec_parse_render_pass_blend_state(p),
{
}

/// The custom preset takes every field verbatim from its parameters.
pub proof fn lemma_custom_preset_is_verbatim(
    p: BlendParams,
    op: BlendOperation,
    cs: BlendFactor,
    cd: BlendFactor,
    a_s: BlendFactor,
    a_d: BlendFactor,
)
    requires
        text_of(p.blend_preset) matches Some(t) && spec_normalize_blend_token(t) == "custom"@,
        text_of(p.blendfunc) matches Some(t) && spec_parse_blend_operation(t) == Ok::<
            BlendOperation,
            BlendErrorSpec,
        >(op),
        text_of(p.src_factor) matches Some(t) && spec_parse_blend_factor(t) == Ok::<BlendFactor, BlendErrorSpec>(cs),
        text_of(p.dst_factor) matches Some(t) && spec_parse_blend_factor(t) == Ok::<BlendFactor, BlendErrorSpec>(cd),
        text_of(p.src_alpha_factor) matches Some(t) && spec_parse_blend_factor(t) == Ok::<
            BlendFactor,
            BlendErrorSpec,
        >(a_s),
        text_of(p.dst_alpha_factor) matches Some(t) && spec_parse_blend_factor(t) == Ok::<
            BlendFactor,
            BlendErrorSpec,
        >(a_d),
    ensures
        spec_parse_render_pass_blend_state(p) == Ok::<BlendState, BlendErrorSpec>(
            BlendState { color: component(cs, cd, op), alpha: component(a_s, a_d, op) },
        ),
{
    reveal_strlit("custom");
    reveal_strlit("opaque");
    reveal_strlit("none");
    reveal_strlit("off");
    reveal_strlit("replace");
    assert("custom"@ != "opaque"@ && "custom"@ != "none"@ && "custom"@ != "off"@ && "custom"@ != "replace"@) by {
        assert("custom"@[0] != "opaque"@[0]);
        assert("custom"@[0] != "none"@[0]);
        assert("custom"@[0] != "off"@[0]);
        assert("custom"@[0] != "replace"@[0]);
    }
}

/// An explicit operation overrides both channel groups of a named preset.
pub proof fn lemma_operation_override_applies_to_both_groups(p: BlendParams, o: BlendOperation)
    requires
        text_of(p.blendfunc) matches Some(t) && spec_parse_blend_operation(t) == Ok::<
            BlendOperation,
            BlendErrorSpec,
        >(o),
        spec_parse_render_pass_blend_state(p) is Ok,
        !(text_of(p.blend_preset) matches Some(t) && (is_replace_name(spec_normalize_blend_token(t))
            || spec_normalize_blend_token(t) == "custom"@)),
    ensures
        spec_parse_render_pass_blend_state(p)->Ok_0.color.operation == o,
        spec_parse_render_pass_blend_state(p)->Ok_0.alpha.operation == o,
{
}


/// The name of each blend factor, as wgpu spells it in kebab case.
pub open spec fn factor_name(f: BlendFactor) -> Seq<char> {
    match f {
        BlendFactor::Zero => "zero"@,
        BlendFactor::One => "one"@,
        BlendFactor::Src => "src"@,
        BlendFactor::OneMinusSrc => "one-minus-src"@,
        BlendFactor::SrcAlpha => "src-alpha"@,
        BlendFactor::OneMinusSrcAlpha => "one-minus-src-alpha"@,
        BlendFactor::Dst => "dst"@,
        BlendFactor::OneMinusDst => "one-minus-dst"@,
        BlendFactor::DstAlpha => "dst-alpha"@,
        BlendFactor::OneMinusDstAlpha => "one-minus-dst-alpha"@,
        BlendFactor::SrcAlphaSaturated => "src-alpha-saturated"@,
        BlendFactor::Constant => "constant"@,
        BlendFactor::OneMinusConstant => "one-minus-constant"@,
    }
}

/// Every blend factor is read back from its own name, whatever its case,
/// with `_` for `-` and white space around it; so no two factors share a
/// name.
pub proof fn lemma_factor_names_read_back(s: Seq<char>, f: BlendFactor)
    requires
        spec_normalize_blend_token(s) == factor_name(f),
    ensures
        spec_parse_blend_factor(s) == Ok::<BlendFactor, BlendErrorSpec>(f),
{
    reveal_strlit("zero");
    reveal_strlit("one");
    reveal_strlit("src");
    reveal_strlit("src-color");
    reveal_strlit("one-minus-src");
    reveal_strlit("one-minus-src-color");
    reveal_strlit("src-alpha");
    reveal_strlit("one-minus-src-alpha");
    reveal_strlit("dst");
    reveal_strlit("dst-color");
    reveal_strlit("one-minus-dst");
    reveal_strlit("one-minus-dst-color");
    reveal_strlit("dst-alpha");
    reveal_strlit("one-minus-dst-alpha");
    reveal_strlit("src-alpha-saturated");
    reveal_strlit("constant");
    reveal_strlit("blend-color");
    reveal_strlit("one-minus-constant");
    reveal_strlit("one-minus-blend-color");
    match f {
        BlendFactor::Zero => {

        },
        BlendFactor::One => {
            assert("one"@.len() != "zero"@.len());
        },
        BlendFactor::Src => {
            assert("src"@.len() != "zero"@.len());
            assert("src"@[0] != "one"@[0]);
        },
        BlendFactor::OneMinusSrc => {
            assert("one-minus-src"@.len() != "zero"@.len());
            assert("one-minus-src"@.len() != "one"@.len());
            assert("one-minus-src"@.len() != "src"@.len());
            assert("one-minus-src"@.len() != "src-color"@.len());
        },
        BlendFactor::SrcAlpha => {
            assert("src-alpha"@.len() != "zero"@.len());
            assert("src-alpha"@.len() != "one"@.len());
            assert("src-alpha"@.len() != "src"@.len());
            assert("src-alpha"@[4] != "src-color"@[4]);
            assert("src-alpha"@.len() != "one-minus-src"@.len());
            assert("src-alpha"@.len() != "one-minus-src-color"@.len());
        },
        BlendFactor::OneMinusSrcAlpha => {
            assert("one-minus-src-alpha"@.len() != "zero"@.len());
            assert("one-minus-src-alpha"@.len() != "one"@.len());
            assert("one-minus-src-alpha"@.len() != "src"@.len());
            assert("one-minus-src-alpha"@.len() != "src-color"@.len());
            assert("one-minus-src-alpha"@.len() != "one-minus-src"@.len());
            assert("one-minus-src-alpha"@[14] != "one-minus-src-color"@[14]);
            assert("one-minus-src-alpha"@.len() != "src-alpha"@.len());
        },
        BlendFactor::Dst => {
            assert("dst"@.len() != "zero"@.len());
            assert("dst"@[0] != "one"@[0]);
            assert("dst"@[0] != "src"@[0]);
            assert("dst"@.len() != "src-color"@.len());
            assert("dst"@.len() != "one-minus-src"@.len());
            assert("dst"@.len() != "one-minus-src-color"@.len());
            assert("dst"@.len() != "src-alpha"@.len());
            assert("dst"@.len() != "one-minus-src-alpha"@.len());
        },
        BlendFactor::OneMinusDst => {
            assert("one-minus-dst"@.len() != "zero"@.len());
            assert("one-minus-dst"@.len() != "one"@.len());
            assert("one-minus-dst"@.len() != "src"@.len());
            assert("one-minus-dst"@.len() != "src-color"@.len());
            assert("one-minus-dst"@[10] != "one-minus-src"@[10]);
            assert("one-minus-dst"@.len() != "one-minus-src-color"@.len());
            assert("one-minus-dst"@.len() != "src-alpha"@.len());
            assert("one-minus-dst"@.len() != "one-minus-src-alpha"@.len());
            assert("one-minus-dst"@.len() != "dst"@.len());
            assert("one-minus-dst"@.len() != "dst-color"@.len());
        },
        BlendFactor::DstAlpha => {
            assert("dst-alpha"@.len() != "zero"@.len());
            assert("dst-alpha"@.len() != "one"@.len());
            assert("dst-alpha"@.len() != "src"@.len());
            assert("dst-alpha"@[0] != "src-color"@[0]);
            assert("dst-alpha"@.len() != "one-minus-src"@.len());
            assert("dst-alpha"@.len() != "one-minus-src-color"@.len());
            assert("dst-alpha"@[0] != "src-alpha"@[0]);
            assert("dst-alpha"@.len() != "one-minus-src-alpha"@.len());
            assert("dst-alpha"@.len() != "dst"@.len());
            assert("dst-alpha"@[4] != "dst-color"@[4]);
            assert("dst-alpha"@.len() != "one-minus-dst"@.len());
            assert("dst-alpha"@.len() != "one-minus-dst-color"@.len());
        },
        BlendFactor::OneMinusDstAlpha => {
            assert("one-minus-dst-alpha"@.len() != "zero"@.len());
            assert("one-minus-dst-alpha"@.len() != "one"@.len());
            assert("one-minus-dst-alpha"@.len() != "src"@.len());
            assert("one-minus-dst-alpha"@.len() != "src-color"@.len());
            assert("one-minus-dst-alpha"@.len() != "one-minus-src"@.len());
            assert("one-minus-dst-alpha"@[10] != "one-minus-src-color"@[10]);
            assert("one-minus-dst-alpha"@.len() != "src-alpha"@.len());
            assert("one-minus-dst-alpha"@[10] != "one-minus-src-alpha"@[10]);
            assert("one-minus-dst-alpha"@.len() != "dst"@.len());
            assert("one-minus-dst-alpha"@.len() != "dst-color"@.len());
            assert("one-minus-dst-alpha"@.len() != "one-minus-dst"@.len());
            assert("one-minus-dst-alpha"@[14] != "one-minus-dst-color"@[14]);
            assert("one-minus-dst-alpha"@.len() != "dst-alpha"@.len());
        },
        BlendFactor::SrcAlphaSaturated => {
            assert("src-alpha-saturated"@.len() != "zero"@.len());
            assert("src-alpha-saturated"@.len() != "one"@.len());
            assert("src-alpha-saturated"@.len() != "src"@.len());
            assert("src-alpha-saturated"@.len() != "src-color"@.len());
            assert("src-alpha-saturated"@.len() != "one-minus-src"@.len());
            assert("src-alpha-saturated"@[0] != "one-minus-src-color"@[0]);
            assert("src-alpha-saturated"@.len() != "src-alpha"@.len());
            assert("src-alpha-saturated"@[0] != "one-minus-src-alpha"@[0]);
            assert("src-alpha-saturated"@.len() != "dst"@.len());
            assert("src-alpha-saturated"@.len() != "dst-color"@.len());
            assert("src-alpha-saturated"@.len() != "one-minus-dst"@.len());
            assert("src-alpha-saturated"@[0] != "one-minus-dst-color"@[0]);
            assert("src-alpha-saturated"@.len() != "dst-alpha"@.len());
            assert("src-alpha-saturated"@[0] != "one-minus-dst-alpha"@[0]);
        },
        BlendFactor::Constant => {
            assert("constant"@.len() != "zero"@.len());
            assert("constant"@.len() != "one"@.len());
            assert("constant"@.len() != "src"@.len());
            assert("constant"@.len() != "src-color"@.len());
            assert("constant"@.len() != "one-minus-src"@.len());
            assert("constant"@.len() != "one-minus-src-color"@.len());
            assert("constant"@.len() != "src-alpha"@.len());
            assert("constant"@.len() != "one-minus-src-alpha"@.len());
            assert("constant"@.len() != "dst"@.len());
            assert("constant"@.len() != "dst-color"@.len());
            assert("constant"@.len() != "one-minus-dst"@.len());
            assert("constant"@.len() != "one-minus-dst-color"@.len());
            assert("constant"@.len() != "dst-alpha"@.len());
            assert("constant"@.len() != "one-minus-dst-alpha"@.len());
            assert("constant"@.len() != "src-alpha-saturated"@.len());
        },
        BlendFactor::OneMinusConstant => {
            assert("one-minus-constant"@.len() != "zero"@.len());
            assert("one-minus-constant"@.len() != "one"@.len());
            assert("one-minus-constant"@.len() != "src"@.len());
            assert("one-minus-constant"@.len() != "src-color"@.len());
            assert("one-minus-constant"@.len() != "one-minus-src"@.len());
            assert("one-minus-constant"@.len() != "one-minus-src-color"@.len());
            assert("one-minus-constant"@.len() != "src-alpha"@.len());
            assert("one-minus-constant"@.len() != "one-minus-src-alpha"@.len());
            assert("one-minus-constant"@.len() != "dst"@.len());
            assert("one-minus-constant"@.len() != "dst-color"@.len());
            assert("one-minus-constant"@.len() != "one-minus-dst"@.len());
            assert("one-minus-constant"@.len() != "one-minus-dst-color"@.len());
            assert("one-minus-constant"@.len() != "dst-alpha"@.len());
            assert("one-minus-constant"@.len() != "one-minus-dst-alpha"@.len());
            assert("one-minus-constant"@.len() != "src-alpha-saturated"@.len());
            assert("one-minus-constant"@.len() != "constant"@.len());
            assert("one-minus-constant"@.len() != "blend-color"@.len());
        },
    }
    assert(factor_named(factor_name(f)) == Some(f));
}

} // verus!
