use node_forge_render::render_plan::blend::{
    default_blend_state_for_preset, normalize_blend_token, parse_blend_factor, parse_blend_operation,
    parse_render_pass_blend_state, BlendComponent, BlendError, BlendFactor, BlendOperation,
    BlendParams, BlendState, ParamValue,
};

fn params() -> BlendParams {
    BlendParams {
        blend_preset: ParamValue::Missing,
        blendfunc: ParamValue::Missing,
        src_factor: ParamValue::Missing,
        dst_factor: ParamValue::Missing,
        src_alpha_factor: ParamValue::Missing,
        dst_alpha_factor: ParamValue::Missing,
    }
}

fn text(s: &str) -> ParamValue {
    ParamValue::Text(s.to_string())
}

fn comp(src: BlendFactor, dst: BlendFactor, op: BlendOperation) -> BlendComponent {
    BlendComponent { src_factor: src, dst_factor: dst, operation: op }
}

fn assert_blend_state_eq(actual: BlendState, expected: BlendState) {
    assert_eq!(format!("{actual:?}"), format!("{expected:?}"));
}

#[test]
fn preset_alpha_matches_contract() {
    let mut p = params();
    p.blend_preset = text("alpha");
    let got = parse_render_pass_blend_state(&p).expect("parse alpha blend preset");
    let expected = BlendState {
        color: comp(BlendFactor::SrcAlpha, BlendFactor::OneMinusSrcAlpha, BlendOperation::Add),
        alpha: comp(BlendFactor::One, BlendFactor::OneMinusSrcAlpha, BlendOperation::Add),
    };
    assert_blend_state_eq(got, expected);
}

#[test]
fn preset_premul_alpha_matches_contract() {
    let mut p = params();
    p.blend_preset = text("premul_alpha");
    let got = parse_render_pass_blend_state(&p).expect("parse premul-alpha blend preset");
    let expected = BlendState {
        color: comp(BlendFactor::One, BlendFactor::OneMinusSrcAlpha, BlendOperation::Add),
        alpha: comp(BlendFactor::One, BlendFactor::OneMinusSrcAlpha, BlendOperation::Add),
    };
    assert_blend_state_eq(got, expected);
}

#[test]
fn preset_add_matches_contract() {
    let mut p = params();
    p.blend_preset = text("add");
    let got = parse_render_pass_blend_state(&p).expect("parse add blend preset");
    let expected = BlendState {
        color: comp(BlendFactor::One, BlendFactor::One, BlendOperation::Add),
        alpha: comp(BlendFactor::One, BlendFactor::One, BlendOperation::Add),
    };
    assert_blend_state_eq(got, expected);
}

#[test]
fn custom_preset_requires_all_explicit_fields() {
    let mut p = params();
    p.blend_preset = text("custom");
    let err = parse_render_pass_blend_state(&p).expect_err("custom preset without factors fails");
    assert!(err.message().contains("blend_preset=custom requires 'blendfunc'"));
}

#[test]
fn custom_preset_uses_verbatim_values() {
    let p = BlendParams {
        blend_preset: text("custom"),
        blendfunc: text("reverse-subtract"),
        src_factor: text("one"),
        dst_factor: text("one"),
        src_alpha_factor: text("src-alpha"),
        dst_alpha_factor: text("one-minus-src-alpha"),
    };
    let got = parse_render_pass_blend_state(&p).expect("parse custom blend preset");
    let expected = BlendState {
        color: comp(BlendFactor::One, BlendFactor::One, BlendOperation::ReverseSubtract),
        alpha: comp(BlendFactor::SrcAlpha, BlendFactor::OneMinusSrcAlpha, BlendOperation::ReverseSubtract),
    };
    assert_blend_state_eq(got, expected);
}

#[test]
fn normalized_tokens_are_trimmed_lower_case_with_dashes() {
    assert_eq!(normalize_blend_token("  One_Minus_SRC_Alpha\t"), "one-minus-src-alpha");
    assert_eq!(normalize_blend_token("\u{3000}Premul\u{a0}"), "premul");
    assert_eq!(normalize_blend_token("   "), "");
}

#[test]
fn replace_presets_ignore_overrides() {
    for preset in ["replace", "OFF", " none ", "Opaque"] {
        let p = BlendParams {
            blend_preset: text(preset),
            blendfunc: text("max"),
            src_factor: text("bogus"),
            dst_factor: ParamValue::Other,
            src_alpha_factor: text("zero"),
            dst_alpha_factor: text("zero"),
        };
        let got = parse_render_pass_blend_state(&p).expect("replace preset");
        let expected = BlendState {
            color: comp(BlendFactor::One, BlendFactor::Zero, BlendOperation::Add),
            alpha: comp(BlendFactor::One, BlendFactor::Zero, BlendOperation::Add),
        };
        assert_eq!(got, expected);
    }
}

#[test]
fn overrides_apply_on_top_of_a_preset() {
    let mut p = params();
    p.blend_preset = text("alpha");
    p.blendfunc = text("Max");
    p.dst_alpha_factor = text("dst_color");
    p.src_factor = ParamValue::Other;
    let got = parse_render_pass_blend_state(&p).expect("overrides");
    assert_eq!(
        got,
        BlendState {
            color: comp(BlendFactor::SrcAlpha, BlendFactor::OneMinusSrcAlpha, BlendOperation::Max),
            alpha: comp(BlendFactor::One, BlendFactor::Dst, BlendOperation::Max),
        }
    );
}

#[test]
fn no_preset_starts_from_replace() {
    let mut p = params();
    p.src_factor = text("constant");
    let got = parse_render_pass_blend_state(&p).expect("no preset");
    assert_eq!(
        got,
        BlendState {
            color: comp(BlendFactor::Constant, BlendFactor::Zero, BlendOperation::Add),
            alpha: comp(BlendFactor::One, BlendFactor::Zero, BlendOperation::Add),
        }
    );
}

#[test]
fn each_blend_error_is_reported() {
    assert_eq!(
        parse_blend_operation(" Divide ").unwrap_err(),
        BlendError::UnsupportedOperation("divide".to_string())
    );
    assert_eq!(
        parse_blend_factor("half").unwrap_err().message(),
        "unsupported blend factor: half"
    );
    assert_eq!(
        default_blend_state_for_preset("Glow").unwrap_err().message(),
        "unsupported blend_preset: glow"
    );
    let mut p = params();
    p.blend_preset = text("custom");
    p.blendfunc = ParamValue::Other;
    assert_eq!(
        parse_render_pass_blend_state(&p).unwrap_err().message(),
        "blend_preset=custom requires 'blendfunc' to be a string"
    );
    let p = BlendParams {
        blend_preset: text("custom"),
        blendfunc: text("add"),
        src_factor: text("one"),
        dst_factor: text("two"),
        src_alpha_factor: text("one"),
        dst_alpha_factor: text("one"),
    };
    assert_eq!(
        parse_render_pass_blend_state(&p).unwrap_err().message(),
        "invalid custom blend param 'dst_factor': unsupported blend factor: two"
    );
    let p = BlendParams { blendfunc: text("mix"), dst_factor: text("zero"), ..p };
    assert_eq!(
        parse_render_pass_blend_state(&p).unwrap_err(),
        BlendError::InvalidCustomOperation { key: "blendfunc".to_string(), value: "mix".to_string() }
    );
}

#[test]
fn factor_aliases_name_the_same_factor() {
    assert_eq!(parse_blend_factor("src").unwrap(), parse_blend_factor("SRC_COLOR").unwrap());
    assert_eq!(parse_blend_factor("blend-color").unwrap(), BlendFactor::Constant);
    assert_eq!(parse_blend_operation("rev_subtract").unwrap(), BlendOperation::ReverseSubtract);
}
