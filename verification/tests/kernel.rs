use node_forge_render::render_plan::kernel::{
    is_float_literal, parse_kernel_source_js_like, strip_js_comments, KernelError,
};

fn values_of(src: &str) -> (u32, u32, Vec<String>) {
    let k = parse_kernel_source_js_like(src).expect("kernel parses");
    (k.width, k.height, k.values)
}

#[test]
fn reads_width_height_and_values() {
    let (w, h, v) = values_of("return { width: 3, height: 1, values: [0.25, 0.5, 0.25] };");
    assert_eq!((w, h), (3, 1));
    assert_eq!(v, vec!["0.25", "0.5", "0.25"]);
}

#[test]
fn falls_back_to_value_when_values_is_absent() {
    let (w, h, v) = values_of("return { width: 2, height: 2, value: [1, -1, +2e3, .5] };");
    assert_eq!((w, h), (2, 2));
    assert_eq!(v, vec!["1", "-1", "+2e3", ".5"]);
}

#[test]
fn falls_back_to_value_when_values_has_a_bad_literal() {
    let src = "return { width: 1, height: 1, values: [1e], value: [7] };";
    let (_, _, v) = values_of(src);
    assert_eq!(v, vec!["7"]);
}

#[test]
fn comments_are_ignored() {
    let src = "// width/height: number\nreturn { /* width: 9 */ width: 1, height: 1, value: [3] };";
    let (w, h, v) = values_of(src);
    assert_eq!((w, h), (1, 1));
    assert_eq!(v, vec!["3"]);
    assert_eq!(strip_js_comments("a/*b*/c//d\ne"), "ac\ne");
    assert_eq!(strip_js_comments("x /* open"), "x ");
}

#[test]
fn field_names_must_be_whole_words_followed_by_a_colon() {
    let src = "return { mywidth: 5, width : 2, height:1, value: [1 2] };";
    let (w, h, v) = values_of(src);
    assert_eq!((w, h), (2, 1));
    assert_eq!(v, vec!["1", "2"]);
}

#[test]
fn each_kernel_error_is_reported() {
    let err = |s: &str| parse_kernel_source_js_like(s).unwrap_err();
    assert_eq!(err("return { height: 1 };"), KernelError::MissingField("width".to_string()));
    assert_eq!(err("return { width: 1 };").message(), "Kernel.source missing height");
    assert_eq!(
        err("return { width: x, height: 1 };").message(),
        "Kernel.source field width missing numeric value"
    );
    assert_eq!(err("return { width: 4294967296, height: 1 };"), KernelError::NumberTooLarge);
    assert_eq!(
        err("return { width: 1, height: 1, value: 3 };").message(),
        "Kernel.source missing '[' for value"
    );
    assert_eq!(
        err("return { width: 1, height: 1, value: [3 };").message(),
        "Kernel.source missing ']' for value"
    );
    assert_eq!(
        err("return { width: 1, height: 1, value: [1.2.3] };").message(),
        "invalid float literal"
    );
    assert_eq!(
        err("return { width: 0, height: 3, value: [] };").message(),
        "Kernel.source invalid size: 0x3"
    );
    assert_eq!(
        err("return { width: 2, height: 2, value: [1, 2, 3] };").message(),
        "Kernel.source values length mismatch: expected 4 for 2x2, got 3"
    );
}

#[test]
fn largest_width_is_accepted() {
    let err = parse_kernel_source_js_like("return { width: 4294967295, height: 1, value: [1] };")
        .unwrap_err();
    assert_eq!(
        err,
        KernelError::LengthMismatch { expected: 4294967295, width: 4294967295, height: 1, got: 1 }
    );
}

#[test]
fn float_literals_follow_the_documented_grammar() {
    for ok in ["1", "1.", ".5", "-2.5e-3", "+1E9", "007", "1.e5"] {
        assert!(is_float_literal(&ok.as_bytes().to_vec()), "{ok}");
        assert!(ok.parse::<f32>().is_ok(), "{ok}");
    }
    for bad in ["", ".", "-", "e5", "1e", "1e+", "1..2", "1.2.3", "+-1", "1e5e"] {
        assert!(!is_float_literal(&bad.as_bytes().to_vec()), "{bad}");
        assert!(bad.parse::<f32>().is_err(), "{bad}");
    }
}
