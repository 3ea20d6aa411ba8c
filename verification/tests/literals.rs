use bevy_shader::literal::can_lex;
use bevy_shader::{Shader, ShaderImport};

#[test]
fn ordinary_numbers_can_be_lexed() {
    for number in [
        "", "0", "1.5e300f", "0e999999999", "0x", "0X1F", "0xffu", "0x1p4", "0x1.8p-3", "0X.8P+1h",
        "0x0", "0x0.0", "0x0.", "0x0000000000000000000p0", "0x1p999f", "0x0p300f", "0x.p999", "0x1.p",
        "0x12345678901234567890.12345678901234567890p100",
    ] {
        assert!(can_lex(number), "{number}");
        let source = format!("const a = package::m::f({number});");
        assert!(can_lex(&source), "{number}");
    }
}

#[test]
fn zeros_have_bounded_exponents() {
    for (fits, breaks) in [
        ("0x0p268", "0x0p269"),
        ("0x0p-255", "0x0p-256"),
        ("0X00.00P270", "0X00.00P271"),
        ("0x.00p-253", "0x.00p-254"),
        ("0x0p37h", "0x0p38h"),
        ("0x0p-31h", "0x0p-32h"),
        ("0x0p+00268", "0x0p+00300"),
    ] {
        assert!(can_lex(fits), "{fits}");
        assert!(!can_lex(breaks), "{breaks}");
        assert!(!can_lex(&format!("const a = {breaks}; fn f() {{ }}")), "{breaks}");
    }
    assert!(!can_lex(&format!("0x0.{}", "0".repeat(256))));
    assert!(can_lex(&format!("0x0.{}", "0".repeat(255))));
    assert!(can_lex(&format!("0x0.{}1", "0".repeat(256))));
}

#[test]
fn exponents_stay_below_a_limit() {
    for (fits, breaks) in [
        ("0x1p536866815", "0x1p536866816"),
        ("0x1p-536866815", "0x1p-536866816"),
        ("0x1.1p536866814", "0x1.1p536866815"),
        ("0x1p0", "0x1p99999999999999999999999"),
    ] {
        assert!(can_lex(fits), "{fits}");
        assert!(!can_lex(breaks), "{breaks}");
    }
}

#[test]
fn numbers_at_the_bounds_are_parsed() {
    for number in ["0x0p268", "0x0p-255", "0x0p37h", "0x0p-31h", "0x1p536866815", "0x1p-536866815"] {
        let source = format!("const a = package::m::f({number}, package::n::c);");
        let shader = Shader::from_wesl(source, "main.wesl");
        let expected = ["/m", "/n"].map(|path| ShaderImport::AssetPath(path.to_string()));
        assert_eq!(shader.imports, expected, "{number}");
    }
}

#[test]
fn comments_hold_no_numbers() {
    for end in ["\n", "\u{b}", "\u{c}", "\r", "\u{85}", "\u{2028}", "\u{2029}", "\r\n"] {
        assert!(can_lex(&format!("// 0x0p300{end}fn f() {{ }}")), "{end:?}");
        assert!(!can_lex(&format!("// f{end}const a = 0x0p300;")), "{end:?}");
    }
    for text in [
        "/* 0x0p300 */", "/* /* 0x0p300 */ 0x0p300 */", "/*/ 0x0p300 */", "/* 0x0p300", "1 // 0x0p300",
        "a//0x0p300", "/* // */", "/**/", "// /*\n",
    ] {
        assert!(can_lex(text), "{text}");
    }
    for text in [
        "/* /* */ */ 0x0p300", "/**/0x0p300", "// /*\n0x0p300", "/* // */0x0p300", "/ / 0x0p300",
    ] {
        assert!(!can_lex(text), "{text}");
    }
}

#[test]
fn names_hold_no_numbers() {
    for text in ["a0x0p300", "_0x0p300", "x.y0x0p300", "f(b0x0p300)", "a10x0p300+b"] {
        assert!(can_lex(text), "{text}");
    }
    for blank in ['\u{85}', '\u{a0}', '\u{1680}', '\u{200a}', '\u{200f}', '\u{2029}', '\u{3000}'] {
        assert!(can_lex(&format!("1{blank}a0x0p300")), "{blank:?}");
        assert!(!can_lex(&format!("1{blank}0x0p300")), "{blank:?}");
    }
    for text in ["1f0x0p300", "a 0x0p300", "(0x0p300)", "a-0x0p300", "a/0x0p300"] {
        assert!(!can_lex(text), "{text}");
    }
}

#[test]
fn sources_are_parsed_past_comments_and_names() {
    let source = "// 0x0p300\n/* 0x0p999 /* */ */ fn a0x0p300() { package::m::f(); }";
    let shader = Shader::from_wesl(source, "main.wesl");
    assert_eq!(shader.imports, vec![ShaderImport::AssetPath("/m".to_string())]);
}
