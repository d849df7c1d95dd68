use riscv_core::disas::{is_register_name, rebuild_format, tokenize_format, FormatToken};

fn text(t: &FormatToken) -> String {
    String::from_utf8(t.text.clone()).unwrap()
}

fn field(t: &FormatToken) -> Option<(String, Option<String>)> {
    t.field.as_ref().map(|(n, f)| {
        (String::from_utf8(n.clone()).unwrap(), f.as_ref().map(|v| String::from_utf8(v.clone()).unwrap()))
    })
}

#[test]
fn tokenize_plain_fields() {
    let toks = tokenize_format("addi {rd}, {rs1}, {imm}");
    assert_eq!(toks.len(), 6);
    assert_eq!(text(&toks[0]), "addi ");
    assert_eq!(field(&toks[1]), Some(("rd".to_string(), None)));
    assert_eq!(text(&toks[2]), ", ");
    assert_eq!(field(&toks[3]), Some(("rs1".to_string(), None)));
    assert_eq!(field(&toks[5]), Some(("imm".to_string(), None)));
}

#[test]
fn tokenize_spec_and_escape() {
    let toks = tokenize_format("lui {rd}, {imm:#x}");
    assert_eq!(field(&toks[3]), Some(("imm".to_string(), Some("#x".to_string()))));
    let toks = tokenize_format("{{x}}");
    assert_eq!(toks.len(), 1);
    assert_eq!(text(&toks[0]), "{x}}");
    assert!(toks[0].field.is_none());
}

#[test]
fn tokenize_edge_cases() {
    let toks = tokenize_format("");
    assert_eq!(toks.len(), 1);
    assert_eq!(text(&toks[0]), "");
    let toks = tokenize_format("{a:}");
    assert_eq!(field(&toks[0]), Some(("a".to_string(), None)));
    let toks = tokenize_format("{a:b:c}");
    assert_eq!(field(&toks[0]), Some(("a".to_string(), Some("bc".to_string()))));
    let toks = tokenize_format("ecall {open");
    assert_eq!(toks.len(), 2);
    assert_eq!(field(&toks[1]), Some(("open".to_string(), None)));
}

#[test]
fn rebuild_gives_format_string() {
    let toks = tokenize_format("sw {rs2}, {imm}({rs1}) {imm:x}");
    assert_eq!(rebuild_format(&toks), b"sw {}, {}({}) {:x}".to_vec());
}

#[test]
fn register_field_names() {
    assert!(is_register_name("rd"));
    assert!(is_register_name("rs1"));
    assert!(is_register_name("rs2"));
    assert!(is_register_name("uimm"));
    assert!(!is_register_name("imm"));
    assert!(!is_register_name("r"));
    assert!(!is_register_name("rd2"));
}
