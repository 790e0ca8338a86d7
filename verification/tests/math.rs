use codex_gui::math::block_formula;

#[test]
fn recognizes_both_display_delimiters() {
    assert_eq!(block_formula("$$\nx^2\n$$"), Some("x^2".to_string()));
    assert_eq!(block_formula(r"\[\frac{1}{2}\]"), Some(r"\frac{1}{2}".to_string()));
}

#[test]
fn does_not_claim_inline_or_mixed_paragraphs() {
    assert!(block_formula(r"Euler: $e^{i\pi}+1=0$.").is_none());
    assert!(block_formula("before $$x^2$$ after").is_none());
    assert!(block_formula(r"energy: \(E=mc^2\).").is_none());
}

#[test]
fn incomplete_formula_remains_plain_markdown() {
    assert!(block_formula("$$\nx +").is_none());
    assert!(block_formula(r"\[x +").is_none());
}

#[test]
fn empty_formulas_are_not_formulas() {
    assert!(block_formula("$$ $$").is_none());
    assert!(block_formula("$$$").is_none());
    assert_eq!(block_formula("  $$a$$  "), Some("a".to_string()));
}
