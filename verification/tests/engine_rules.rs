use tailwindify::engine::{rewrite_content, transform_content};
use tailwindify::rules::{get_transform_reg_vec, RuleKind, RunConfig, TransformReg};

fn chars(s: &str) -> Vec<char> {
    s.chars().collect()
}

fn string(v: &[char]) -> String {
    v.iter().collect()
}

fn rules_with(prefix: &str, suffix: &str) -> Vec<TransformReg> {
    let cfg = RunConfig { warn_prefix: chars(prefix), warn_suffix: chars(suffix) };
    get_transform_reg_vec(&cfg).unwrap()
}

/// Runs the whole engine and returns the output text and the changed flag.
fn run(input: &str, prefix: &str, suffix: &str) -> (String, bool) {
    let rules = rules_with(prefix, suffix);
    let (out, changed) = rewrite_content(&rules, &chars(input));
    (string(&out), changed)
}

#[test]
fn rule_table_has_the_eight_rules_in_order() {
    let rules = rules_with("<<", ">>");
    assert_eq!(rules.len(), 8);
    assert!(matches!(rules[0].kind, RuleKind::Spacing));
    assert!(matches!(rules[1].kind, RuleKind::FontSize));
    assert!(matches!(rules[2].kind, RuleKind::FontWeight));
    assert!(matches!(rules[3].kind, RuleKind::LineHeight));
    assert!(matches!(rules[4].kind, RuleKind::BorderRadius));
    assert!(matches!(rules[5].kind, RuleKind::Opacity));
    assert!(matches!(rules[6].kind, RuleKind::TextColor));
    assert!(matches!(rules[7].kind, RuleKind::GridTemplateColumns));
    for r in &rules {
        assert_eq!(r.warn_prefix, chars("<<"));
        assert_eq!(r.warn_suffix, chars(">>"));
    }
}

#[test]
fn content_without_any_pattern_is_unchanged_and_no_write_is_owed() {
    let rules = rules_with("<<", ">>");
    let input = chars("no tokens here, just prose and <div>!");
    let (out, changed) = rewrite_content(&rules, &input);
    assert_eq!(out, input);
    assert!(!changed);
    assert!(transform_content(&rules, &input).is_none());
}

#[test]
fn spacing_token_gets_a_dash() {
    assert_eq!(run("mt4", "<<", ">>"), ("mt-4".to_string(), true));
}

#[test]
fn spacing_token_with_responsive_suffix_is_wrapped() {
    assert_eq!(run("mt4r", "<<", ">>"), ("<<mt-4r>>".to_string(), true));
}

#[test]
fn spacing_covers_margin_and_padding_in_every_direction() {
    assert_eq!(run("pb12", "<<", ">>").0, "pb-12");
    assert_eq!(run("mr4r", "<<", ">>").0, "<<mr-4r>>");
    assert_eq!(run("pl007", "<<", ">>").0, "pl-007");
}

#[test]
fn font_size_token_becomes_text() {
    assert_eq!(run("fs14", "<<", ">>"), ("text-14".to_string(), true));
}

#[test]
fn font_size_with_responsive_unit_is_wrapped() {
    assert_eq!(run("fs14r", "<<", ">>"), ("<<text-14r>>".to_string(), true));
}

#[test]
fn font_size_accepts_a_dash_before_the_digits() {
    assert_eq!(run("fs-14", "<<", ">>").0, "text-14");
}

#[test]
fn font_weight_is_rewritten_and_never_wrapped() {
    assert_eq!(run("font-weight-700", "<<", ">>"), ("font-700".to_string(), true));
}

#[test]
fn line_height_with_percent_unit() {
    assert_eq!(run("lh20p", "<<", ">>"), ("leading-20%".to_string(), true));
}

#[test]
fn line_height_long_form_and_dashes() {
    assert_eq!(run("line-height-20p", "<<", ">>").0, "leading-20%");
    assert_eq!(run("line-height20", "<<", ">>").0, "leading-20");
    assert_eq!(run("lh-20", "<<", ">>").0, "leading-20");
}

#[test]
fn line_height_with_responsive_unit_is_wrapped() {
    assert_eq!(run("lh20r", "<<", ">>").0, "<<leading-20r>>");
}

#[test]
fn border_radius_with_percent_unit() {
    assert_eq!(run("br8p", "<<", ">>"), ("rounded-8%".to_string(), true));
}

#[test]
fn border_radius_long_form_and_responsive() {
    assert_eq!(run("border-radius-8", "<<", ">>").0, "rounded-8");
    assert_eq!(run("border-radius--8", "<<", ">>").0, "rounded-8");
    assert_eq!(run("br-8r", "<<", ">>").0, "<<rounded-8r>>");
}

#[test]
fn opacity_is_always_wrapped() {
    assert_eq!(run("opacity-50", "<<", ">>"), ("<<opacity-50>>".to_string(), true));
}

#[test]
fn opacity_suffix_letter_is_left_outside_the_markers() {
    assert_eq!(run("opacity-50r", "<<", ">>").0, "<<opacity-50>>r");
}

#[test]
fn color_token_with_six_hex_digits() {
    assert_eq!(run("c1a2b3c", "<<", ">>"), ("text-#1a2b3c".to_string(), true));
}

#[test]
fn color_token_variants() {
    assert_eq!(run("c-abc", "<<", ">>").0, "text-#abc");
    assert_eq!(run("cABCDEF", "<<", ">>").0, "text-#ABCDEF");
    // only three of the four digits form a color: the fourth is left as it is
    assert_eq!(run("c1234", "<<", ">>").0, "text-#1234");
}

#[test]
fn grid_template_columns_is_always_wrapped() {
    assert_eq!(
        run("grid-template-columns-3", "<<", ">>").0,
        "<<grid-template-columns-3>>"
    );
}

#[test]
fn several_tokens_in_one_document() {
    assert_eq!(
        run("a mt4 b pt8r z", "<<", ">>").0,
        "a mt-4 b <<pt-8r>> z"
    );
}

#[test]
fn tokens_inside_string_literals_are_rewritten_too() {
    assert_eq!(
        run("let s = \"fs14\"; // fs14", "<<", ">>").0,
        "let s = \"text-14\"; // text-14"
    );
}

#[test]
fn rewriting_is_not_idempotent_for_wrapped_output() {
    // A wrapped token re-entering the engine is wrapped again: the marker
    // text is plain text to every pass.
    let (once, _) = run("opacity-50", "<<", ">>");
    assert_eq!(once, "<<opacity-50>>");
    let (twice, changed) = run(&once, "<<", ">>");
    assert_eq!(twice, "<<<<opacity-50>>>>");
    assert!(changed);
}

#[test]
fn markers_are_plain_text_to_later_passes() {
    // A marker that itself looks like a token is re-matched by a later
    // rule's pass over the cumulative content.
    assert_eq!(run("mt4r", "fs9", "").0, "text-9mt-4r");
}

#[test]
fn empty_markers_still_set_the_changed_flag() {
    let rules = rules_with("", "");
    let input = chars("opacity-50");
    let (out, changed) = rewrite_content(&rules, &input);
    assert_eq!(out, input);
    assert!(changed);
    // a write is owed even though the content is byte-identical
    let planned = transform_content(&rules, &input);
    assert_eq!(planned.unwrap(), input);
}

#[test]
fn default_style_markers_pass_through() {
    let (out, _) = run("mt4r", "__需要手动处理>", "<需要手动处理__");
    assert_eq!(out, "__需要手动处理>mt-4r<需要手动处理__");
}

#[test]
fn digits_run_is_taken_whole() {
    assert_eq!(run("mt400r", "<<", ">>").0, "<<mt-400r>>");
    assert_eq!(run("fs120", "<<", ">>").0, "text-120");
}

#[test]
fn near_misses_are_left_alone() {
    assert_eq!(run("mt", "<<", ">>").1, false);
    assert_eq!(run("mtr", "<<", ">>").1, false);
    assert_eq!(run("fs-", "<<", ">>").1, false);
    assert_eq!(run("lhx20", "<<", ">>").1, false);
    assert_eq!(run("c-12", "<<", ">>").1, false);
    assert_eq!(run("font-weight-", "<<", ">>").1, false);
}
