use tailwind_to_css::object::TailwindObject;
use tailwind_to_css::TailwindBuilder;

#[test]
fn trace_joins_ids_in_resolution_order() {
    let mut builder = TailwindBuilder::new("");
    let traced = builder.trace("bg-fixed justify-self-center columns-3");
    assert_eq!(traced, "bg-fixed justify-self-center columns-3");
}

#[test]
fn bundle_renders_rules_in_id_order() {
    let mut builder = TailwindBuilder::new("");
    builder.trace("justify-self-center");
    builder.trace("bg-fixed");
    let css = builder.bundle();
    assert_eq!(
        css,
        ".bg-fixed{background-attachment: fixed;}\n.justify-self-center{justify-self: center;}\n"
    );
}

#[test]
fn bundle_is_insertion_order_invariant() {
    let mut one = TailwindBuilder::new("reset{}");
    let mut two = TailwindBuilder::new("reset{}");
    one.trace("bg-fixed");
    one.trace("columns-3");
    one.trace("justify-self-center");
    two.trace("justify-self-center");
    two.trace("columns-3");
    two.trace("bg-fixed");
    assert_eq!(one.bundle(), two.bundle());
}

#[test]
fn bundle_emits_preflight_before_utilities() {
    let mut builder = TailwindBuilder::new("*{margin:0;}\n");
    builder.trace("bg-fixed");
    let css = builder.bundle();
    assert!(css.starts_with("*{margin:0;}\n"));
    assert_eq!(css, "*{margin:0;}\n.bg-fixed{background-attachment: fixed;}\n");
}

#[test]
fn bundle_is_idempotent_and_incremental() {
    let mut builder = TailwindBuilder::new("");
    builder.trace("bg-fixed");
    let first = builder.bundle();
    let second = builder.bundle();
    assert_eq!(first, second);
    builder.trace("columns-3");
    let third = builder.bundle();
    assert_eq!(third, ".bg-fixed{background-attachment: fixed;}\n.columns-3{columns: 3;}\n");
}

#[test]
fn duplicate_insertion_keeps_one_rule() {
    let mut builder = TailwindBuilder::new("");
    builder.trace("bg-fixed");
    let once = builder.bundle();
    builder.trace("bg-fixed");
    let twice = builder.bundle();
    assert_eq!(once, twice);
    assert_eq!(twice.matches("bg-fixed").count(), 1);
}

#[test]
fn duplicate_token_in_one_trace_is_echoed_but_stored_once() {
    let mut builder = TailwindBuilder::new("");
    let traced = builder.trace("bg-fixed bg-fixed");
    assert_eq!(traced, "bg-fixed bg-fixed");
    let css = builder.bundle();
    assert_eq!(css, ".bg-fixed{background-attachment: fixed;}\n");
}

#[test]
fn resolution_is_deterministic_across_sessions() {
    let mut one = TailwindBuilder::new("");
    let mut two = TailwindBuilder::new("");
    let input = "bg-attach-avoid-column columns-[42em] justify-self-stretch";
    assert_eq!(one.trace(input), two.trace(input));
    assert_eq!(one.inline(input), two.inline(input));
    assert_eq!(one.bundle(), two.bundle());
}

#[test]
fn failed_trace_leaves_store_unchanged() {
    let mut builder = TailwindBuilder::new("");
    builder.trace("bg-fixed");
    let before = builder.bundle();
    assert!(builder.try_trace("bg-fixed bg-nonsense").is_err());
    let after = builder.bundle();
    assert_eq!(before, after);
}

#[test]
fn inline_does_not_touch_the_store() {
    let mut builder = TailwindBuilder::new("pre");
    let css = builder.inline("bg-fixed columns-2");
    assert_eq!(css, "background-attachment: fixed;columns: 2;");
    assert_eq!(builder.bundle(), "pre");
}

#[test]
fn inline_deduplicates_declaration_lines() {
    let mut builder = TailwindBuilder::new("");
    let css = builder.inline("bg-fixed bg-fixed");
    assert_eq!(css, "background-attachment: fixed;");
}

#[test]
fn inline_orders_declaration_lines_ascending() {
    let mut builder = TailwindBuilder::new("");
    let css = builder.inline("columns-2 bg-fixed");
    assert_eq!(css, "background-attachment: fixed;columns: 2;");
    let mut other = TailwindBuilder::new("");
    assert_eq!(other.inline("bg-fixed columns-2"), css);
}

#[test]
fn bracket_selector_is_escaped() {
    let mut builder = TailwindBuilder::new("");
    builder.trace("columns-[12px]");
    let css = builder.bundle();
    assert_eq!(css, ".columns-\\[12px\\]{columns: 12px;}\n");
}

#[test]
fn try_bundle_matches_bundle() {
    let mut builder = TailwindBuilder::new("reset");
    builder.trace("columns-xl");
    assert_eq!(builder.try_bundle(16).unwrap(), builder.bundle());
}

#[test]
fn builder_session_flags_and_stubs() {
    let builder = TailwindBuilder::new("");
    assert!(!builder.obfuscate);
    builder.scope("bg-fixed");
    TailwindBuilder::try_scope();
    TailwindBuilder::dataset();
}

#[test]
fn empty_class_list_is_rejected() {
    let mut builder = TailwindBuilder::new("");
    let err = builder.try_trace("").unwrap_err();
    assert!(err.is_syntax());
}

#[test]
fn object_renders_id_and_trimmed_lines() {
    let obj = TailwindObject::new("flex", " display: flex;\n gap: 1rem; ");
    assert_eq!(obj.id(), "flex");
    assert_eq!(obj.attributes(), vec!["display: flex;".to_string(), "gap: 1rem;".to_string()]);
}

#[test]
fn object_parser_matches_prefix() {
    let (rest, obj) = TailwindObject::parser("flex", "display: flex;", "flex grow").unwrap();
    assert_eq!(rest, " grow");
    assert_eq!(obj.id(), "flex");
    assert_eq!(obj.attributes(), vec!["display: flex;".to_string()]);

    let err = TailwindObject::parser("flex", "display: flex;", "grid").unwrap_err();
    assert!(err.is_syntax());
    assert_eq!(err.family(), "flex");
    assert_eq!(err.token(), "grid");
}
