use tailwind_to_css::arbitrary::{ArbitraryValue, CssUnit, LengthUnit, TailwindArbitrary};
use tailwind_to_css::background::TailwindBackgroundAttachment;
use tailwind_to_css::columns::Columns;
use tailwind_to_css::justify::TailwindJustifySelf;
use tailwind_to_css::TailwindBuilder;

fn empty_arb() -> TailwindArbitrary {
    TailwindArbitrary::new("")
}

#[test]
fn bg_fixed_alias_scenario() {
    let mut builder = TailwindBuilder::new("");
    let traced = builder.trace("bg-fixed");
    assert_eq!(traced, "bg-fixed");
    let inlined = builder.inline("bg-fixed");
    assert_eq!(inlined, "background-attachment: fixed;");
}

#[test]
fn bg_attach_avoid_page_scenario() {
    let mut builder = TailwindBuilder::new("");
    let traced = builder.trace("bg-attach-avoid-page");
    assert_eq!(traced, "bg-attach-avoid-page");
    let inlined = builder.inline("bg-attach-avoid-page");
    assert_eq!(inlined, "background-attachment: avoid-page;");
}

#[test]
fn justify_self_center_scenario() {
    let mut builder = TailwindBuilder::new("");
    let traced = builder.trace("justify-self-center");
    assert_eq!(traced, "justify-self-center");
    let inlined = builder.inline("justify-self-center");
    assert_eq!(inlined, "justify-self: center;");
}

#[test]
fn columns_named_scale_scenario() {
    let mut builder = TailwindBuilder::new("");
    let inlined = builder.inline("columns-3xs");
    assert_eq!(inlined, "columns: 16rem;");
    let traced = builder.trace("columns-3xs");
    assert_eq!(traced, "columns-[16rem]");
}

#[test]
fn columns_bracket_scenario() {
    let mut builder = TailwindBuilder::new("");
    let inlined = builder.inline("columns-[12px]");
    assert_eq!(inlined, "columns: 12px;");
    let traced = builder.trace("columns-[12px]");
    assert_eq!(traced, "columns-[12px]");
}

#[test]
fn bg_nonsense_scenario() {
    let mut builder = TailwindBuilder::new("");
    let err = builder.try_trace("bg-nonsense").unwrap_err();
    assert!(err.is_syntax());
    assert_eq!(err.family(), "background-attachment");
    assert_eq!(err.token(), "nonsense");
}

#[test]
fn bg_keyword_closure_samples() {
    let keywords = [
        "auto",
        "avoid",
        "avoid-page",
        "avoid-column",
        "avoid-region",
        "inherit",
        "initial",
        "revert",
        "unset",
    ];
    for kw in keywords {
        let mut builder = TailwindBuilder::new("");
        let token = format!("bg-attach-{}", kw);
        let traced = builder.try_trace(&token).unwrap();
        assert!(!traced.is_empty());
        let css = builder.try_inline(&token).unwrap();
        assert_eq!(css, format!("background-attachment: {};", kw));
    }
}

#[test]
fn bg_alias_keywords_use_the_short_form_only() {
    for kw in ["fixed", "local", "scroll"] {
        let mut builder = TailwindBuilder::new("");
        let token = format!("bg-{}", kw);
        assert_eq!(builder.try_trace(&token).unwrap(), token);
        assert_eq!(
            builder.try_inline(&token).unwrap(),
            format!("background-attachment: {};", kw)
        );
        // The long `bg-attach-` spelling is not in the keyword set.
        let err = builder.try_trace(&format!("bg-attach-{}", kw)).unwrap_err();
        assert!(err.is_syntax());
        assert_eq!(err.family(), "background-attachment");
        assert_eq!(err.token(), kw);
    }
}

#[test]
fn justify_keyword_closure_samples() {
    let keywords = [
        "auto",
        "baseline",
        "center",
        "end",
        "flex-end",
        "flex-start",
        "inherit",
        "initial",
        "left",
        "normal",
        "revert",
        "right",
        "self-end",
        "self-start",
        "start",
        "stretch",
        "unset",
    ];
    for kw in keywords {
        let mut builder = TailwindBuilder::new("");
        let token = format!("justify-self-{}", kw);
        let traced = builder.try_trace(&token).unwrap();
        assert_eq!(traced, format!("justify-self-{}", kw));
        let css = builder.try_inline(&token).unwrap();
        assert_eq!(css, format!("justify-self: {};", kw));
    }
}

#[test]
fn columns_scale_table() {
    let table = [
        ("3xs", 16),
        ("2xs", 18),
        ("xs", 20),
        ("sm", 24),
        ("md", 28),
        ("lg", 32),
        ("xl", 36),
        ("2xl", 42),
        ("3xl", 48),
        ("4xl", 56),
        ("5xl", 64),
        ("6xl", 72),
        ("7xl", 80),
    ];
    for (name, rem) in table {
        let mut builder = TailwindBuilder::new("");
        let css = builder.try_inline(&format!("columns-{}", name)).unwrap();
        assert_eq!(css, format!("columns: {}rem;", rem));
    }
}

#[test]
fn columns_bare_count_and_auto() {
    let mut builder = TailwindBuilder::new("");
    assert_eq!(builder.inline("columns-3"), "columns: 3;");
    assert_eq!(builder.trace("columns-3"), "columns-3");
    assert_eq!(builder.inline("columns-auto"), "columns: auto;");
    assert_eq!(builder.trace("columns-auto"), "columns-auto");
    assert_eq!(builder.inline("columns-255"), "columns: 255;");
}

#[test]
fn columns_count_overflow_is_rejected() {
    let mut builder = TailwindBuilder::new("");
    let err = builder.try_trace("columns-256").unwrap_err();
    assert!(err.is_syntax());
    assert_eq!(err.family(), "columns");
    assert_eq!(err.token(), "256");
}

#[test]
fn columns_percent_is_rejected() {
    let mut builder = TailwindBuilder::new("");
    let bare = builder.try_trace("columns-50%").unwrap_err();
    assert!(bare.is_syntax());
    assert_eq!(bare.family(), "columns");
    let bracket = builder.try_trace("columns-[50%]").unwrap_err();
    assert!(bracket.is_syntax());
    assert_eq!(bracket.token(), "50%");
}

#[test]
fn columns_unknown_bracket_value_is_arbitrary_error() {
    let mut builder = TailwindBuilder::new("");
    let err = builder.try_trace("columns-[12qq]").unwrap_err();
    assert!(!err.is_syntax());
    assert_eq!(err.family(), "columns");
    assert_eq!(err.token(), "12qq");
    assert_eq!(err.message(), "Unknown instruction in columns: 12qq");
}

#[test]
fn keyword_only_family_rejects_bracket() {
    let mut builder = TailwindBuilder::new("");
    let err = builder.try_trace("bg-attach-[fixed]").unwrap_err();
    assert!(!err.is_syntax());
    assert_eq!(err.family(), "background-attachment");
    assert_eq!(err.token(), "fixed");
}

#[test]
fn unknown_family_is_rejected() {
    let mut builder = TailwindBuilder::new("");
    let err = builder.try_trace("flibber-3").unwrap_err();
    assert!(err.is_syntax());
    assert_eq!(err.family(), "unknown");
    assert_eq!(err.token(), "flibber-3");
}

#[test]
fn direct_family_parse_calls() {
    let bg = TailwindBackgroundAttachment::parse(&["avoid", "page"], &empty_arb()).unwrap();
    assert_eq!(bg.display(), "bg-attach-avoid-page");
    assert_eq!(bg.css(), "background-attachment: avoid-page;");

    let not_in_set = TailwindBackgroundAttachment::parse(&["scroll"], &empty_arb());
    assert!(not_in_set.is_err());

    let js = TailwindJustifySelf::parse(&["self", "start"], &empty_arb()).unwrap();
    assert_eq!(js.display(), "justify-self-self-start");
    assert_eq!(js.css(), "justify-self: self-start;");

    assert!(TailwindBackgroundAttachment::parse(&["nonsense"], &empty_arb()).is_err());
    assert!(TailwindBackgroundAttachment::parse_arbitrary(&TailwindArbitrary::new("fixed"))
        .is_err());
    assert!(TailwindJustifySelf::parse_arbitrary(&TailwindArbitrary::new("center")).is_err());
}

#[test]
fn direct_columns_parse_calls() {
    let scale = Columns::parse(&["sm"], &empty_arb()).unwrap();
    assert_eq!(scale.display(), "[24rem]");
    assert_eq!(scale.css_value(), "24rem");

    let count = Columns::parse(&["7"], &empty_arb()).unwrap();
    assert_eq!(count.display(), "7");

    let bracket = Columns::parse(&[], &TailwindArbitrary::new("12px")).unwrap();
    assert_eq!(bracket.display(), "[12px]");
    assert_eq!(bracket.css_value(), "12px");

    let auto = Columns::parse(&["auto"], &empty_arb()).unwrap();
    assert_eq!(auto.css_value(), "auto");

    let err = Columns::parse(&["a", "b"], &empty_arb()).unwrap_err();
    assert!(err.is_syntax());
    assert_eq!(err.token(), "a-b");
}

#[test]
fn arbitrary_value_engine_order() {
    let int = TailwindArbitrary::new("12").as_value(true).unwrap();
    assert!(matches!(int, ArbitraryValue::Integer(12)));

    let len = TailwindArbitrary::new("12px").as_value(true).unwrap();
    match len {
        ArbitraryValue::Length(l) => {
            assert_eq!(l, LengthUnit { value: 12, unit: CssUnit::Px });
        }
        other => panic!("expected a length, got {:?}", other),
    }

    let pct = TailwindArbitrary::new("50%").as_value(true).unwrap();
    assert!(matches!(pct, ArbitraryValue::Percentage(50)));

    let color = TailwindArbitrary::new("#aabbcc").as_value(false).unwrap();
    match color {
        ArbitraryValue::Color(c) => assert_eq!(c, "#aabbcc"),
        other => panic!("expected a color, got {:?}", other),
    }

    let raw = TailwindArbitrary::new("serif").as_value(true).unwrap();
    match raw {
        ArbitraryValue::Raw(r) => assert_eq!(r, "serif"),
        other => panic!("expected a raw value, got {:?}", other),
    }

    let refused = TailwindArbitrary::new("serif").as_value(false);
    assert!(refused.is_err());
}

#[test]
fn arbitrary_length_and_integer_parsers() {
    let l = TailwindArbitrary::new("240rem").as_length().unwrap();
    assert_eq!(l, LengthUnit { value: 240, unit: CssUnit::Rem });
    assert!(TailwindArbitrary::new("12qq").as_length().is_err());
    assert!(TailwindArbitrary::new("px").as_length().is_err());
    assert!(TailwindArbitrary::new("").as_length().is_err());

    assert_eq!(TailwindArbitrary::new("900").as_integer().unwrap(), 900);
    assert!(TailwindArbitrary::new("12px").as_integer().is_err());
    assert!(TailwindArbitrary::new("99999999999999999999").as_integer().is_err());
}
