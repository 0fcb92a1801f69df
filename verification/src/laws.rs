use vstd::prelude::*;
use crate::arbitrary::{length_of, u8_of, unit_text, CssUnit, LengthUnit};
use crate::background::{bg_attachment_keyword, bg_attachment_parse};
use crate::builder::{
    bundle_text, contains_id, inline_result, insert_one, lemma_sorted_insert_contains, rules_of,
    store_sorted, trace_result,
};
use crate::columns::{columns_parse, columns_scale, ColumnsView};
use crate::error::ErrView;
use crate::instance::{instance_attrs, instance_id, resolve_spec, InstanceView};
use crate::justify::{justify_self_keyword, justify_self_parse};
use crate::text::{
    all_digits, digit_prefix_len, digits_val, is_digit, join_char, lemma_digit_prefix_len_from,
    lemma_str_lt_irrefl, lemma_str_lt_trans, str_lt,
};

verus! {

/// Determinism: resolution is a pure function of the token text. Two
/// resolutions of equal tokenized styles agree exactly, and two whole trace
/// or inline readings of equal class lists agree exactly.
pub proof fn lemma_resolution_deterministic(
    e1: Seq<Seq<char>>,
    a1: Seq<char>,
    e2: Seq<Seq<char>>,
    a2: Seq<char>,
    s1: Seq<char>,
    s2: Seq<char>,
)
    requires
        e1 == e2,
        a1 == a2,
        s1 == s2,
    ensures
        resolve_spec(e1, a1) == resolve_spec(e2, a2),
        trace_result(s1) == trace_result(s2),
        inline_result(s1) == inline_result(s2),
{
}

/// Idempotent insertion: inserting an instruction whose identity the store
/// already holds changes nothing, so a second insertion of the same
/// instruction leaves both the store and the rendered bundle as they were.
pub proof fn lemma_insert_idempotent(
    store: Seq<InstanceView>,
    item: InstanceView,
    preflight: Seq<char>,
)
    ensures
        insert_one(insert_one(store, item), item) == insert_one(store, item),
        bundle_text(preflight, insert_one(insert_one(store, item), item)) == bundle_text(
            preflight,
            insert_one(store, item),
        ),
{
    if !contains_id(store, instance_id(item)) {
        lemma_sorted_insert_contains(store, item, item);
        let s2 = crate::builder::sorted_insert(store, item);
        let j = choose|j: int| 0 <= j < s2.len() && s2[j] == item;
        assert(instance_id(s2[j]) == instance_id(item));
        assert(contains_id(s2, instance_id(item)));
    }
}

/// Order invariant: whatever the store holds, and in whatever order it was
/// filled, the bundle begins with the preflight text, and what follows is
/// exactly the utility rules.
pub proof fn lemma_bundle_preflight_first(preflight: Seq<char>, store: Seq<InstanceView>)
    ensures
        bundle_text(preflight, store).take(preflight.len() as int) == preflight,
        bundle_text(preflight, store).skip(preflight.len() as int) == rules_of(store),
{
    assert(bundle_text(preflight, store).take(preflight.len() as int) =~= preflight);
    assert(bundle_text(preflight, store).skip(preflight.len() as int) =~= rules_of(store));
}

/// A well-formed store is canonical: two stores that hold the same
/// instructions, in whatever order they were filled, are the same sequence.
pub proof fn lemma_sorted_store_canonical(s1: Seq<InstanceView>, s2: Seq<InstanceView>)
    requires
        store_sorted(s1),
        store_sorted(s2),
        forall|x: InstanceView| s1.contains(x) <==> s2.contains(x),
    ensures
        s1 == s2,
    decreases s1.len(),
{
    if s1.len() == 0 {
        if s2.len() > 0 {
            assert(s2.contains(s2[0]));
            assert(s1.contains(s2[0]));
            let i = choose|i: int| 0 <= i < s1.len() && s1[i] == s2[0];
            assert(false);
        }
        assert(s1 =~= s2);
    } else {
        assert(s1.contains(s1[0]));
        assert(s2.contains(s1[0]));
        let j = choose|j: int| 0 <= j < s2.len() && s2[j] == s1[0];
        assert(s2.contains(s2[0]));
        assert(s1.contains(s2[0]));
        let k = choose|k: int| 0 <= k < s1.len() && s1[k] == s2[0];
        if j > 0 {
            assert(str_lt(instance_id(s2[0]), instance_id(s2[j])));
            if k == 0 {
                lemma_str_lt_irrefl(instance_id(s1[0]));
                assert(false);
            } else {
                assert(str_lt(instance_id(s1[0]), instance_id(s1[k])));
                lemma_str_lt_trans(
                    instance_id(s2[0]),
                    instance_id(s1[0]),
                    instance_id(s2[0]),
                );
                lemma_str_lt_irrefl(instance_id(s2[0]));
                assert(false);
            }
        }
        assert(s2[0] == s1[0]);
        let t1 = s1.drop_first();
        let t2 = s2.drop_first();
        assert forall|a: int, b: int| 0 <= a < b < t1.len() implies str_lt(
            instance_id(#[trigger] t1[a]),
            instance_id(#[trigger] t1[b]),
        ) by {
            assert(t1[a] == s1[a + 1]);
            assert(t1[b] == s1[b + 1]);
        }
        assert forall|a: int, b: int| 0 <= a < b < t2.len() implies str_lt(
            instance_id(#[trigger] t2[a]),
            instance_id(#[trigger] t2[b]),
        ) by {
            assert(t2[a] == s2[a + 1]);
            assert(t2[b] == s2[b + 1]);
        }
        assert forall|x: InstanceView| t1.contains(x) implies t2.contains(x) by {
            let i = choose|i: int| 0 <= i < t1.len() && t1[i] == x;
            assert(s1[i + 1] == x);
            assert(s1.contains(x));
            assert(s2.contains(x));
            let m = choose|m: int| 0 <= m < s2.len() && s2[m] == x;
            if m == 0 {
                assert(str_lt(instance_id(s1[0]), instance_id(s1[i + 1])));
                lemma_str_lt_irrefl(instance_id(s1[0]));
                assert(false);
            }
            assert(t2[m - 1] == x);
        }
        assert forall|x: InstanceView| t2.contains(x) implies t1.contains(x) by {
            let i = choose|i: int| 0 <= i < t2.len() && t2[i] == x;
            assert(s2[i + 1] == x);
            assert(s2.contains(x));
            assert(s1.contains(x));
            let m = choose|m: int| 0 <= m < s1.len() && s1[m] == x;
            if m == 0 {
                assert(str_lt(instance_id(s2[0]), instance_id(s2[i + 1])));
                lemma_str_lt_irrefl(instance_id(s2[0]));
                assert(false);
            }
            assert(t1[m - 1] == x);
        }
        lemma_sorted_store_canonical(t1, t2);
        assert forall|q: int| 0 <= q < s1.len() implies s1[q] == s2[q] by {
            if q > 0 {
                assert(s1[q] == t1[q - 1]);
                assert(s2[q] == t2[q - 1]);
            }
        }
        assert(s1 =~= s2);
    }
}

/// Order invariance: the bundle is a function of the store's contents (and
/// the preflight text), not of the order in which the instructions were
/// inserted — two well-formed sessions holding the same instructions render
/// the same stylesheet.
pub proof fn lemma_bundle_insertion_order_invariant(
    preflight: Seq<char>,
    s1: Seq<InstanceView>,
    s2: Seq<InstanceView>,
)
    requires
        store_sorted(s1),
        store_sorted(s2),
        forall|x: InstanceView| s1.contains(x) <==> s2.contains(x),
    ensures
        bundle_text(preflight, s1) == bundle_text(preflight, s2),
{
    lemma_sorted_store_canonical(s1, s2);
}

/// Keyword closure for `background-attachment`: segments that join to a
/// keyword of the set resolve successfully, and the resolved instruction
/// renders a nonempty class name and exactly one nonempty CSS declaration.
pub proof fn lemma_bg_attachment_keyword_closure(segs: Seq<Seq<char>>, arb: Seq<char>)
    requires
        segs.len() > 0,
        bg_attachment_keyword(join_char(segs, '-')),
    ensures
        bg_attachment_parse(segs, arb) matches Ok(kw) && instance_id(
            InstanceView::BackgroundAttachment(kw),
        ).len() > 0 && instance_attrs(InstanceView::BackgroundAttachment(kw)).len() == 1
            && instance_attrs(InstanceView::BackgroundAttachment(kw))[0].len() > 0,
{
    reveal_strlit("bg-");
    reveal_strlit("bg-attach-");
    reveal_strlit("background-attachment: ");
    reveal_strlit(";");
}

/// Keyword closure for `justify-self`: segments that join to a keyword of
/// the set resolve successfully, and the resolved instruction renders a
/// nonempty class name and exactly one nonempty CSS declaration.
pub proof fn lemma_justify_self_keyword_closure(segs: Seq<Seq<char>>, arb: Seq<char>)
    requires
        segs.len() > 0,
        justify_self_keyword(join_char(segs, '-')),
    ensures
        justify_self_parse(segs, arb) matches Ok(kw) && instance_id(
            InstanceView::JustifySelf(kw),
        ).len() > 0 && instance_attrs(InstanceView::JustifySelf(kw)).len() == 1 && instance_attrs(
            InstanceView::JustifySelf(kw),
        )[0].len() > 0,
{
    reveal_strlit("justify-self-");
    reveal_strlit("justify-self: ");
    reveal_strlit(";");
}

proof fn reveal_units()
    ensures
        forall|u: CssUnit| (#[trigger] unit_text(u)).len() > 0 && !is_digit(unit_text(u)[0]),
{
    reveal_strlit("px");
    reveal_strlit("em");
    reveal_strlit("rem");
    reveal_strlit("%");
    reveal_strlit("vh");
    reveal_strlit("vw");
    reveal_strlit("pt");
    reveal_strlit("cm");
    reveal_strlit("mm");
    reveal_strlit("in");
    assert forall|u: CssUnit| (#[trigger] unit_text(u)).len() > 0 && !is_digit(unit_text(u)[0]) by {
        match u {
            CssUnit::Px => assert(unit_text(u)[0] == 'p'),
            CssUnit::Em => assert(unit_text(u)[0] == 'e'),
            CssUnit::Rem => assert(unit_text(u)[0] == 'r'),
            CssUnit::Percent => assert(unit_text(u)[0] == '%'),
            CssUnit::Vh => assert(unit_text(u)[0] == 'v'),
            CssUnit::Vw => assert(unit_text(u)[0] == 'v'),
            CssUnit::Pt => assert(unit_text(u)[0] == 'p'),
            CssUnit::Cm => assert(unit_text(u)[0] == 'c'),
            CssUnit::Mm => assert(unit_text(u)[0] == 'm'),
            CssUnit::In => assert(unit_text(u)[0] == 'i'),
        }
    }
}

/// Every recognized unit spelling reads back as that unit.
pub proof fn lemma_unit_roundtrip(u: CssUnit)
    ensures
        crate::arbitrary::unit_of(unit_text(u)) == Some(u),
{
    reveal_strlit("px");
    reveal_strlit("em");
    reveal_strlit("rem");
    reveal_strlit("%");
    reveal_strlit("vh");
    reveal_strlit("vw");
    reveal_strlit("pt");
    reveal_strlit("cm");
    reveal_strlit("mm");
    reveal_strlit("in");
    assert("px"@ =~= seq!['p', 'x']);
    assert("em"@ =~= seq!['e', 'm']);
    assert("rem"@ =~= seq!['r', 'e', 'm']);
    assert("%"@ =~= seq!['%']);
    assert("vh"@ =~= seq!['v', 'h']);
    assert("vw"@ =~= seq!['v', 'w']);
    assert("pt"@ =~= seq!['p', 't']);
    assert("cm"@ =~= seq!['c', 'm']);
    assert("mm"@ =~= seq!['m', 'm']);
    assert("in"@ =~= seq!['i', 'n']);
}

/// Arbitrary fallback, accepting half: a fragment of digits followed by a
/// recognized unit denotes the length with exactly that magnitude and that
/// unit, whenever the magnitude fits.
pub proof fn lemma_length_fallback(digits: Seq<char>, u: CssUnit)
    requires
        digits.len() > 0,
        all_digits(digits),
        digits_val(digits) <= u32::MAX,
    ensures
        length_of(digits + unit_text(u)) == Some(
            LengthUnit { value: digits_val(digits) as u32, unit: u },
        ),
{
    reveal_units();
    let s = digits + unit_text(u);
    assert forall|j: int| 0 <= j < digits.len() implies is_digit(#[trigger] s[j]) by {
        assert(s[j] == digits[j]);
    }
    assert(s[digits.len() as int] == unit_text(u)[0]);
    lemma_digit_prefix_len_from(s, digits.len() as int);
    assert(s.take(digits.len() as int) =~= digits);
    assert(s.skip(digits.len() as int) =~= unit_text(u));
    lemma_unit_roundtrip(u);
}

/// Arbitrary fallback, rejecting half: the columns scale is unit-based and
/// never percent-based, so a bracketed fragment holding a percent sign is
/// rejected with a SyntaxError, and a bracketed fragment that is neither a
/// column count nor a recognized length fails.
pub proof fn lemma_columns_bracket_rejections(frag: Seq<char>)
    ensures
        frag.contains('%') ==> (columns_parse(Seq::empty(), frag) matches Err(e) && e is Syntax),
        (!frag.contains('%') && u8_of(frag) is None && length_of(frag) is None) ==> (columns_parse(
            Seq::empty(),
            frag,
        ) matches Err(e) && e is Arbitrary),
{
}

/// The named scale of columns: every scale name resolves to its tabulated
/// rem length.
pub proof fn lemma_columns_named_scale(name: Seq<char>)
    requires
        columns_scale(name) is Some,
    ensures
        columns_parse(seq![name], Seq::empty()) == Ok::<ColumnsView, ErrView>(
            ColumnsView::Length(
                LengthUnit { value: columns_scale(name).unwrap(), unit: CssUnit::Rem },
            ),
        ),
{
    reveal_strlit("auto");
    reveal_strlit("3xs");
    reveal_strlit("2xs");
    reveal_strlit("xs");
    reveal_strlit("sm");
    reveal_strlit("md");
    reveal_strlit("lg");
    reveal_strlit("xl");
    reveal_strlit("2xl");
    reveal_strlit("3xl");
    reveal_strlit("4xl");
    reveal_strlit("5xl");
    reveal_strlit("6xl");
    reveal_strlit("7xl");
}

} // verus!
