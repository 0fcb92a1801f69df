use vstd::prelude::*;
use crate::arbitrary::TailwindArbitrary;
use crate::error::{ErrView, TailwindError};
use crate::text::{join_char, join_strs, str_eq, views_of};

verus! {

/// The `justify-self` utility family: a keyword-only family.
#[derive(Clone, Debug)]
pub struct TailwindJustifySelf {
    kind: String,
}

impl View for TailwindJustifySelf {
    type V = Seq<char>;

    closed spec fn view(&self) -> Seq<char> {
        self.kind@
    }
}

/// The accepted keyword spellings of `justify-self`, with the CSS-global
/// keywords.
pub open spec fn justify_self_keyword(s: Seq<char>) -> bool {
    ||| s == "auto"@
    ||| s == "baseline"@
    ||| s == "center"@
    ||| s == "end"@
    ||| s == "flex-end"@
    ||| s == "flex-start"@
    ||| s == "inherit"@
    ||| s == "initial"@
    ||| s == "left"@
    ||| s == "normal"@
    ||| s == "revert"@
    ||| s == "right"@
    ||| s == "self-end"@
    ||| s == "self-start"@
    ||| s == "start"@
    ||| s == "stretch"@
    ||| s == "unset"@
}

/// The canonical class name of the instruction.
pub open spec fn justify_self_class(kind: Seq<char>) -> Seq<char> {
    "justify-self-"@ + kind
}

/// The CSS declaration of the instruction.
pub open spec fn justify_self_css(kind: Seq<char>) -> Seq<char> {
    "justify-self: "@ + kind + ";"@
}

/// What parsing the stripped segments yields: the joined keyword when it is
/// in the keyword set, and otherwise the error the resolver reports.
pub open spec fn justify_self_parse(segs: Seq<Seq<char>>, arb: Seq<char>) -> Result<
    Seq<char>,
    ErrView,
> {
    if segs.len() == 0 {
        Err(ErrView::Arbitrary { family: "justify-self"@, token: arb })
    } else {
        let kw = join_char(segs, '-');
        if justify_self_keyword(kw) {
            Ok(kw)
        } else {
            Err(ErrView::Syntax { family: "justify-self"@, token: kw })
        }
    }
}

fn check_valid(mode: &str) -> (r: bool)
    ensures
        r == justify_self_keyword(mode@),
{
    str_eq(mode, "auto") || str_eq(mode, "baseline") || str_eq(mode, "center") || str_eq(
        mode,
        "end",
    ) || str_eq(mode, "flex-end") || str_eq(mode, "flex-start") || str_eq(mode, "inherit")
        || str_eq(mode, "initial") || str_eq(mode, "left") || str_eq(mode, "normal") || str_eq(
        mode,
        "revert",
    ) || str_eq(mode, "right") || str_eq(mode, "self-end") || str_eq(mode, "self-start") || str_eq(
        mode,
        "start",
    ) || str_eq(mode, "stretch") || str_eq(mode, "unset")
}

impl TailwindJustifySelf {
    /// Resolves the segments left after the family prefix was stripped.
    pub fn parse(pattern: &[&str], arbitrary: &TailwindArbitrary) -> (r: Result<
        TailwindJustifySelf,
        TailwindError,
    >)
        ensures
            (r matches Ok(b) ==> Ok::<Seq<char>, ErrView>(b@) == justify_self_parse(
                views_of(pattern@),
                arbitrary@,
            )),
            (r matches Err(e) ==> Err::<Seq<char>, ErrView>(e@) == justify_self_parse(
                views_of(pattern@),
                arbitrary@,
            )),
    {
        if pattern.len() == 0 {
            return Err(TailwindError::arbitrary("justify-self", arbitrary.as_str()));
        }
        let kw = join_strs(pattern, '-');
        if check_valid(kw.as_str()) {
            Ok(TailwindJustifySelf { kind: kw })
        } else {
            Err(TailwindError::syntax("justify-self", kw.as_str()))
        }
    }

    /// Resolves the bracketed form; a keyword-only family accepts no
    /// arbitrary value, so this always reports the failure.
    pub fn parse_arbitrary(arbitrary: &TailwindArbitrary) -> (r: Result<
        TailwindJustifySelf,
        TailwindError,
    >)
        ensures
            r matches Err(e) && e@ == (ErrView::Arbitrary {
                family: "justify-self"@,
                token: arbitrary@,
            }),
    {
        Err(TailwindError::arbitrary("justify-self", arbitrary.as_str()))
    }

    /// The canonical class name.
    pub fn display(&self) -> (r: String)
        ensures
            r@ == justify_self_class(self@),
    {
        let mut r = String::from_str("justify-self-");
        r.append(self.kind.as_str());
        r
    }

    /// The CSS declaration.
    pub fn css(&self) -> (r: String)
        ensures
            r@ == justify_self_css(self@),
    {
        let mut r = String::from_str("justify-self: ");
        r.append(self.kind.as_str());
        r.append(";");
        r
    }
}

} // verus!
