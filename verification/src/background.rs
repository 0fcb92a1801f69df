use vstd::prelude::*;
use crate::arbitrary::TailwindArbitrary;
use crate::error::{ErrView, TailwindError};
use crate::text::{join_char, join_strs, str_eq, views_of};

verus! {

/// The `background-attachment` utility family: a keyword-only family.
#[derive(Clone, Debug)]
pub struct TailwindBackgroundAttachment {
    kind: String,
}

impl View for TailwindBackgroundAttachment {
    type V = Seq<char>;

    closed spec fn view(&self) -> Seq<char> {
        self.kind@
    }
}

/// The accepted keyword spellings of `background-attachment`, with the
/// CSS-global keywords. The aliased `fixed`, `local` and `scroll` are not in
/// this set: the dispatcher accepts them only in their short `bg-` form.
pub open spec fn bg_attachment_keyword(s: Seq<char>) -> bool {
    ||| s == "auto"@
    ||| s == "avoid"@
    ||| s == "avoid-page"@
    ||| s == "avoid-column"@
    ||| s == "avoid-region"@
    ||| s == "inherit"@
    ||| s == "initial"@
    ||| s == "revert"@
    ||| s == "unset"@
}

/// The keywords whose class name is the short `bg-` form.
pub open spec fn bg_attachment_alias(s: Seq<char>) -> bool {
    s == "fixed"@ || s == "local"@ || s == "scroll"@
}

/// The class-name text of the instruction: aliased keywords keep the short
/// `bg-` form, every other keyword the full `bg-attach-` form.
pub open spec fn bg_attachment_class(kind: Seq<char>) -> Seq<char> {
    if bg_attachment_alias(kind) {
        "bg-"@ + kind
    } else {
        "bg-attach-"@ + kind
    }
}

/// The CSS declaration of the instruction.
pub open spec fn bg_attachment_css(kind: Seq<char>) -> Seq<char> {
    "background-attachment: "@ + kind + ";"@
}

/// What parsing the stripped segments yields: the joined keyword when it is
/// in the keyword set, and otherwise the error the resolver reports.
pub open spec fn bg_attachment_parse(segs: Seq<Seq<char>>, arb: Seq<char>) -> Result<
    Seq<char>,
    ErrView,
> {
    if segs.len() == 0 {
        Err(ErrView::Arbitrary { family: "background-attachment"@, token: arb })
    } else {
        let kw = join_char(segs, '-');
        if bg_attachment_keyword(kw) {
            Ok(kw)
        } else {
            Err(ErrView::Syntax { family: "background-attachment"@, token: kw })
        }
    }
}

fn check_valid(mode: &str) -> (r: bool)
    ensures
        r == bg_attachment_keyword(mode@),
{
    str_eq(mode, "auto") || str_eq(mode, "avoid") || str_eq(mode, "avoid-page") || str_eq(
        mode,
        "avoid-column",
    ) || str_eq(mode, "avoid-region") || str_eq(mode, "inherit") || str_eq(mode, "initial")
        || str_eq(mode, "revert") || str_eq(mode, "unset")
}

impl TailwindBackgroundAttachment {
    /// Resolves the segments left after the family prefix was stripped.
    pub fn parse(pattern: &[&str], arbitrary: &TailwindArbitrary) -> (r: Result<
        TailwindBackgroundAttachment,
        TailwindError,
    >)
        ensures
            (r matches Ok(b) ==> Ok::<Seq<char>, ErrView>(b@) == bg_attachment_parse(
                views_of(pattern@),
                arbitrary@,
            )),
            (r matches Err(e) ==> Err::<Seq<char>, ErrView>(e@) == bg_attachment_parse(
                views_of(pattern@),
                arbitrary@,
            )),
    {
        if pattern.len() == 0 {
            return Err(TailwindError::arbitrary("background-attachment", arbitrary.as_str()));
        }
        let kw = join_strs(pattern, '-');
        if check_valid(kw.as_str()) {
            Ok(TailwindBackgroundAttachment { kind: kw })
        } else {
            Err(TailwindError::syntax("background-attachment", kw.as_str()))
        }
    }

    /// Resolves the bracketed form; a keyword-only family accepts no
    /// arbitrary value, so this always reports the failure.
    pub fn parse_arbitrary(arbitrary: &TailwindArbitrary) -> (r: Result<
        TailwindBackgroundAttachment,
        TailwindError,
    >)
        ensures
            r matches Err(e) && e@ == (ErrView::Arbitrary {
                family: "background-attachment"@,
                token: arbitrary@,
            }),
    {
        Err(TailwindError::arbitrary("background-attachment", arbitrary.as_str()))
    }

    /// Builds the instruction for an already validated keyword.
    pub(crate) fn from_keyword(kw: &str) -> (r: TailwindBackgroundAttachment)
        ensures
            r@ == kw@,
    {
        TailwindBackgroundAttachment { kind: String::from_str(kw) }
    }

    /// The canonical class name.
    pub fn display(&self) -> (r: String)
        ensures
            r@ == bg_attachment_class(self@),
    {
        let alias = str_eq(self.kind.as_str(), "fixed") || str_eq(self.kind.as_str(), "local")
            || str_eq(self.kind.as_str(), "scroll");
        let mut r = if alias {
            String::from_str("bg-")
        } else {
            String::from_str("bg-attach-")
        };
        r.append(self.kind.as_str());
        r
    }

    /// The CSS declaration.
    pub fn css(&self) -> (r: String)
        ensures
            r@ == bg_attachment_css(self@),
    {
        let mut r = String::from_str("background-attachment: ");
        r.append(self.kind.as_str());
        r.append(";");
        r
    }
}

} // verus!
