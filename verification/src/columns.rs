use vstd::prelude::*;
use crate::arbitrary::{
    length_class, length_css, length_of, u8_of, CssUnit, LengthUnit, TailwindArbitrary,
    parse_length, parse_u8,
};
use crate::error::{ErrView, TailwindError};
use crate::text::{contains_char, dec_rep, join_char, join_strs, render_u32, str_eq, views_of};

verus! {

/// The `columns` utility family: a bare column count, a length (named scale,
/// bare, or bracketed), or a standard CSS keyword.
#[derive(Clone, Debug)]
pub enum Columns {
    Columns(u8),
    Length(LengthUnit),
    Standard(String),
}

/// Ghost model of a resolved `columns` instruction.
pub enum ColumnsView {
    Columns(u8),
    Length(LengthUnit),
    Standard(Seq<char>),
}

impl View for Columns {
    type V = ColumnsView;

    open spec fn view(&self) -> ColumnsView {
        match self {
            Columns::Columns(n) => ColumnsView::Columns(*n),
            Columns::Length(l) => ColumnsView::Length(*l),
            Columns::Standard(g) => ColumnsView::Standard(g@),
        }
    }
}

/// The named size scale: each name maps to a fixed rem magnitude.
pub open spec fn columns_scale(s: Seq<char>) -> Option<u32> {
    if s == "3xs"@ {
        Some(16)
    } else if s == "2xs"@ {
        Some(18)
    } else if s == "xs"@ {
        Some(20)
    } else if s == "sm"@ {
        Some(24)
    } else if s == "md"@ {
        Some(28)
    } else if s == "lg"@ {
        Some(32)
    } else if s == "xl"@ {
        Some(36)
    } else if s == "2xl"@ {
        Some(42)
    } else if s == "3xl"@ {
        Some(48)
    } else if s == "4xl"@ {
        Some(56)
    } else if s == "5xl"@ {
        Some(64)
    } else if s == "6xl"@ {
        Some(72)
    } else if s == "7xl"@ {
        Some(80)
    } else {
        None
    }
}

/// The class-name text of the payload.
pub open spec fn columns_value_class(v: ColumnsView) -> Seq<char> {
    match v {
        ColumnsView::Columns(n) => dec_rep(n as nat),
        ColumnsView::Length(l) => length_class(l),
        ColumnsView::Standard(g) => g,
    }
}

/// The CSS value text of the payload.
pub open spec fn columns_value_css(v: ColumnsView) -> Seq<char> {
    match v {
        ColumnsView::Columns(n) => dec_rep(n as nat),
        ColumnsView::Length(l) => length_css(l),
        ColumnsView::Standard(g) => g,
    }
}

/// What resolving the stripped segments (or the bracketed fragment, when no
/// segment is left) yields. A fragment holding a percent sign is rejected:
/// the columns scale is unit-based, never percent-based.
pub open spec fn columns_parse(segs: Seq<Seq<char>>, arb: Seq<char>) -> Result<
    ColumnsView,
    ErrView,
> {
    if segs.len() == 1 {
        let name = segs[0];
        if name == "auto"@ {
            Ok(ColumnsView::Standard("auto"@))
        } else if columns_scale(name) is Some {
            Ok(
                ColumnsView::Length(
                    LengthUnit { value: columns_scale(name).unwrap(), unit: CssUnit::Rem },
                ),
            )
        } else if name.contains('%') {
            Err(ErrView::Syntax { family: "columns"@, token: name })
        } else if u8_of(name) is Some {
            Ok(ColumnsView::Columns(u8_of(name).unwrap()))
        } else if length_of(name) is Some {
            Ok(ColumnsView::Length(length_of(name).unwrap()))
        } else {
            Err(ErrView::Syntax { family: "columns"@, token: name })
        }
    } else if segs.len() == 0 {
        if arb.contains('%') {
            Err(ErrView::Syntax { family: "columns"@, token: arb })
        } else if u8_of(arb) is Some {
            Ok(ColumnsView::Columns(u8_of(arb).unwrap()))
        } else if length_of(arb) is Some {
            Ok(ColumnsView::Length(length_of(arb).unwrap()))
        } else {
            Err(ErrView::Arbitrary { family: "columns"@, token: arb })
        }
    } else {
        Err(ErrView::Syntax { family: "columns"@, token: join_char(segs, '-') })
    }
}

fn scale_lookup(s: &str) -> (r: Option<u32>)
    ensures
        r == columns_scale(s@),
{
    if str_eq(s, "3xs") {
        Some(16)
    } else if str_eq(s, "2xs") {
        Some(18)
    } else if str_eq(s, "xs") {
        Some(20)
    } else if str_eq(s, "sm") {
        Some(24)
    } else if str_eq(s, "md") {
        Some(28)
    } else if str_eq(s, "lg") {
        Some(32)
    } else if str_eq(s, "xl") {
        Some(36)
    } else if str_eq(s, "2xl") {
        Some(42)
    } else if str_eq(s, "3xl") {
        Some(48)
    } else if str_eq(s, "4xl") {
        Some(56)
    } else if str_eq(s, "5xl") {
        Some(64)
    } else if str_eq(s, "6xl") {
        Some(72)
    } else if str_eq(s, "7xl") {
        Some(80)
    } else {
        None
    }
}

impl Columns {
    /// Resolves the segments left after the `columns` prefix was stripped,
    /// falling back to the bracketed fragment when no segment is left.
    pub fn parse(input: &[&str], arbitrary: &TailwindArbitrary) -> (r: Result<
        Columns,
        TailwindError,
    >)
        ensures
            (r matches Ok(c) ==> Ok::<ColumnsView, ErrView>(c@) == columns_parse(
                views_of(input@),
                arbitrary@,
            )),
            (r matches Err(e) ==> Err::<ColumnsView, ErrView>(e@) == columns_parse(
                views_of(input@),
                arbitrary@,
            )),
    {
        if input.len() == 1 {
            let name: &&str = vstd::slice::slice_index_get(input, 0);
            proof {
                assert(views_of(input@)[0] == input@[0]@);
            }
            if str_eq(*name, "auto") {
                return Ok(Columns::Standard(String::from_str("auto")));
            }
            match scale_lookup(*name) {
                Some(v) => {
                    return Ok(Columns::Length(LengthUnit::rem(v)));
                },
                None => {},
            }
            if contains_char(*name, '%') {
                return Err(TailwindError::syntax("columns", *name));
            }
            match parse_u8(*name) {
                Some(n) => {
                    return Ok(Columns::Columns(n));
                },
                None => {},
            }
            match parse_length(*name) {
                Some(l) => {
                    return Ok(Columns::Length(l));
                },
                None => {},
            }
            Err(TailwindError::syntax("columns", *name))
        } else if input.len() == 0 {
            let frag = arbitrary.as_str();
            if contains_char(frag, '%') {
                return Err(TailwindError::syntax("columns", frag));
            }
            match parse_u8(frag) {
                Some(n) => {
                    return Ok(Columns::Columns(n));
                },
                None => {},
            }
            match parse_length(frag) {
                Some(l) => {
                    return Ok(Columns::Length(l));
                },
                None => {},
            }
            Err(TailwindError::arbitrary("columns", frag))
        } else {
            let joined = join_strs(input, '-');
            Err(TailwindError::syntax("columns", joined.as_str()))
        }
    }

    /// The class-name text of the payload.
    pub fn display(&self) -> (r: String)
        ensures
            r@ == columns_value_class(self@),
    {
        match self {
            Columns::Columns(n) => render_u32(*n as u32),
            Columns::Length(l) => l.get_class_arbitrary(),
            Columns::Standard(g) => String::from_str(g.as_str()),
        }
    }

    /// The CSS value text of the payload.
    pub fn css_value(&self) -> (r: String)
        ensures
            r@ == columns_value_css(self@),
    {
        match self {
            Columns::Columns(n) => render_u32(*n as u32),
            Columns::Length(l) => l.get_css_value(),
            Columns::Standard(g) => String::from_str(g.as_str()),
        }
    }
}

} // verus!
