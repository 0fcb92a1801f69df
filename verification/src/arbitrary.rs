use vstd::prelude::*;
use crate::error::{ErrView, TailwindError};
use crate::text::{
    all_digits, dec_rep, digit_prefix, digit_prefix_len, digits_val, is_digit,
    parse_digits_bounded, push_char, str_eq,
};

verus! {

/// A CSS unit a numeric magnitude may carry.
#[derive(Clone, Copy, Debug, PartialEq, Eq, Structural)]
pub enum CssUnit {
    Px,
    Em,
    Rem,
    Percent,
    Vh,
    Vw,
    Pt,
    Cm,
    Mm,
    In,
}

/// A numeric magnitude with its unit.
#[derive(Clone, Copy, Debug, PartialEq, Eq, Structural)]
pub struct LengthUnit {
    pub value: u32,
    pub unit: CssUnit,
}

pub open spec fn unit_text(u: CssUnit) -> Seq<char> {
    match u {
        CssUnit::Px => "px"@,
        CssUnit::Em => "em"@,
        CssUnit::Rem => "rem"@,
        CssUnit::Percent => "%"@,
        CssUnit::Vh => "vh"@,
        CssUnit::Vw => "vw"@,
        CssUnit::Pt => "pt"@,
        CssUnit::Cm => "cm"@,
        CssUnit::Mm => "mm"@,
        CssUnit::In => "in"@,
    }
}

/// Which recognized unit the text spells, if any.
pub open spec fn unit_of(s: Seq<char>) -> Option<CssUnit> {
    if s == unit_text(CssUnit::Px) {
        Some(CssUnit::Px)
    } else if s == unit_text(CssUnit::Em) {
        Some(CssUnit::Em)
    } else if s == unit_text(CssUnit::Rem) {
        Some(CssUnit::Rem)
    } else if s == unit_text(CssUnit::Percent) {
        Some(CssUnit::Percent)
    } else if s == unit_text(CssUnit::Vh) {
        Some(CssUnit::Vh)
    } else if s == unit_text(CssUnit::Vw) {
        Some(CssUnit::Vw)
    } else if s == unit_text(CssUnit::Pt) {
        Some(CssUnit::Pt)
    } else if s == unit_text(CssUnit::Cm) {
        Some(CssUnit::Cm)
    } else if s == unit_text(CssUnit::Mm) {
        Some(CssUnit::Mm)
    } else if s == unit_text(CssUnit::In) {
        Some(CssUnit::In)
    } else {
        None
    }
}

/// The CSS value text of a length: magnitude then unit.
pub open spec fn length_css(l: LengthUnit) -> Seq<char> {
    dec_rep(l.value as nat) + unit_text(l.unit)
}

/// The class-name text of a length: the CSS value in brackets.
pub open spec fn length_class(l: LengthUnit) -> Seq<char> {
    seq!['['] + length_css(l) + seq![']']
}

/// The length a fragment denotes: a nonempty digit prefix whose value fits in
/// a magnitude, followed exactly by a recognized unit.
pub open spec fn length_of(s: Seq<char>) -> Option<LengthUnit> {
    let k = digit_prefix_len(s) as int;
    if k == 0 {
        None
    } else if digits_val(s.take(k)) > u32::MAX {
        None
    } else {
        match unit_of(s.skip(k)) {
            Some(u) => Some(LengthUnit { value: digits_val(s.take(k)) as u32, unit: u }),
            None => None,
        }
    }
}

/// The integer a fragment denotes: all digits, nonempty, value within i64.
pub open spec fn int_of(s: Seq<char>) -> Option<i64> {
    if s.len() > 0 && all_digits(s) && digits_val(s) <= (i64::MAX as nat) {
        Some(digits_val(s) as i64)
    } else {
        None
    }
}

/// The value of a fragment of all digits, when it fits in a u8.
pub open spec fn u8_of(s: Seq<char>) -> Option<u8> {
    if s.len() > 0 && all_digits(s) && digits_val(s) <= 255 {
        Some(digits_val(s) as u8)
    } else {
        None
    }
}

impl LengthUnit {
    pub fn rem(value: u32) -> (r: LengthUnit)
        ensures
            r == (LengthUnit { value, unit: CssUnit::Rem }),
    {
        LengthUnit { value, unit: CssUnit::Rem }
    }

    /// The unit's spelling.
    pub fn unit_str(&self) -> (r: &'static str)
        ensures
            r@ == unit_text(self.unit),
    {
        match self.unit {
            CssUnit::Px => "px",
            CssUnit::Em => "em",
            CssUnit::Rem => "rem",
            CssUnit::Percent => "%",
            CssUnit::Vh => "vh",
            CssUnit::Vw => "vw",
            CssUnit::Pt => "pt",
            CssUnit::Cm => "cm",
            CssUnit::Mm => "mm",
            CssUnit::In => "in",
        }
    }

    /// The CSS value text: magnitude then unit, e.g. inside `columns: ...;`.
    pub fn get_css_value(&self) -> (r: String)
        ensures
            r@ == length_css(*self),
    {
        let mut r = crate::text::render_u32(self.value);
        r.append(self.unit_str());
        r
    }

    /// The class-name text: the CSS value in brackets.
    pub fn get_class_arbitrary(&self) -> (r: String)
        ensures
            r@ == length_class(*self),
    {
        let mut r = String::new();
        push_char(&mut r, '[');
        let v = self.get_css_value();
        r.append(v.as_str());
        push_char(&mut r, ']');
        proof {
            assert(r@ =~= length_class(*self));
        }
        r
    }
}

/// Reads a fragment as a recognized unit, if it is one.
pub fn unit_from_str(s: &str) -> (r: Option<CssUnit>)
    ensures
        r == unit_of(s@),
{
    if str_eq(s, "px") {
        Some(CssUnit::Px)
    } else if str_eq(s, "em") {
        Some(CssUnit::Em)
    } else if str_eq(s, "rem") {
        Some(CssUnit::Rem)
    } else if str_eq(s, "%") {
        Some(CssUnit::Percent)
    } else if str_eq(s, "vh") {
        Some(CssUnit::Vh)
    } else if str_eq(s, "vw") {
        Some(CssUnit::Vw)
    } else if str_eq(s, "pt") {
        Some(CssUnit::Pt)
    } else if str_eq(s, "cm") {
        Some(CssUnit::Cm)
    } else if str_eq(s, "mm") {
        Some(CssUnit::Mm)
    } else if str_eq(s, "in") {
        Some(CssUnit::In)
    } else {
        None
    }
}

/// Reads a fragment as a length with a recognized unit.
pub fn parse_length(s: &str) -> (r: Option<LengthUnit>)
    ensures
        r == length_of(s@),
{
    let len = s.unicode_len();
    let k = digit_prefix(s);
    if k == 0 {
        return None;
    }
    proof {
        assert(s@.subrange(0, k as int) =~= s@.take(k as int));
    }
    match parse_digits_bounded(s, 0, k, 0xffff_ffff) {
        None => None,
        Some(v) => {
            let rest = s.substring_char(k, len);
            proof {
                assert(rest@ =~= s@.skip(k as int));
            }
            match unit_from_str(rest) {
                Some(u) => Some(LengthUnit { value: v as u32, unit: u }),
                None => None,
            }
        },
    }
}

/// Reads a fragment of decimal digits as an integer.
pub fn parse_i64(s: &str) -> (r: Option<i64>)
    ensures
        r == int_of(s@),
{
    let len = s.unicode_len();
    let k = digit_prefix(s);
    if k != len || len == 0 {
        proof {
            if k < len {
                assert(!is_digit(s@[k as int]));
                assert(!all_digits(s@));
            }
        }
        return None;
    }
    proof {
        assert(s@.subrange(0, len as int) =~= s@);
    }
    match parse_digits_bounded(s, 0, len, 0x7fff_ffff_ffff_ffff) {
        None => None,
        Some(v) => Some(v as i64),
    }
}

/// Reads a fragment of decimal digits as a u8.
pub fn parse_u8(s: &str) -> (r: Option<u8>)
    ensures
        r == u8_of(s@),
{
    let len = s.unicode_len();
    let k = digit_prefix(s);
    if k != len || len == 0 {
        proof {
            if k < len {
                assert(!is_digit(s@[k as int]));
                assert(!all_digits(s@));
            }
        }
        return None;
    }
    proof {
        assert(s@.subrange(0, len as int) =~= s@);
    }
    match parse_digits_bounded(s, 0, len, 255) {
        None => None,
        Some(v) => Some(v as u8),
    }
}

/// Ghost model of an arbitrary value.
pub enum ArbValueView {
    Integer(i64),
    Length(LengthUnit),
    Percentage(u32),
    Color(Seq<char>),
    Raw(Seq<char>),
}

/// A parsed arbitrary value: one of the semantic value kinds a bracketed or
/// unprefixed fragment may denote.
#[derive(Clone, Debug)]
pub enum ArbitraryValue {
    Integer(i64),
    Length(LengthUnit),
    Percentage(u32),
    Color(String),
    Raw(String),
}

impl View for ArbitraryValue {
    type V = ArbValueView;

    open spec fn view(&self) -> ArbValueView {
        match self {
            ArbitraryValue::Integer(v) => ArbValueView::Integer(*v),
            ArbitraryValue::Length(l) => ArbValueView::Length(*l),
            ArbitraryValue::Percentage(p) => ArbValueView::Percentage(*p),
            ArbitraryValue::Color(c) => ArbValueView::Color(c@),
            ArbitraryValue::Raw(r) => ArbValueView::Raw(r@),
        }
    }
}

/// What a value fragment denotes, tried in this order: integer, length with a
/// recognized unit (a percent sign giving a percentage), a color spec, and,
/// where the family allows it, an opaque raw string.
pub open spec fn value_of(s: Seq<char>, allow_raw: bool) -> Result<ArbValueView, ErrView> {
    if int_of(s) is Some {
        Ok(ArbValueView::Integer(int_of(s).unwrap()))
    } else if length_of(s) is Some {
        let l = length_of(s).unwrap();
        if l.unit == CssUnit::Percent {
            Ok(ArbValueView::Percentage(l.value))
        } else {
            Ok(ArbValueView::Length(l))
        }
    } else if s.len() > 0 && s[0] == '#' {
        Ok(ArbValueView::Color(s))
    } else if allow_raw {
        Ok(ArbValueView::Raw(s))
    } else {
        Err(ErrView::Arbitrary { family: "value"@, token: s })
    }
}

/// The raw text of one bracketed (or unprefixed) value fragment, as handed to
/// a resolver; an empty text means no fragment was present.
#[derive(Clone, Debug)]
pub struct TailwindArbitrary {
    inner: String,
}

impl View for TailwindArbitrary {
    type V = Seq<char>;

    closed spec fn view(&self) -> Seq<char> {
        self.inner@
    }
}

impl TailwindArbitrary {
    pub fn new(s: &str) -> (r: TailwindArbitrary)
        ensures
            r@ == s@,
    {
        TailwindArbitrary { inner: String::from_str(s) }
    }

    pub fn as_str(&self) -> (r: &str)
        ensures
            r@ == self@,
    {
        self.inner.as_str()
    }

    pub fn is_empty(&self) -> (r: bool)
        ensures
            r == (self@.len() == 0),
    {
        self.inner.as_str().unicode_len() == 0
    }

    /// The fragment as an integer, or the error the engine reports.
    pub fn as_integer(&self) -> (r: Result<i64, TailwindError>)
        ensures
            int_of(self@) is Some ==> (r matches Ok(v) && Some(v) == int_of(self@)),
            int_of(self@) is None ==> (r matches Err(e) && e@ == (ErrView::Arbitrary {
                family: "integer"@,
                token: self@,
            })),
    {
        match parse_i64(self.inner.as_str()) {
            Some(v) => Ok(v),
            None => Err(TailwindError::arbitrary("integer", self.inner.as_str())),
        }
    }

    /// The fragment as a length with a recognized unit, or the error the
    /// engine reports.
    pub fn as_length(&self) -> (r: Result<LengthUnit, TailwindError>)
        ensures
            length_of(self@) is Some ==> (r matches Ok(l) && Some(l) == length_of(self@)),
            length_of(self@) is None ==> (r matches Err(e) && e@ == (ErrView::Arbitrary {
                family: "length"@,
                token: self@,
            })),
    {
        match parse_length(self.inner.as_str()) {
            Some(l) => Ok(l),
            None => Err(TailwindError::arbitrary("length", self.inner.as_str())),
        }
    }

    /// The fragment as a semantic value, tried in the engine's fixed order.
    pub fn as_value(&self, allow_raw: bool) -> (r: Result<ArbitraryValue, TailwindError>)
        ensures
            (r matches Ok(v) ==> Ok::<ArbValueView, ErrView>(v@) == value_of(self@, allow_raw)),
            (r matches Err(e) ==> Err::<ArbValueView, ErrView>(e@) == value_of(self@, allow_raw)),
    {
        let s = self.inner.as_str();
        match parse_i64(s) {
            Some(v) => Ok(ArbitraryValue::Integer(v)),
            None => match parse_length(s) {
                Some(l) => {
                    if matches!(l.unit, CssUnit::Percent) {
                        Ok(ArbitraryValue::Percentage(l.value))
                    } else {
                        Ok(ArbitraryValue::Length(l))
                    }
                },
                None => {
                    if s.unicode_len() > 0 && s.get_char(0) == '#' {
                        Ok(ArbitraryValue::Color(String::from_str(s)))
                    } else if allow_raw {
                        Ok(ArbitraryValue::Raw(String::from_str(s)))
                    } else {
                        Err(TailwindError::arbitrary("value", s))
                    }
                },
            },
        }
    }
}

} // verus!
