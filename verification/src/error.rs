use vstd::prelude::*;

verus! {

/// Ghost model of a resolution failure: its kind, the utility family it
/// names, and the offending text.
pub enum ErrView {
    Syntax { family: Seq<char>, token: Seq<char> },
    Arbitrary { family: Seq<char>, token: Seq<char> },
}

pub open spec fn err_family(e: ErrView) -> Seq<char> {
    match e {
        ErrView::Syntax { family, token } => family,
        ErrView::Arbitrary { family, token } => family,
    }
}

pub open spec fn err_token(e: ErrView) -> Seq<char> {
    match e {
        ErrView::Syntax { family, token } => token,
        ErrView::Arbitrary { family, token } => token,
    }
}

/// A failure of token resolution. `SyntaxError`: the token matches no known
/// family, or matches a family but none of its rules. `ArbitraryValueError`:
/// a bracketed or raw value fragment matches no value kind the family
/// accepts. Both carry the family name and the offending text.
#[derive(Debug, Clone)]
pub enum TailwindError {
    SyntaxError { family: String, token: String },
    ArbitraryValueError { family: String, token: String },
}

impl View for TailwindError {
    type V = ErrView;

    open spec fn view(&self) -> ErrView {
        match self {
            TailwindError::SyntaxError { family, token } => ErrView::Syntax {
                family: family@,
                token: token@,
            },
            TailwindError::ArbitraryValueError { family, token } => ErrView::Arbitrary {
                family: family@,
                token: token@,
            },
        }
    }
}

impl TailwindError {
    pub fn syntax(family: &str, token: &str) -> (r: TailwindError)
        ensures
            r@ == (ErrView::Syntax { family: family@, token: token@ }),
    {
        TailwindError::SyntaxError { family: String::from_str(family), token: String::from_str(token) }
    }

    pub fn arbitrary(family: &str, token: &str) -> (r: TailwindError)
        ensures
            r@ == (ErrView::Arbitrary { family: family@, token: token@ }),
    {
        TailwindError::ArbitraryValueError {
            family: String::from_str(family),
            token: String::from_str(token),
        }
    }

    pub fn is_syntax(&self) -> (r: bool)
        ensures
            r == (self@ is Syntax),
    {
        match self {
            TailwindError::SyntaxError { .. } => true,
            TailwindError::ArbitraryValueError { .. } => false,
        }
    }

    pub fn family(&self) -> (r: String)
        ensures
            r@ == err_family(self@),
    {
        match self {
            TailwindError::SyntaxError { family, .. } => String::from_str(family.as_str()),
            TailwindError::ArbitraryValueError { family, .. } => String::from_str(family.as_str()),
        }
    }

    pub fn token(&self) -> (r: String)
        ensures
            r@ == err_token(self@),
    {
        match self {
            TailwindError::SyntaxError { token, .. } => String::from_str(token.as_str()),
            TailwindError::ArbitraryValueError { token, .. } => String::from_str(token.as_str()),
        }
    }

    /// A diagnostic line naming the family and the offending text.
    pub fn message(&self) -> (r: String)
        ensures
            r@ == "Unknown instruction in "@ + err_family(self@) + ": "@ + err_token(self@),
    {
        let mut r = String::from_str("Unknown instruction in ");
        let fam = self.family();
        r.append(fam.as_str());
        r.append(": ");
        let tok = self.token();
        r.append(tok.as_str());
        r
    }
}

} // verus!
