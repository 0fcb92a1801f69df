use vstd::prelude::*;
use crate::arbitrary::TailwindArbitrary;
use crate::background::{
    bg_attachment_alias, bg_attachment_class, bg_attachment_css, bg_attachment_parse,
    TailwindBackgroundAttachment,
};
use crate::columns::{columns_parse, columns_value_class, columns_value_css, Columns, ColumnsView};
use crate::error::{ErrView, TailwindError};
use crate::justify::{justify_self_class, justify_self_css, justify_self_parse, TailwindJustifySelf};
use crate::object::{object_attrs, ObjectView, TailwindObject};
use crate::text::{join_char, push_char, str_eq, views_of};

verus! {

/// A resolved instruction: one variant per utility family. Its class name
/// and its CSS declarations are pure functions of the payload.
#[derive(Clone, Debug)]
pub enum TailwindInstance {
    BackgroundAttachment(TailwindBackgroundAttachment),
    JustifySelf(TailwindJustifySelf),
    Columns(Columns),
    Object(TailwindObject),
}

/// Ghost model of a resolved instruction.
pub enum InstanceView {
    BackgroundAttachment(Seq<char>),
    JustifySelf(Seq<char>),
    Columns(ColumnsView),
    Object(ObjectView),
}

impl View for TailwindInstance {
    type V = InstanceView;

    open spec fn view(&self) -> InstanceView {
        match self {
            TailwindInstance::BackgroundAttachment(b) => InstanceView::BackgroundAttachment(b@),
            TailwindInstance::JustifySelf(j) => InstanceView::JustifySelf(j@),
            TailwindInstance::Columns(c) => InstanceView::Columns(c@),
            TailwindInstance::Object(o) => InstanceView::Object(o@),
        }
    }
}

impl DeepView for TailwindInstance {
    type V = InstanceView;

    open spec fn deep_view(&self) -> InstanceView {
        self.view()
    }
}

/// The canonical class name of an instruction; it is the identity under
/// which the store deduplicates.
pub open spec fn instance_id(v: InstanceView) -> Seq<char> {
    match v {
        InstanceView::BackgroundAttachment(k) => bg_attachment_class(k),
        InstanceView::JustifySelf(k) => justify_self_class(k),
        InstanceView::Columns(c) => "columns-"@ + columns_value_class(c),
        InstanceView::Object(o) => o.id,
    }
}

/// The CSS declaration lines of an instruction.
pub open spec fn instance_attrs(v: InstanceView) -> Seq<Seq<char>> {
    match v {
        InstanceView::BackgroundAttachment(k) => seq![bg_attachment_css(k)],
        InstanceView::JustifySelf(k) => seq![justify_self_css(k)],
        InstanceView::Columns(c) => seq!["columns: "@ + columns_value_css(c) + ";"@],
        InstanceView::Object(o) => object_attrs(o.css),
    }
}

/// What resolving one tokenized style yields: the instruction of the family
/// its leading elements name, or the error that family (or the dispatcher)
/// reports.
pub open spec fn resolve_spec(elements: Seq<Seq<char>>, arb: Seq<char>) -> Result<
    InstanceView,
    ErrView,
> {
    if elements.len() >= 2 && elements[0] == "bg"@ && elements[1] == "attach"@ {
        match bg_attachment_parse(elements.skip(2), arb) {
            Ok(k) => Ok(InstanceView::BackgroundAttachment(k)),
            Err(e) => Err(e),
        }
    } else if elements.len() == 2 && elements[0] == "bg"@ && bg_attachment_alias(elements[1]) {
        Ok(InstanceView::BackgroundAttachment(elements[1]))
    } else if elements.len() >= 1 && elements[0] == "bg"@ {
        if elements.len() == 1 {
            Err(ErrView::Arbitrary { family: "background-attachment"@, token: arb })
        } else {
            Err(
                ErrView::Syntax {
                    family: "background-attachment"@,
                    token: join_char(elements.skip(1), '-'),
                },
            )
        }
    } else if elements.len() >= 2 && elements[0] == "justify"@ && elements[1] == "self"@ {
        match justify_self_parse(elements.skip(2), arb) {
            Ok(k) => Ok(InstanceView::JustifySelf(k)),
            Err(e) => Err(e),
        }
    } else if elements.len() >= 1 && elements[0] == "columns"@ {
        match columns_parse(elements.skip(1), arb) {
            Ok(c) => Ok(InstanceView::Columns(c)),
            Err(e) => Err(e),
        }
    } else {
        Err(ErrView::Syntax { family: "unknown"@, token: join_char(elements, '-') })
    }
}

/// Borrows the elements from index `from` on as string slices.
fn tail_refs<'a>(elements: &'a Vec<String>, from: usize) -> (r: Vec<&'a str>)
    requires
        from <= elements@.len(),
    ensures
        views_of(r@) == elements.deep_view().skip(from as int),
{
    let n = elements.len();
    let mut r: Vec<&str> = Vec::new();
    let mut i: usize = from;
    while i < n
        invariant
            from <= i <= n,
            n == elements@.len(),
            r@.len() == i - from,
            forall|j: int| 0 <= j < i - from ==> r@[j]@ == elements.deep_view()[j + from],
        decreases n - i,
    {
        r.push(elements[i].as_str());
        i += 1;
    }
    proof {
        assert(views_of(r@) =~= elements.deep_view().skip(from as int));
    }
    r
}

/// Resolves one tokenized style: dispatches on the family prefix and hands
/// the remaining segments with the bracketed fragment to that family.
pub fn resolve(elements: &Vec<String>, arbitrary: &TailwindArbitrary) -> (r: Result<
    TailwindInstance,
    TailwindError,
>)
    ensures
        (r matches Ok(i) ==> Ok::<InstanceView, ErrView>(i@) == resolve_spec(
            elements.deep_view(),
            arbitrary@,
        )),
        (r matches Err(e) ==> Err::<InstanceView, ErrView>(e@) == resolve_spec(
            elements.deep_view(),
            arbitrary@,
        )),
{
    let n = elements.len();
    let is_bg = n >= 1 && str_eq(elements[0].as_str(), "bg");
    if n >= 2 && is_bg && str_eq(elements[1].as_str(), "attach") {
        let tail = tail_refs(elements, 2);
        match TailwindBackgroundAttachment::parse(tail.as_slice(), arbitrary) {
            Ok(b) => Ok(TailwindInstance::BackgroundAttachment(b)),
            Err(e) => Err(e),
        }
    } else if n == 2 && is_bg && (str_eq(elements[1].as_str(), "fixed") || str_eq(
        elements[1].as_str(),
        "local",
    ) || str_eq(elements[1].as_str(), "scroll")) {
        Ok(
            TailwindInstance::BackgroundAttachment(
                TailwindBackgroundAttachment::from_keyword(elements[1].as_str()),
            ),
        )
    } else if is_bg {
        if n == 1 {
            Err(TailwindError::arbitrary("background-attachment", arbitrary.as_str()))
        } else {
            let tail = tail_refs(elements, 1);
            let joined = crate::text::join_strs(tail.as_slice(), '-');
            Err(TailwindError::syntax("background-attachment", joined.as_str()))
        }
    } else if n >= 2 && str_eq(elements[0].as_str(), "justify") && str_eq(
        elements[1].as_str(),
        "self",
    ) {
        let tail = tail_refs(elements, 2);
        match TailwindJustifySelf::parse(tail.as_slice(), arbitrary) {
            Ok(j) => Ok(TailwindInstance::JustifySelf(j)),
            Err(e) => Err(e),
        }
    } else if n >= 1 && str_eq(elements[0].as_str(), "columns") {
        let tail = tail_refs(elements, 1);
        match Columns::parse(tail.as_slice(), arbitrary) {
            Ok(c) => Ok(TailwindInstance::Columns(c)),
            Err(e) => Err(e),
        }
    } else {
        let tail = tail_refs(elements, 0);
        let joined = crate::text::join_strs(tail.as_slice(), '-');
        proof {
            assert(elements.deep_view().skip(0) =~= elements.deep_view());
        }
        Err(TailwindError::syntax("unknown", joined.as_str()))
    }
}

impl TailwindInstance {
    /// The canonical class name.
    pub fn id(&self) -> (r: String)
        ensures
            r@ == instance_id(self@),
    {
        match self {
            TailwindInstance::BackgroundAttachment(b) => b.display(),
            TailwindInstance::JustifySelf(j) => j.display(),
            TailwindInstance::Columns(c) => {
                let mut r = String::from_str("columns-");
                let v = c.display();
                r.append(v.as_str());
                r
            },
            TailwindInstance::Object(o) => o.id(),
        }
    }

    /// The CSS declaration lines.
    pub fn attributes(&self) -> (r: Vec<String>)
        ensures
            r.deep_view() == instance_attrs(self@),
    {
        match self {
            TailwindInstance::BackgroundAttachment(b) => {
                let mut r: Vec<String> = Vec::new();
                r.push(b.css());
                proof {
                    assert(r.deep_view() =~= instance_attrs(self@));
                }
                r
            },
            TailwindInstance::JustifySelf(j) => {
                let mut r: Vec<String> = Vec::new();
                r.push(j.css());
                proof {
                    assert(r.deep_view() =~= instance_attrs(self@));
                }
                r
            },
            TailwindInstance::Columns(c) => {
                let mut line = String::from_str("columns: ");
                let v = c.css_value();
                line.append(v.as_str());
                line.append(";");
                let mut r: Vec<String> = Vec::new();
                r.push(line);
                proof {
                    assert(r.deep_view() =~= instance_attrs(self@));
                }
                r
            },
            TailwindInstance::Object(o) => o.attributes(),
        }
    }
}

} // verus!
