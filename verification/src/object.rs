use vstd::prelude::*;
use crate::error::{ErrView, TailwindError};
use crate::text::{split_char, split_str, trim_spec, trim_str};

verus! {

/// Ghost model of a static instruction: its class name and its raw CSS text.
pub struct ObjectView {
    pub id: Seq<char>,
    pub css: Seq<char>,
}

/// A static instruction: a fixed class name with fixed CSS declaration text,
/// used by families whose output needs no computed payload.
#[derive(Clone, Debug)]
pub struct TailwindObject {
    id: String,
    attributes: String,
}

impl View for TailwindObject {
    type V = ObjectView;

    closed spec fn view(&self) -> ObjectView {
        ObjectView { id: self.id@, css: self.attributes@ }
    }
}

/// The declaration lines of the raw CSS text: the text trimmed, split at
/// newlines, and each line trimmed.
pub open spec fn object_attrs(css: Seq<char>) -> Seq<Seq<char>> {
    split_char(trim_spec(css), '\n').map_values(|l: Seq<char>| trim_spec(l))
}

impl TailwindObject {
    pub fn new(id: &str, css: &str) -> (r: TailwindObject)
        ensures
            r@ == (ObjectView { id: id@, css: css@ }),
    {
        TailwindObject { id: String::from_str(id), attributes: String::from_str(css) }
    }

    /// The canonical class name.
    pub fn id(&self) -> (r: String)
        ensures
            r@ == self@.id,
    {
        String::from_str(self.id.as_str())
    }

    /// The declaration lines, each trimmed.
    pub fn attributes(&self) -> (r: Vec<String>)
        ensures
            r.deep_view() == object_attrs(self@.css),
    {
        let trimmed = trim_str(self.attributes.as_str());
        let parts = split_str(trimmed.as_str(), '\n');
        let ghost raw = split_char(trim_spec(self.attributes@), '\n');
        let mut out: Vec<String> = Vec::new();
        let n = parts.len();
        let mut i: usize = 0;
        while i < n
            invariant
                n == parts@.len(),
                0 <= i <= n,
                parts.deep_view() == raw,
                out@.len() == i,
                forall|j: int| 0 <= j < i ==> (#[trigger] out@[j])@ == trim_spec(raw[j]),
            decreases n - i,
        {
            proof {
                assert(raw[i as int] == parts@[i as int]@);
            }
            let line = trim_str(parts[i].as_str());
            out.push(line);
            i += 1;
        }
        proof {
            assert forall|j: int| 0 <= j < out.deep_view().len() implies out.deep_view()[j]
                == object_attrs(self@.css)[j] by {
                assert(out.deep_view()[j] == out@[j]@);
                assert(object_attrs(self@.css)[j] == trim_spec(raw[j]));
            }
            assert(out.deep_view() =~= object_attrs(self@.css));
        }
        out
    }

    /// Matches the class name at the front of the input: on success the rest
    /// of the input and the static instruction, otherwise the error naming
    /// the id and the text that did not match.
    pub fn parser<'a>(id: &str, css: &str, input: &'a str) -> (r: Result<
        (&'a str, TailwindObject),
        TailwindError,
    >)
        ensures
            id@.is_prefix_of(input@) ==> (r matches Ok(p) && p.0@ == input@.skip(id@.len() as int)
                && p.1@ == (ObjectView { id: id@, css: css@ })),
            !id@.is_prefix_of(input@) ==> (r matches Err(e) && e@ == (ErrView::Syntax {
                family: id@,
                token: input@,
            })),
    {
        let idlen = id.unicode_len();
        let inlen = input.unicode_len();
        if idlen > inlen {
            proof {
                assert(!id@.is_prefix_of(input@));
            }
            return Err(TailwindError::syntax(id, input));
        }
        let mut i: usize = 0;
        while i < idlen
            invariant
                idlen == id@.len(),
                inlen == input@.len(),
                idlen <= inlen,
                0 <= i <= idlen,
                forall|j: int| 0 <= j < i ==> id@[j] == input@[j],
            decreases idlen - i,
        {
            if id.get_char(i) != input.get_char(i) {
                proof {
                    assert(!id@.is_prefix_of(input@)) by {
                        if id@.is_prefix_of(input@) {
                            assert(id@[i as int] == input@.subrange(0, idlen as int)[i as int]);
                        }
                    }
                }
                return Err(TailwindError::syntax(id, input));
            }
            i += 1;
        }
        let rest = input.substring_char(idlen, inlen);
        proof {
            assert(id@ =~= input@.subrange(0, idlen as int));
            assert(id@.is_prefix_of(input@));
            assert(rest@ =~= input@.skip(idlen as int));
        }
        Ok((rest, TailwindObject::new(id, css)))
    }
}

} // verus!
