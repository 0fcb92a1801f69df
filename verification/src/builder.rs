use vstd::prelude::*;
use crate::arbitrary::TailwindArbitrary;
use crate::error::{ErrView, TailwindError};
use crate::instance::{instance_attrs, instance_id, resolve, resolve_spec, InstanceView,
    TailwindInstance};
use crate::text::{concat_all, dedup_sorted, escape_ident, escape_seq, join_char, join_owned,
    lemma_sorted_insert_line_position, lemma_str_lt_connex, lemma_str_lt_irrefl,
    lemma_str_lt_trans, line_insert, push_char, sorted_insert_line, str_lt};

verus! {

/// One tokenized candidate style, as the outer tokenizer hands it over: the
/// dash-separated element names, and the text of the bracketed arbitrary
/// part (empty when none was written, since a bracket is never empty).
#[derive(Clone, Debug)]
pub struct TailwindInstruction {
    pub elements: Vec<String>,
    pub arbitrary: TailwindArbitrary,
}

impl View for TailwindInstruction {
    type V = (Seq<Seq<char>>, Seq<char>);

    open spec fn view(&self) -> (Seq<Seq<char>>, Seq<char>) {
        (self.elements.deep_view(), self.arbitrary@)
    }
}

impl DeepView for TailwindInstruction {
    type V = (Seq<Seq<char>>, Seq<char>);

    open spec fn deep_view(&self) -> (Seq<Seq<char>>, Seq<char>) {
        self.view()
    }
}

impl TailwindInstruction {
    /// Resolves this style to its typed instruction.
    pub fn get_instance(&self) -> (r: Result<TailwindInstance, TailwindError>)
        ensures
            (r matches Ok(i) ==> Ok::<InstanceView, ErrView>(i@) == resolve_spec(
                self@.0,
                self@.1,
            )),
            (r matches Err(e) ==> Err::<InstanceView, ErrView>(e@) == resolve_spec(
                self@.0,
                self@.1,
            )),
    {
        resolve(&self.elements, &self.arbitrary)
    }
}

/// What the outer tokenizer makes of a class-list string: None when the text
/// is not a well-formed list of candidate styles, else each style's element
/// names and arbitrary text, in input order.
pub uninterp spec fn ast_parse(s: Seq<char>) -> Option<Seq<(Seq<Seq<char>>, Seq<char>)>>;

/// Relies on tailwind_ast::parse_tailwind: splits a class-list string into
/// styled items, each carrying its dash-separated element names and the text
/// of its bracketed part, if one was written; whether it succeeds and what
/// it yields depend on the input text alone.
#[verifier::external_body]
fn tokenize(input: &str) -> (r: Result<Vec<TailwindInstruction>, TailwindError>)
    ensures
        (r is Ok <==> ast_parse(input@) is Some),
        (r matches Ok(v) ==> Some(v.deep_view()) == ast_parse(input@)),
        (r matches Err(e) ==> e@ == (ErrView::Syntax { family: "tailwind"@, token: input@ })),
{
    match tailwind_ast::parse_tailwind(input) {
        Ok(styles) => Ok(styles
            .into_iter()
            .map(|s| TailwindInstruction {
                elements: s.elements.iter().map(|e| String::from(*e)).collect(),
                arbitrary: TailwindArbitrary::new(s.arbitrary.unwrap_or("")),
            })
            .collect()),
        Err(_) => Err(TailwindError::syntax("tailwind", input)),
    }
}

/// The instructions of a list of tokenized styles, or the first error, in
/// input order.
pub open spec fn resolve_all(styles: Seq<(Seq<Seq<char>>, Seq<char>)>) -> Result<
    Seq<InstanceView>,
    ErrView,
>
    decreases styles.len(),
{
    if styles.len() == 0 {
        Ok(Seq::empty())
    } else {
        match resolve_spec(styles[0].0, styles[0].1) {
            Err(e) => Err(e),
            Ok(i) => match resolve_all(styles.drop_first()) {
                Err(e) => Err(e),
                Ok(rest) => Ok(seq![i] + rest),
            },
        }
    }
}

/// Whether some stored instruction already carries this identity.
pub open spec fn contains_id(store: Seq<InstanceView>, id: Seq<char>) -> bool {
    exists|j: int| 0 <= j < store.len() && instance_id(store[j]) == id
}

/// An instruction placed into the store at its ordered position: the store
/// keeps ascending canonical-id order, so its contents, not the insertion
/// history, fix the render order.
pub open spec fn sorted_insert(store: Seq<InstanceView>, i: InstanceView) -> Seq<InstanceView>
    decreases store.len(),
{
    if store.len() == 0 {
        seq![i]
    } else if str_lt(instance_id(i), instance_id(store[0])) {
        seq![i] + store
    } else {
        seq![store[0]] + sorted_insert(store.drop_first(), i)
    }
}

/// One insertion: a duplicate identity is a no-op, a new one takes its
/// ordered place.
pub open spec fn insert_one(store: Seq<InstanceView>, i: InstanceView) -> Seq<InstanceView> {
    if contains_id(store, instance_id(i)) {
        store
    } else {
        sorted_insert(store, i)
    }
}

/// The store invariant: canonical ids strictly ascending, so each identity
/// occurs at most once and rendering follows the id-derived total order.
pub open spec fn store_sorted(store: Seq<InstanceView>) -> bool {
    forall|j: int, k: int|
        0 <= j < k < store.len() ==> str_lt(
            instance_id(#[trigger] store[j]),
            instance_id(#[trigger] store[k]),
        )
}

pub proof fn lemma_sorted_insert_position(store: Seq<InstanceView>, x: InstanceView, p: int)
    requires
        0 <= p <= store.len(),
        forall|j: int| 0 <= j < p ==> !str_lt(instance_id(x), instance_id(#[trigger] store[j])),
        p < store.len() ==> str_lt(instance_id(x), instance_id(store[p])),
    ensures
        sorted_insert(store, x) == store.take(p) + seq![x] + store.skip(p),
    decreases p,
{
    if p == 0 {
        assert(sorted_insert(store, x) =~= store.take(0) + seq![x] + store.skip(0));
    } else {
        assert(!str_lt(instance_id(x), instance_id(store[0])));
        let t = store.drop_first();
        assert forall|j: int| 0 <= j < p - 1 implies !str_lt(
            instance_id(x),
            instance_id(#[trigger] t[j]),
        ) by {
            assert(t[j] == store[j + 1]);
        }
        if p - 1 < t.len() {
            assert(t[p - 1] == store[p]);
        }
        lemma_sorted_insert_position(t, x, p - 1);
        assert(seq![store[0]] + (t.take(p - 1) + seq![x] + t.skip(p - 1)) =~= store.take(p)
            + seq![x] + store.skip(p));
    }
}

pub proof fn lemma_sorted_insert_contains(store: Seq<InstanceView>, x: InstanceView, y: InstanceView)
    ensures
        sorted_insert(store, x).contains(x),
        store.contains(y) ==> sorted_insert(store, x).contains(y),
    decreases store.len(),
{
    if store.len() == 0 {
        assert(sorted_insert(store, x)[0] == x);
    } else if str_lt(instance_id(x), instance_id(store[0])) {
        let r = seq![x] + store;
        assert(r[0] == x);
        if store.contains(y) {
            let i = choose|i: int| 0 <= i < store.len() && store[i] == y;
            assert(r[i + 1] == y);
        }
    } else {
        let t = store.drop_first();
        let rec = sorted_insert(t, x);
        let r = seq![store[0]] + rec;
        lemma_sorted_insert_contains(t, x, y);
        let i = choose|i: int| 0 <= i < rec.len() && rec[i] == x;
        assert(r[i + 1] == x);
        if store.contains(y) {
            let m = choose|m: int| 0 <= m < store.len() && store[m] == y;
            if m == 0 {
                assert(r[0] == y);
            } else {
                assert(t[m - 1] == y);
                assert(t.contains(y));
                let w = choose|w: int| 0 <= w < rec.len() && rec[w] == y;
                assert(r[w + 1] == y);
            }
        }
    }
}

/// The store never shrinks: everything stored before a round of insertions
/// is still stored after it.
pub proof fn lemma_insert_all_preserves(
    store: Seq<InstanceView>,
    items: Seq<InstanceView>,
    y: InstanceView,
)
    requires
        store.contains(y),
    ensures
        insert_all(store, items).contains(y),
    decreases items.len(),
{
    if items.len() > 0 {
        if !contains_id(store, instance_id(items[0])) {
            lemma_sorted_insert_contains(store, items[0], y);
        }
        lemma_insert_all_preserves(insert_one(store, items[0]), items.drop_first(), y);
    }
}

/// All items inserted, in order.
pub open spec fn insert_all(store: Seq<InstanceView>, items: Seq<InstanceView>) -> Seq<
    InstanceView,
>
    decreases items.len(),
{
    if items.len() == 0 {
        store
    } else {
        insert_all(insert_one(store, items[0]), items.drop_first())
    }
}

/// The canonical class names of the instructions, in order.
pub open spec fn ids_of(items: Seq<InstanceView>) -> Seq<Seq<char>> {
    items.map_values(|i: InstanceView| instance_id(i))
}

/// What a whole `trace` or `inline` call resolves: the instruction list, or
/// the first error of tokenizing and resolving.
pub open spec fn trace_result(input: Seq<char>) -> Result<Seq<InstanceView>, ErrView> {
    match ast_parse(input) {
        None => Err(ErrView::Syntax { family: "tailwind"@, token: input }),
        Some(styles) => resolve_all(styles),
    }
}

/// The CSS declaration lines of the instructions, concatenated in order.
pub open spec fn flat_attrs(items: Seq<InstanceView>) -> Seq<Seq<char>>
    decreases items.len(),
{
    if items.len() == 0 {
        Seq::empty()
    } else {
        flat_attrs(items.drop_last()) + instance_attrs(items.last())
    }
}

/// What `inline` renders: every resolved declaration line once, in
/// ascending lexicographic order, concatenated.
pub open spec fn inline_result(input: Seq<char>) -> Result<Seq<char>, ErrView> {
    match trace_result(input) {
        Err(e) => Err(e),
        Ok(items) => Ok(concat_all(dedup_sorted(flat_attrs(items)))),
    }
}

/// One rule block of the stylesheet: the selector is a dot and the escaped
/// class name, the body the instruction's declaration lines.
pub open spec fn rule_of(i: InstanceView) -> Seq<char> {
    seq!['.'] + escape_seq(instance_id(i)) + seq!['{'] + concat_all(instance_attrs(i)) + seq!['}']
        + seq!['\n']
}

/// The rule blocks of the stored instructions, in store order.
pub open spec fn rules_of(store: Seq<InstanceView>) -> Seq<char>
    decreases store.len(),
{
    if store.len() == 0 {
        Seq::empty()
    } else {
        rules_of(store.drop_last()) + rule_of(store.last())
    }
}

/// The whole stylesheet: the preflight text first, then every utility rule.
pub open spec fn bundle_text(preflight: Seq<char>, store: Seq<InstanceView>) -> Seq<char> {
    preflight + rules_of(store)
}

/// A builder session: owns the ordered, deduplicating instruction store, the
/// externally supplied collaborator tables, and the reserved obfuscation
/// flag. Grows over `trace` calls; `bundle` reads it without consuming it.
#[derive(Debug)]
pub struct TailwindBuilder {
    /// Reserved for class-name minification; never read by resolution.
    pub obfuscate: bool,
    /// The instruction store: ascending canonical-id order, unique by
    /// identity.
    pub objects: Vec<TailwindInstance>,
    /// The preflight (reset) stylesheet text of the external collaborator.
    pub preflight: String,
    /// Color palette table of the external collaborator.
    pub palettes: Vec<(String, String)>,
    /// Breakpoint table of the external collaborator.
    pub screens: Vec<(String, String)>,
    /// Font table of the external collaborator.
    pub fonts: Vec<(String, String)>,
}

impl TailwindBuilder {
    /// The stored instructions, in ascending canonical-id order.
    pub open spec fn store(&self) -> Seq<InstanceView> {
        self.objects.deep_view()
    }

    /// The preflight (reset) stylesheet text the session was given.
    pub open spec fn preflight_text(&self) -> Seq<char> {
        self.preflight@
    }

    /// The store invariant: the canonical ids ascend strictly, so no two
    /// stored instructions share an identity and the render order is the
    /// id-derived total order.
    pub open spec fn wf(&self) -> bool {
        store_sorted(self.store())
    }

    /// Opens a session around the given preflight stylesheet text.
    pub fn new(preflight: &str) -> (r: TailwindBuilder)
        ensures
            r.wf(),
            r.store() == Seq::<InstanceView>::empty(),
            r.preflight_text() == preflight@,
            !r.obfuscate,
    {
        let r = TailwindBuilder {
            obfuscate: false,
            objects: Vec::new(),
            preflight: String::from_str(preflight),
            palettes: Vec::new(),
            screens: Vec::new(),
            fonts: Vec::new(),
        };
        proof {
            assert(r.store() =~= Seq::<InstanceView>::empty());
        }
        r
    }

    /// Inserts one instruction at its ordered place; a duplicate identity is
    /// a no-op.
    fn insert_instance(&mut self, inst: TailwindInstance)
        requires
            old(self).wf(),
        ensures
            final(self).wf(),
            final(self).store() == insert_one(old(self).store(), inst@),
            final(self).preflight_text() == old(self).preflight_text(),
            final(self).obfuscate == old(self).obfuscate,
            final(self).palettes == old(self).palettes,
            final(self).screens == old(self).screens,
            final(self).fonts == old(self).fonts,
    {
        let id = inst.id();
        let n = self.objects.len();
        let mut j: usize = 0;
        loop
            invariant
                *self == *old(self),
                self.wf(),
                n == self.objects@.len(),
                0 <= j <= n,
                id@ == instance_id(inst@),
                forall|k: int|
                    0 <= k < j ==> instance_id(#[trigger] self.store()[k]) != id@ && !str_lt(
                        id@,
                        instance_id(self.store()[k]),
                    ),
            ensures
                *self == *old(self),
                0 <= j <= n,
                forall|k: int|
                    0 <= k < j ==> instance_id(#[trigger] self.store()[k]) != id@ && !str_lt(
                        id@,
                        instance_id(self.store()[k]),
                    ),
                j < n ==> str_lt(id@, instance_id(self.store()[j as int])),
            decreases n - j,
        {
            if j == n {
                break ;
            }
            let other = self.objects[j].id();
            proof {
                assert(self.store()[j as int] == self.objects@[j as int]@);
            }
            if crate::text::str_eq(other.as_str(), id.as_str()) {
                proof {
                    assert(instance_id(self.store()[j as int]) == id@);
                    assert(contains_id(self.store(), instance_id(inst@)));
                }
                return ;
            }
            if crate::text::str_lt_exec(id.as_str(), other.as_str()) {
                break ;
            }
            j += 1;
        }
        let ghost pre = self.store();
        let ghost newid = instance_id(inst@);
        proof {
            assert forall|k: int| 0 <= k < n implies instance_id(#[trigger] pre[k]) != newid by {
                if k == j {
                    if instance_id(pre[k]) == newid {
                        lemma_str_lt_irrefl(newid);
                    }
                } else if k > j {
                    lemma_str_lt_trans(newid, instance_id(pre[j as int]), instance_id(pre[k]));
                    if instance_id(pre[k]) == newid {
                        lemma_str_lt_irrefl(newid);
                    }
                }
            }
            assert(!contains_id(pre, newid));
            lemma_sorted_insert_position(pre, inst@, j as int);
            self.objects@.insert_ensures(j as int, inst);
        }
        self.objects.insert(j, inst);
        proof {
            assert forall|q: int| 0 <= q < self.store().len() implies #[trigger] self.store()[q]
                == (pre.take(j as int) + seq![inst@] + pre.skip(j as int))[q] by {
                assert(self.store()[q] == self.objects@[q]@);
            }
            assert(self.store() =~= pre.take(j as int) + seq![inst@] + pre.skip(j as int));
            let s = self.store();
            assert forall|a: int, b: int| 0 <= a < b < s.len() implies str_lt(
                instance_id(#[trigger] s[a]),
                instance_id(#[trigger] s[b]),
            ) by {
                if a < j && b < j {
                    assert(s[a] == pre[a]);
                    assert(s[b] == pre[b]);
                } else if a < j && b == j {
                    assert(s[a] == pre[a]);
                    assert(s[b] == inst@);
                    lemma_str_lt_connex(instance_id(pre[a]), newid);
                } else if a < j && b > j {
                    assert(s[a] == pre[a]);
                    assert(s[b] == pre[b - 1]);
                } else if a == j {
                    assert(s[a] == inst@);
                    assert(s[b] == pre[b - 1]);
                    if b - 1 > j {
                        lemma_str_lt_trans(
                            newid,
                            instance_id(pre[j as int]),
                            instance_id(pre[b - 1]),
                        );
                    }
                } else {
                    assert(s[a] == pre[a - 1]);
                    assert(s[b] == pre[b - 1]);
                }
            }
        }
    }

    /// Inserts the instructions in order.
    fn insert_list(&mut self, items: Vec<TailwindInstance>)
        requires
            old(self).wf(),
        ensures
            final(self).wf(),
            final(self).store() == insert_all(old(self).store(), items.deep_view()),
            final(self).preflight_text() == old(self).preflight_text(),
            final(self).obfuscate == old(self).obfuscate,
            final(self).palettes == old(self).palettes,
            final(self).screens == old(self).screens,
            final(self).fonts == old(self).fonts,
    {
        let ghost orig_store = self.store();
        let ghost orig_items = items.deep_view();
        let mut rest = items;
        while rest.len() > 0
            invariant
                self.wf(),
                insert_all(self.store(), rest.deep_view()) == insert_all(orig_store, orig_items),
                self.preflight_text() == old(self).preflight_text(),
                self.obfuscate == old(self).obfuscate,
                self.palettes == old(self).palettes,
                self.screens == old(self).screens,
                self.fonts == old(self).fonts,
                orig_store == old(self).store(),
            decreases rest@.len(),
        {
            let ghost before = rest.deep_view();
            let inst = rest.remove(0);
            proof {
                assert(rest.deep_view() =~= before.drop_first());
                assert(inst@ == before[0]);
            }
            self.insert_instance(inst);
        }
        proof {
            assert(rest.deep_view().len() == 0);
        }
    }

    /// Resolves the styles from index `from` on, in order, stopping at the
    /// first failure.
    fn resolve_list(styles: &Vec<TailwindInstruction>, from: usize) -> (r: Result<
        Vec<TailwindInstance>,
        TailwindError,
    >)
        requires
            from <= styles@.len(),
        ensures
            (r matches Ok(v) ==> Ok::<Seq<InstanceView>, ErrView>(v.deep_view()) == resolve_all(
                styles.deep_view().skip(from as int),
            )),
            (r matches Err(e) ==> Err::<Seq<InstanceView>, ErrView>(e@) == resolve_all(
                styles.deep_view().skip(from as int),
            )),
        decreases styles@.len() - from,
    {
        let n = styles.len();
        if from == n {
            let r: Vec<TailwindInstance> = Vec::new();
            proof {
                assert(styles.deep_view().skip(from as int).len() == 0);
                assert(r.deep_view() =~= Seq::<InstanceView>::empty());
            }
            return Ok(r);
        }
        let ghost tail = styles.deep_view().skip(from as int);
        proof {
            assert(tail[0] == styles.deep_view()[from as int]);
            assert(tail.drop_first() =~= styles.deep_view().skip(from as int + 1));
        }
        let inst = match styles[from].get_instance() {
            Ok(i) => i,
            Err(e) => {
                return Err(e);
            },
        };
        let rest = match Self::resolve_list(styles, from + 1) {
            Ok(v) => v,
            Err(e) => {
                return Err(e);
            },
        };
        let mut out = rest;
        out.insert(0, inst);
        proof {
            assert(out.deep_view() =~= seq![inst@] + resolve_all(tail.drop_first())->Ok_0);
        }
        Ok(out)
    }

    /// Renders the class names of the instructions, in order.
    fn make_ids(items: &Vec<TailwindInstance>) -> (r: Vec<String>)
        ensures
            r.deep_view() == ids_of(items.deep_view()),
    {
        let n = items.len();
        let mut r: Vec<String> = Vec::new();
        let mut i: usize = 0;
        while i < n
            invariant
                n == items@.len(),
                0 <= i <= n,
                r@.len() == i,
                forall|j: int| 0 <= j < i ==> (#[trigger] r@[j])@ == instance_id(
                    items.deep_view()[j],
                ),
            decreases n - i,
        {
            let id = items[i].id();
            r.push(id);
            i += 1;
        }
        proof {
            assert forall|j: int| 0 <= j < r.deep_view().len() implies r.deep_view()[j] == ids_of(
                items.deep_view(),
            )[j] by {
                assert(r.deep_view()[j] == r@[j]@);
            }
            assert(r.deep_view() =~= ids_of(items.deep_view()));
        }
        r
    }

    /// Resolves the class list, stores every instruction (a repeated
    /// identity stays stored once), and gives back the canonical class
    /// names, space-joined in resolution order. The caller must have
    /// validated the input; `try_trace` is the checked form.
    pub fn trace(&mut self, style: &str) -> (r: String)
        requires
            old(self).wf(),
            trace_result(style@) is Ok,
        ensures
            final(self).wf(),
            trace_result(style@) matches Ok(items) && r@ == join_char(ids_of(items), ' ')
                && final(self).store() == insert_all(old(self).store(), items),
            final(self).preflight_text() == old(self).preflight_text(),
            final(self).obfuscate == old(self).obfuscate,
            final(self).palettes == old(self).palettes,
            final(self).screens == old(self).screens,
            final(self).fonts == old(self).fonts,
            forall|x: InstanceView|
                old(self).store().contains(x) ==> final(self).store().contains(x),
    {
        let styles = match tokenize(style) {
            Ok(v) => v,
            Err(_) => {
                return vstd::pervasive::unreached();
            },
        };
        let items = match Self::resolve_list(&styles, 0) {
            Ok(v) => v,
            Err(_) => {
                proof {
                    assert(styles.deep_view().skip(0) =~= styles.deep_view());
                }
                return vstd::pervasive::unreached();
            },
        };
        proof {
            assert(styles.deep_view().skip(0) =~= styles.deep_view());
        }
        let ids = Self::make_ids(&items);
        let out = join_owned(&ids, ' ');
        let ghost pre = self.store();
        let ghost inserted = items.deep_view();
        self.insert_list(items);
        proof {
            assert forall|x: InstanceView| pre.contains(x) implies self.store().contains(x) by {
                lemma_insert_all_preserves(pre, inserted, x);
            }
        }
        out
    }

    /// The checked form of `trace`: validates the class list first and
    /// reports the error instead of requiring a pre-validated input; on an
    /// error the store is left as it was.
    pub fn try_trace(&mut self, style: &str) -> (r: Result<String, TailwindError>)
        requires
            old(self).wf(),
        ensures
            final(self).wf(),
            (r is Ok <==> trace_result(style@) is Ok),
            (r matches Ok(s) ==> trace_result(style@) matches Ok(items) && s@ == join_char(
                ids_of(items),
                ' ',
            ) && final(self).store() == insert_all(old(self).store(), items)),
            (r matches Err(e) ==> trace_result(style@) matches Err(e2) && e@ == e2
                && final(self).store() == old(self).store()),
            final(self).preflight_text() == old(self).preflight_text(),
            final(self).obfuscate == old(self).obfuscate,
            final(self).palettes == old(self).palettes,
            final(self).screens == old(self).screens,
            final(self).fonts == old(self).fonts,
            forall|x: InstanceView|
                old(self).store().contains(x) ==> final(self).store().contains(x),
    {
        let styles = match tokenize(style) {
            Ok(v) => v,
            Err(e) => {
                return Err(e);
            },
        };
        match Self::resolve_list(&styles, 0) {
            Ok(_) => {},
            Err(e) => {
                proof {
                    assert(styles.deep_view().skip(0) =~= styles.deep_view());
                }
                return Err(e);
            },
        }
        proof {
            assert(styles.deep_view().skip(0) =~= styles.deep_view());
        }
        Ok(self.trace(style))
    }

    /// Renders the class list to inlined declarations without storing
    /// anything: every resolved declaration line once, in ascending
    /// lexicographic order, concatenated. The caller must have validated the
    /// input; `try_inline` is the checked form.
    pub fn inline(&mut self, style: &str) -> (r: String)
        requires
            inline_result(style@) is Ok,
        ensures
            r@ == inline_result(style@)->Ok_0,
            *final(self) == *old(self),
    {
        let styles = match tokenize(style) {
            Ok(v) => v,
            Err(_) => {
                return vstd::pervasive::unreached();
            },
        };
        let items = match Self::resolve_list(&styles, 0) {
            Ok(v) => v,
            Err(_) => {
                proof {
                    assert(styles.deep_view().skip(0) =~= styles.deep_view());
                }
                return vstd::pervasive::unreached();
            },
        };
        proof {
            assert(styles.deep_view().skip(0) =~= styles.deep_view());
        }
        // Gather every declaration line in instruction order.
        let n = items.len();
        let mut lines: Vec<String> = Vec::new();
        let mut i: usize = 0;
        while i < n
            invariant
                n == items@.len(),
                0 <= i <= n,
                lines.deep_view() == flat_attrs(items.deep_view().take(i as int)),
            decreases n - i,
        {
            let mut attrs = items[i].attributes();
            let ghost before = lines.deep_view();
            lines.append(&mut attrs);
            proof {
                let pre = items.deep_view().take(i as int);
                let cur = items.deep_view().take(i + 1);
                assert(cur.drop_last() =~= pre);
                assert(cur.last() == items.deep_view()[i as int]);
                assert(lines.deep_view() =~= before + instance_attrs(items.deep_view()[i as int]));
            }
            i += 1;
        }
        proof {
            assert(items.deep_view().take(n as int) =~= items.deep_view());
        }
        // Keep each line once, at its ordered place.
        let mut kept: Vec<String> = Vec::new();
        let mut i2: usize = 0;
        let m = lines.len();
        while i2 < m
            invariant
                m == lines@.len(),
                0 <= i2 <= m,
                kept.deep_view() == dedup_sorted(lines.deep_view().take(i2 as int)),
            decreases m - i2,
        {
            let line = lines[i2].clone();
            let seen = Self::contains_line(&kept, &line);
            let ghost pre = lines.deep_view().take(i2 as int);
            let ghost cur = lines.deep_view().take(i2 + 1);
            proof {
                assert(cur.drop_last() =~= pre);
                assert(cur.last() == lines.deep_view()[i2 as int]);
                assert(line@ == lines.deep_view()[i2 as int]);
            }
            if !seen {
                let ghost before = kept.deep_view();
                let ghost lv = line@;
                let kn = kept.len();
                let mut p: usize = 0;
                loop
                    invariant
                        kn == kept@.len(),
                        0 <= p <= kn,
                        lv == line@,
                        forall|q: int|
                            0 <= q < p ==> !str_lt(lv, #[trigger] kept.deep_view()[q]),
                    ensures
                        0 <= p <= kn,
                        kn == kept@.len(),
                        forall|q: int|
                            0 <= q < p ==> !str_lt(lv, #[trigger] kept.deep_view()[q]),
                        p < kn ==> str_lt(lv, kept.deep_view()[p as int]),
                    decreases kn - p,
                {
                    if p == kn {
                        break ;
                    }
                    proof {
                        assert(kept.deep_view()[p as int] == kept@[p as int]@);
                    }
                    if crate::text::str_lt_exec(line.as_str(), kept[p].as_str()) {
                        break ;
                    }
                    p += 1;
                }
                proof {
                    lemma_sorted_insert_line_position(before, lv, p as int);
                    kept@.insert_ensures(p as int, line);
                }
                kept.insert(p, line);
                proof {
                    assert forall|q: int| 0 <= q < kept.deep_view().len() implies #[trigger] kept
                        .deep_view()[q] == (before.take(p as int) + seq![lv] + before.skip(
                        p as int,
                    ))[q] by {
                        assert(kept.deep_view()[q] == kept@[q]@);
                    }
                    assert(kept.deep_view() =~= before.take(p as int) + seq![lv] + before.skip(
                        p as int,
                    ));
                    assert(kept.deep_view() == sorted_insert_line(before, lv));
                    assert(kept.deep_view() == line_insert(before, lv));
                }
            }
            i2 += 1;
        }
        proof {
            assert(lines.deep_view().take(m as int) =~= lines.deep_view());
        }
        // Concatenate.
        let mut out = String::new();
        let mut i3: usize = 0;
        let k = kept.len();
        while i3 < k
            invariant
                k == kept@.len(),
                0 <= i3 <= k,
                out@ == concat_all(kept.deep_view().take(i3 as int)),
            decreases k - i3,
        {
            out.append(kept[i3].as_str());
            proof {
                let pre = kept.deep_view().take(i3 as int);
                let cur = kept.deep_view().take(i3 + 1);
                assert(cur.drop_last() =~= pre);
                assert(cur.last() == kept.deep_view()[i3 as int]);
            }
            i3 += 1;
        }
        proof {
            assert(kept.deep_view().take(k as int) =~= kept.deep_view());
        }
        out
    }

    /// Whether one of the kept lines equals this one.
    fn contains_line(kept: &Vec<String>, line: &String) -> (r: bool)
        ensures
            r == kept.deep_view().contains(line@),
    {
        let n = kept.len();
        let mut i: usize = 0;
        while i < n
            invariant
                n == kept@.len(),
                0 <= i <= n,
                forall|j: int| 0 <= j < i ==> kept.deep_view()[j] != line@,
            decreases n - i,
        {
            if crate::text::str_eq(kept[i].as_str(), line.as_str()) {
                proof {
                    assert(kept.deep_view()[i as int] == line@);
                }
                return true;
            }
            proof {
                assert(kept.deep_view()[i as int] == kept@[i as int]@);
            }
            i += 1;
        }
        proof {
            if kept.deep_view().contains(line@) {
                let j = choose|j: int|
                    0 <= j < kept.deep_view().len() && kept.deep_view()[j] == line@;
                assert(kept.deep_view()[j] != line@);
            }
        }
        false
    }

    /// The checked form of `inline`: validates the class list first and
    /// reports the error instead of requiring a pre-validated input.
    pub fn try_inline(&mut self, style: &str) -> (r: Result<String, TailwindError>)
        ensures
            (r is Ok <==> inline_result(style@) is Ok),
            (r matches Ok(s) ==> Ok::<Seq<char>, ErrView>(s@) == inline_result(style@)),
            (r matches Err(e) ==> Err::<Seq<char>, ErrView>(e@) == inline_result(style@)),
            *final(self) == *old(self),
    {
        let styles = match tokenize(style) {
            Ok(v) => v,
            Err(e) => {
                return Err(e);
            },
        };
        match Self::resolve_list(&styles, 0) {
            Ok(_) => {},
            Err(e) => {
                proof {
                    assert(styles.deep_view().skip(0) =~= styles.deep_view());
                }
                return Err(e);
            },
        }
        proof {
            assert(styles.deep_view().skip(0) =~= styles.deep_view());
        }
        Ok(self.inline(style))
    }

    /// Renders the stylesheet: the preflight text first, then one rule block
    /// per stored instruction, in store order. Reads the session without
    /// changing it and may be called repeatedly.
    pub fn bundle(&self) -> (r: String)
        ensures
            r@ == bundle_text(self.preflight_text(), self.store()),
    {
        match self.try_bundle(10 * 1024) {
            Ok(s) => s,
            Err(_) => vstd::pervasive::unreached(),
        }
    }

    /// The `Result` form of `bundle`; rendering itself cannot fail.
    pub fn try_bundle(&self, cap: usize) -> (r: Result<String, TailwindError>)
        ensures
            r matches Ok(s) && s@ == bundle_text(self.preflight_text(), self.store()),
    {
        let mut out = String::new();
        reserve_hint(&mut out, cap);
        out.append(self.preflight.as_str());
        let n = self.objects.len();
        let mut i: usize = 0;
        while i < n
            invariant
                n == self.objects@.len(),
                0 <= i <= n,
                out@ == bundle_text(self.preflight_text(), self.store().take(i as int)),
            decreases n - i,
        {
            let inst = &self.objects[i];
            proof {
                assert(inst@ == self.store()[i as int]);
            }
            let id = inst.id();
            let esc = escape_ident(id.as_str());
            push_char(&mut out, '.');
            out.append(esc.as_str());
            push_char(&mut out, '{');
            let attrs = inst.attributes();
            let k = attrs.len();
            let mut j: usize = 0;
            let ghost base = out@;
            while j < k
                invariant
                    k == attrs@.len(),
                    0 <= j <= k,
                    attrs.deep_view() == instance_attrs(self.store()[i as int]),
                    out@ == base + concat_all(attrs.deep_view().take(j as int)),
                decreases k - j,
            {
                out.append(attrs[j].as_str());
                proof {
                    let pre = attrs.deep_view().take(j as int);
                    let cur = attrs.deep_view().take(j + 1);
                    assert(cur.drop_last() =~= pre);
                    assert(cur.last() == attrs.deep_view()[j as int]);
                }
                j += 1;
            }
            push_char(&mut out, '}');
            push_char(&mut out, '\n');
            proof {
                assert(attrs.deep_view().take(k as int) =~= attrs.deep_view());
                let pre = self.store().take(i as int);
                let cur = self.store().take(i + 1);
                assert(cur.drop_last() =~= pre);
                assert(cur.last() == self.store()[i as int]);
                assert(out@ =~= bundle_text(self.preflight_text(), cur));
            }
            i += 1;
        }
        proof {
            assert(self.store().take(n as int) =~= self.store());
        }
        Ok(out)
    }

    /// Reserved entry of the session API; it resolves nothing yet.
    #[allow(unused_variables)]
    pub fn scope(&self, style: &str) {
    }

    /// Reserved entry of the session API.
    pub fn try_scope() {
    }

    /// Reserved entry of the session API.
    pub fn dataset() {
    }
}

/// Relies on String::reserve: asks for capacity and changes no contents.
#[verifier::external_body]
fn reserve_hint(s: &mut String, additional: usize)
    ensures
        final(s)@ == old(s)@,
{
    s.reserve(additional);
}

} // verus!
