use vstd::prelude::*;

verus! {

// ---------------------------------------------------------------------------
// Spec-level text model: joining, concatenation, digits, trimming, splitting.
// ---------------------------------------------------------------------------

/// The views of a sequence of string slices.
pub open spec fn views_of(parts: Seq<&str>) -> Seq<Seq<char>> {
    parts.map_values(|s: &str| s@)
}

/// Parts joined with a single separator character between consecutive parts.
pub open spec fn join_char(parts: Seq<Seq<char>>, sep: char) -> Seq<char>
    decreases parts.len(),
{
    if parts.len() == 0 {
        Seq::empty()
    } else if parts.len() == 1 {
        parts[0]
    } else {
        parts[0] + seq![sep] + join_char(parts.drop_first(), sep)
    }
}

/// All parts concatenated, in order, with nothing between them.
pub open spec fn concat_all(parts: Seq<Seq<char>>) -> Seq<char>
    decreases parts.len(),
{
    if parts.len() == 0 {
        Seq::empty()
    } else {
        concat_all(parts.drop_last()) + parts.last()
    }
}

pub open spec fn is_digit(c: char) -> bool {
    48 <= c as int && c as int <= 57
}

pub open spec fn digit_val(c: char) -> nat {
    (c as int - 48) as nat
}

pub open spec fn digit_char(d: nat) -> char {
    ((d + 48) as u8) as char
}

pub open spec fn all_digits(s: Seq<char>) -> bool {
    forall|i: int| 0 <= i < s.len() ==> is_digit(#[trigger] s[i])
}

/// The value of a string of decimal digits, most significant first.
pub open spec fn digits_val(s: Seq<char>) -> nat
    decreases s.len(),
{
    if s.len() == 0 {
        0
    } else {
        digits_val(s.drop_last()) * 10 + digit_val(s.last())
    }
}

/// How many decimal digits the string starts with.
pub open spec fn digit_prefix_len(s: Seq<char>) -> nat
    decreases s.len(),
{
    if s.len() == 0 || !is_digit(s[0]) {
        0
    } else {
        1 + digit_prefix_len(s.drop_first())
    }
}

/// The decimal rendering of a number, without leading zeros (except for 0).
pub open spec fn dec_rep(n: nat) -> Seq<char>
    decreases n,
{
    if n < 10 {
        seq![digit_char(n)]
    } else {
        dec_rep(n / 10).push(digit_char(n % 10))
    }
}

pub open spec fn is_space(c: char) -> bool {
    c == ' ' || c == '\t' || c == '\r' || c == '\n'
}

pub open spec fn ltrim(s: Seq<char>) -> Seq<char>
    decreases s.len(),
{
    if s.len() > 0 && is_space(s[0]) {
        ltrim(s.drop_first())
    } else {
        s
    }
}

pub open spec fn rtrim(s: Seq<char>) -> Seq<char>
    decreases s.len(),
{
    if s.len() > 0 && is_space(s.last()) {
        rtrim(s.drop_last())
    } else {
        s
    }
}

/// The string with leading and trailing whitespace removed.
pub open spec fn trim_spec(s: Seq<char>) -> Seq<char> {
    rtrim(ltrim(s))
}

/// The string split at every occurrence of `sep`; separators are dropped and
/// empty segments are kept, so the result always has one more segment than
/// the string has separators.
pub open spec fn split_char(s: Seq<char>, sep: char) -> Seq<Seq<char>>
    decreases s.len(),
{
    if s.len() == 0 {
        seq![Seq::empty()]
    } else if s[0] == sep {
        seq![Seq::<char>::empty()] + split_char(s.drop_first(), sep)
    } else {
        let rest = split_char(s.drop_first(), sep);
        seq![seq![s[0]] + rest[0]] + rest.drop_first()
    }
}

pub proof fn lemma_split_char_nonempty(s: Seq<char>, sep: char)
    ensures
        split_char(s, sep).len() >= 1,
    decreases s.len(),
{
    if s.len() != 0 && s[0] != sep {
        lemma_split_char_nonempty(s.drop_first(), sep);
    }
}

/// A character that may stand unescaped in a CSS identifier.
pub open spec fn ident_ok(c: char) -> bool {
    (97 <= c as int && c as int <= 122) || (65 <= c as int && c as int <= 90) || is_digit(c)
        || c == '-' || c == '_'
}

pub open spec fn escape_char(c: char) -> Seq<char> {
    if ident_ok(c) {
        seq![c]
    } else {
        seq!['\\', c]
    }
}

/// Each character kept, with a backslash written before every character that
/// may not stand in a CSS identifier.
pub open spec fn escape_seq(s: Seq<char>) -> Seq<char>
    decreases s.len(),
{
    if s.len() == 0 {
        Seq::empty()
    } else {
        escape_char(s[0]) + escape_seq(s.drop_first())
    }
}

// ---------------------------------------------------------------------------
// Executable text utilities.
// ---------------------------------------------------------------------------

/// Relies on String::push: appends exactly one character at the end.
#[verifier::external_body]
pub fn push_char(s: &mut String, c: char)
    ensures
        final(s)@ == old(s)@.push(c),
{
    s.push(c);
}

/// Compares two string slices character by character.
pub fn str_eq(a: &str, b: &str) -> (r: bool)
    ensures
        r == (a@ == b@),
{
    let alen = a.unicode_len();
    let blen = b.unicode_len();
    if alen != blen {
        proof {
            assert(a@.len() != b@.len());
        }
        return false;
    }
    let mut i: usize = 0;
    while i < alen
        invariant
            alen == a@.len(),
            alen == b@.len(),
            0 <= i <= alen,
            forall|j: int| 0 <= j < i ==> a@[j] == b@[j],
        decreases alen - i,
    {
        if a.get_char(i) != b.get_char(i) {
            return false;
        }
        i += 1;
    }
    proof {
        assert(a@ =~= b@);
    }
    true
}

/// Whether the string contains the given character.
pub fn contains_char(s: &str, c: char) -> (r: bool)
    ensures
        r == s@.contains(c),
{
    let len = s.unicode_len();
    let mut i: usize = 0;
    while i < len
        invariant
            len == s@.len(),
            0 <= i <= len,
            forall|j: int| 0 <= j < i ==> s@[j] != c,
        decreases len - i,
    {
        if s.get_char(i) == c {
            proof {
                assert(s@.contains(c)) by {
                    assert(s@[i as int] == c);
                }
            }
            return true;
        }
        i += 1;
    }
    proof {
        assert(!s@.contains(c)) by {
            if s@.contains(c) {
                let j = choose|j: int| 0 <= j < s@.len() && s@[j] == c;
                assert(s@[j] != c);
            }
        }
    }
    false
}

/// Joins the slices from index `from` on with the separator character.
fn join_strs_from(parts: &[&str], from: usize, sep: char) -> (r: String)
    requires
        from <= parts@.len(),
    ensures
        r@ == join_char(views_of(parts@).skip(from as int), sep),
    decreases parts@.len() - from,
{
    let n = parts.len();
    if from == n {
        let r = String::new();
        proof {
            assert(views_of(parts@).skip(from as int).len() == 0);
        }
        r
    } else if from + 1 == n {
        let piece: &&str = vstd::slice::slice_index_get(parts, from);
        let r = String::from_str(*piece);
        proof {
            assert(views_of(parts@).skip(from as int).len() == 1);
            assert(views_of(parts@).skip(from as int)[0] == parts@[from as int]@);
        }
        r
    } else {
        let piece: &&str = vstd::slice::slice_index_get(parts, from);
        let mut r = String::from_str(*piece);
        push_char(&mut r, sep);
        let rest = join_strs_from(parts, from + 1, sep);
        r.append(rest.as_str());
        proof {
            let vs = views_of(parts@).skip(from as int);
            assert(vs.len() >= 2);
            assert(vs[0] == parts@[from as int]@);
            assert(vs.drop_first() =~= views_of(parts@).skip(from as int + 1));
            assert(r@ =~= vs[0] + seq![sep] + join_char(vs.drop_first(), sep));
        }
        r
    }
}

/// Joins the slices with the separator character between consecutive parts.
pub fn join_strs(parts: &[&str], sep: char) -> (r: String)
    ensures
        r@ == join_char(views_of(parts@), sep),
{
    let r = join_strs_from(parts, 0, sep);
    proof {
        assert(views_of(parts@).skip(0) =~= views_of(parts@));
    }
    r
}

/// Joins owned strings from index `from` on with the separator character.
fn join_owned_from(parts: &Vec<String>, from: usize, sep: char) -> (r: String)
    requires
        from <= parts@.len(),
    ensures
        r@ == join_char(parts.deep_view().skip(from as int), sep),
    decreases parts@.len() - from,
{
    let n = parts.len();
    if from == n {
        let r = String::new();
        proof {
            assert(parts.deep_view().skip(from as int).len() == 0);
        }
        r
    } else if from + 1 == n {
        let r = String::from_str(parts[from].as_str());
        proof {
            assert(parts.deep_view().skip(from as int).len() == 1);
            assert(parts.deep_view().skip(from as int)[0] == parts@[from as int]@);
        }
        r
    } else {
        let mut r = String::from_str(parts[from].as_str());
        push_char(&mut r, sep);
        let rest = join_owned_from(parts, from + 1, sep);
        r.append(rest.as_str());
        proof {
            let vs = parts.deep_view().skip(from as int);
            assert(vs.len() >= 2);
            assert(vs[0] == parts@[from as int]@);
            assert(vs.drop_first() =~= parts.deep_view().skip(from as int + 1));
            assert(r@ =~= vs[0] + seq![sep] + join_char(vs.drop_first(), sep));
        }
        r
    }
}

/// Joins owned strings with the separator character between consecutive parts.
pub fn join_owned(parts: &Vec<String>, sep: char) -> (r: String)
    ensures
        r@ == join_char(parts.deep_view(), sep),
{
    let r = join_owned_from(parts, 0, sep);
    proof {
        assert(parts.deep_view().skip(0) =~= parts.deep_view());
    }
    r
}

fn digit_to_char(d: u32) -> (c: char)
    requires
        d < 10,
    ensures
        c == digit_char(d as nat),
        is_digit(c),
{
    ((d as u8) + 48) as char
}

/// Renders a number in decimal, without leading zeros.
pub fn render_u32(n: u32) -> (r: String)
    ensures
        r@ == dec_rep(n as nat),
    decreases n,
{
    if n < 10 {
        let mut s = String::new();
        push_char(&mut s, digit_to_char(n));
        proof {
            assert(s@ =~= dec_rep(n as nat));
        }
        s
    } else {
        let mut s = render_u32(n / 10);
        push_char(&mut s, digit_to_char(n % 10));
        proof {
            assert(s@ =~= dec_rep(n as nat));
        }
        s
    }
}

pub proof fn lemma_digits_val_snoc(s: Seq<char>, i: int)
    requires
        0 <= i < s.len(),
    ensures
        digits_val(s.take(i + 1)) == digits_val(s.take(i)) * 10 + digit_val(s[i]),
{
    assert(s.take(i + 1).drop_last() =~= s.take(i));
    assert(s.take(i + 1).last() == s[i]);
}

pub proof fn lemma_digits_val_mono(s: Seq<char>, i: int, j: int)
    requires
        0 <= i <= j <= s.len(),
    ensures
        digits_val(s.take(i)) <= digits_val(s.take(j)),
    decreases j - i,
{
    if i < j {
        lemma_digits_val_mono(s, i, j - 1);
        lemma_digits_val_snoc(s, j - 1);
        assert(digits_val(s.take(j - 1)) * 10 >= digits_val(s.take(j - 1))) by (nonlinear_arith);
    }
}

/// Reads the decimal value of `s[from..to]`, whose characters must all be
/// digits; answers None exactly when the value exceeds `bound`.
pub fn parse_digits_bounded(s: &str, from: usize, to: usize, bound: u64) -> (r: Option<u64>)
    requires
        from <= to <= s@.len(),
        forall|j: int| from <= j < to ==> is_digit(#[trigger] s@[j]),
    ensures
        match r {
            Some(v) => v as nat == digits_val(s@.subrange(from as int, to as int)) && v <= bound,
            None => digits_val(s@.subrange(from as int, to as int)) > bound,
        },
{
    let ghost digits = s@.subrange(from as int, to as int);
    let mut acc: u128 = 0;
    let mut i: usize = from;
    while i < to
        invariant
            from <= i <= to <= s@.len(),
            forall|j: int| from <= j < to ==> is_digit(#[trigger] s@[j]),
            digits == s@.subrange(from as int, to as int),
            acc as nat == digits_val(digits.take(i - from)),
            acc <= bound,
        decreases to - i,
    {
        let c = s.get_char(i);
        let d: u32 = (c as u32) - 48;
        proof {
            assert(is_digit(s@[i as int]));
            assert(digits[i - from] == s@[i as int]);
            lemma_digits_val_snoc(digits, i - from);
        }
        let next: u128 = acc * 10 + (d as u128);
        if next > (bound as u128) {
            proof {
                assert(digits_val(digits.take(i - from + 1)) > bound);
                lemma_digits_val_mono(digits, i - from + 1, digits.len() as int);
                assert(digits.take(digits.len() as int) =~= digits);
            }
            return None;
        }
        acc = next;
        i += 1;
    }
    proof {
        assert(digits.take(to - from) =~= digits);
    }
    Some(acc as u64)
}

pub proof fn lemma_digit_prefix_len_from(s: Seq<char>, k: int)
    requires
        0 <= k <= s.len(),
        forall|j: int| 0 <= j < k ==> is_digit(#[trigger] s[j]),
        k < s.len() ==> !is_digit(s[k]),
    ensures
        digit_prefix_len(s) == k,
    decreases k,
{
    if k == 0 {
    } else {
        assert(is_digit(s[0]));
        let t = s.drop_first();
        assert forall|j: int| 0 <= j < k - 1 implies is_digit(#[trigger] t[j]) by {
            assert(t[j] == s[j + 1]);
        }
        lemma_digit_prefix_len_from(t, k - 1);
    }
}

/// Finds how many decimal digits the string starts with.
pub fn digit_prefix(s: &str) -> (k: usize)
    ensures
        k as nat == digit_prefix_len(s@),
        k <= s@.len(),
        forall|j: int| 0 <= j < k ==> is_digit(#[trigger] s@[j]),
        k < s@.len() ==> !is_digit(s@[k as int]),
{
    let len = s.unicode_len();
    let mut i: usize = 0;
    loop
        invariant
            len == s@.len(),
            0 <= i <= len,
            forall|j: int| 0 <= j < i ==> is_digit(#[trigger] s@[j]),
        decreases len - i,
    {
        if i == len {
            proof {
                lemma_digit_prefix_len_from(s@, i as int);
            }
            return i;
        }
        let c = s.get_char(i);
        let code = c as u32;
        if code < 48 || code > 57 {
            proof {
                lemma_digit_prefix_len_from(s@, i as int);
            }
            return i;
        }
        i += 1;
    }
}

proof fn lemma_ltrim_at(s: Seq<char>, a: int)
    requires
        0 <= a <= s.len(),
        forall|j: int| 0 <= j < a ==> is_space(#[trigger] s[j]),
        a < s.len() ==> !is_space(s[a]),
    ensures
        ltrim(s) == s.skip(a),
    decreases a,
{
    if a == 0 {
        assert(s.skip(0) =~= s);
    } else {
        assert(is_space(s[0]));
        let t = s.drop_first();
        assert forall|j: int| 0 <= j < a - 1 implies is_space(#[trigger] t[j]) by {
            assert(t[j] == s[j + 1]);
        }
        lemma_ltrim_at(t, a - 1);
        assert(t.skip(a - 1) =~= s.skip(a));
    }
}

proof fn lemma_rtrim_at(s: Seq<char>, k: int)
    requires
        0 <= k <= s.len(),
        forall|j: int| k <= j < s.len() ==> is_space(#[trigger] s[j]),
        k > 0 ==> !is_space(s[k - 1]),
    ensures
        rtrim(s) == s.take(k),
    decreases s.len() - k,
{
    if k == s.len() {
        assert(s.take(k) =~= s);
    } else {
        assert(is_space(s.last()));
        let t = s.drop_last();
        assert forall|j: int| k <= j < t.len() implies is_space(#[trigger] t[j]) by {
            assert(t[j] == s[j]);
        }
        lemma_rtrim_at(t, k);
        assert(t.take(k) =~= s.take(k));
    }
}

/// Copies the string with leading and trailing whitespace removed.
pub fn trim_str(s: &str) -> (r: String)
    ensures
        r@ == trim_spec(s@),
{
    let len = s.unicode_len();
    let mut a: usize = 0;
    loop
        invariant
            len == s@.len(),
            0 <= a <= len,
            forall|j: int| 0 <= j < a ==> is_space(#[trigger] s@[j]),
        ensures
            0 <= a <= len,
            forall|j: int| 0 <= j < a ==> is_space(#[trigger] s@[j]),
            a < len ==> !is_space(s@[a as int]),
        decreases len - a,
    {
        if a == len {
            break;
        }
        let c = s.get_char(a);
        if !(c == ' ' || c == '\t' || c == '\r' || c == '\n') {
            break;
        }
        a += 1;
    }
    proof {
        lemma_ltrim_at(s@, a as int);
    }
    // Scan back over trailing whitespace of the remainder.
    let mut b: usize = len;
    loop
        invariant
            len == s@.len(),
            a <= b <= len,
            a < len ==> !is_space(s@[a as int]),
            forall|j: int| b <= j < len ==> is_space(#[trigger] s@[j]),
        ensures
            a <= b <= len,
            forall|j: int| b <= j < len ==> is_space(#[trigger] s@[j]),
            b > a ==> !is_space(s@[b - 1]),
        decreases b - a,
    {
        if b == a {
            break;
        }
        let c = s.get_char(b - 1);
        if !(c == ' ' || c == '\t' || c == '\r' || c == '\n') {
            break;
        }
        b -= 1;
    }
    let piece = s.substring_char(a, b);
    let r = String::from_str(piece);
    proof {
        let t = s@.skip(a as int);
        assert forall|j: int| (b - a) <= j < t.len() implies is_space(#[trigger] t[j]) by {
            assert(t[j] == s@[j + a]);
        }
        if b > a {
            assert(t[b - a - 1] == s@[b as int - 1]);
        }
        lemma_rtrim_at(t, b - a);
        assert(t.take(b - a) =~= s@.subrange(a as int, b as int));
        assert(r@ == trim_spec(s@));
    }
    r
}

/// Splits the string from index `i` on at every `sep`.
fn split_str_from(s: &str, i: usize, sep: char) -> (r: Vec<String>)
    requires
        i <= s@.len(),
    ensures
        r.deep_view() == split_char(s@.skip(i as int), sep),
        r@.len() >= 1,
    decreases s@.len() - i,
{
    let len = s.unicode_len();
    if i == len {
        let mut r: Vec<String> = Vec::new();
        r.push(String::new());
        proof {
            assert(s@.skip(i as int).len() == 0);
            assert(r.deep_view() =~= split_char(s@.skip(i as int), sep));
        }
        return r;
    }
    let c = s.get_char(i);
    let mut rest = split_str_from(s, i + 1, sep);
    proof {
        assert(s@.skip(i as int).drop_first() =~= s@.skip(i as int + 1));
        assert(s@.skip(i as int)[0] == s@[i as int]);
        lemma_split_char_nonempty(s@.skip(i as int + 1), sep);
    }
    if c == sep {
        let mut r: Vec<String> = Vec::new();
        r.push(String::new());
        r.append(&mut rest);
        proof {
            assert(r.deep_view() =~= split_char(s@.skip(i as int), sep));
        }
        r
    } else {
        let head = rest.remove(0);
        let mut piece = String::new();
        push_char(&mut piece, c);
        piece.append(head.as_str());
        rest.insert(0, piece);
        proof {
            let whole = split_char(s@.skip(i as int), sep);
            let sub = split_char(s@.skip(i as int + 1), sep);
            assert(whole == seq![seq![s@[i as int]] + sub[0]] + sub.drop_first());
            assert(piece@ =~= seq![s@[i as int]] + sub[0]);
            assert(rest.deep_view() =~= whole);
        }
        rest
    }
}

/// Splits the string at every `sep`; empty segments are kept.
pub fn split_str(s: &str, sep: char) -> (r: Vec<String>)
    ensures
        r.deep_view() == split_char(s@, sep),
        r@.len() >= 1,
{
    let r = split_str_from(s, 0, sep);
    proof {
        assert(s@.skip(0) =~= s@);
    }
    r
}

/// Escapes the string from index `i` on for use in a CSS selector.
fn escape_from(s: &str, i: usize) -> (r: String)
    requires
        i <= s@.len(),
    ensures
        r@ == escape_seq(s@.skip(i as int)),
    decreases s@.len() - i,
{
    let len = s.unicode_len();
    if i == len {
        let r = String::new();
        proof {
            assert(s@.skip(i as int).len() == 0);
        }
        return r;
    }
    let c = s.get_char(i);
    let code = c as u32;
    let ok = (97 <= code && code <= 122) || (65 <= code && code <= 90) || (48 <= code && code
        <= 57) || c == '-' || c == '_';
    let rest = escape_from(s, i + 1);
    let mut r = String::new();
    if !ok {
        push_char(&mut r, '\\');
    }
    push_char(&mut r, c);
    r.append(rest.as_str());
    proof {
        assert(s@.skip(i as int)[0] == s@[i as int]);
        assert(s@.skip(i as int).drop_first() =~= s@.skip(i as int + 1));
        assert(ok == ident_ok(s@[i as int]));
        assert(r@ =~= escape_char(s@[i as int]) + escape_seq(s@.skip(i as int + 1)));
    }
    r
}

/// Escapes every character that may not stand in a CSS identifier.
pub fn escape_ident(s: &str) -> (r: String)
    ensures
        r@ == escape_seq(s@),
{
    let r = escape_from(s, 0);
    proof {
        assert(s@.skip(0) =~= s@);
    }
    r
}


/// Lexicographic order on strings, by character code point; on ASCII text it
/// is the order Rust's own string comparison gives.
pub open spec fn str_lt(a: Seq<char>, b: Seq<char>) -> bool
    decreases a.len(),
{
    if b.len() == 0 {
        false
    } else if a.len() == 0 {
        true
    } else if a[0] != b[0] {
        (a[0] as int) < (b[0] as int)
    } else {
        str_lt(a.drop_first(), b.drop_first())
    }
}

pub proof fn lemma_str_lt_irrefl(a: Seq<char>)
    ensures
        !str_lt(a, a),
    decreases a.len(),
{
    if a.len() > 0 {
        lemma_str_lt_irrefl(a.drop_first());
    }
}

pub proof fn lemma_str_lt_trans(a: Seq<char>, b: Seq<char>, c: Seq<char>)
    requires
        str_lt(a, b),
        str_lt(b, c),
    ensures
        str_lt(a, c),
    decreases a.len(),
{
    if a.len() > 0 && b.len() > 0 && c.len() > 0 && a[0] == b[0] && b[0] == c[0] {
        lemma_str_lt_trans(a.drop_first(), b.drop_first(), c.drop_first());
    }
}

pub proof fn lemma_str_lt_connex(a: Seq<char>, b: Seq<char>)
    ensures
        a == b || str_lt(a, b) || str_lt(b, a),
    decreases a.len(),
{
    if a.len() == 0 && b.len() == 0 {
        assert(a =~= b);
    } else if a.len() > 0 && b.len() > 0 && a[0] == b[0] {
        lemma_str_lt_connex(a.drop_first(), b.drop_first());
        if a.drop_first() == b.drop_first() {
            assert forall|j: int| 0 <= j < a.len() implies a[j] == b[j] by {
                if j > 0 {
                    assert(a[j] == a.drop_first()[j - 1]);
                    assert(b[j] == b.drop_first()[j - 1]);
                }
            }
            assert(a =~= b);
        }
    }
}

/// Compares two string slices from index `i` on, in the lexicographic order.
fn str_lt_from(a: &str, b: &str, i: usize) -> (r: bool)
    requires
        i <= a@.len(),
        i <= b@.len(),
    ensures
        r == str_lt(a@.skip(i as int), b@.skip(i as int)),
    decreases a@.len() - i,
{
    if i == b.unicode_len() {
        false
    } else if i == a.unicode_len() {
        true
    } else {
        let ca = a.get_char(i);
        let cb = b.get_char(i);
        proof {
            assert(a@.skip(i as int)[0] == a@[i as int]);
            assert(b@.skip(i as int)[0] == b@[i as int]);
            assert(a@.skip(i as int).drop_first() =~= a@.skip(i as int + 1));
            assert(b@.skip(i as int).drop_first() =~= b@.skip(i as int + 1));
        }
        if ca != cb {
            (ca as u32) < (cb as u32)
        } else {
            str_lt_from(a, b, i + 1)
        }
    }
}

/// Whether `a` comes strictly before `b` in the lexicographic order.
pub fn str_lt_exec(a: &str, b: &str) -> (r: bool)
    ensures
        r == str_lt(a@, b@),
{
    let r = str_lt_from(a, b, 0);
    proof {
        assert(a@.skip(0) =~= a@);
        assert(b@.skip(0) =~= b@);
    }
    r
}

/// A line placed into an already gathered list at its ordered position.
pub open spec fn sorted_insert_line(acc: Seq<Seq<char>>, l: Seq<char>) -> Seq<Seq<char>>
    decreases acc.len(),
{
    if acc.len() == 0 {
        seq![l]
    } else if str_lt(l, acc[0]) {
        seq![l] + acc
    } else {
        seq![acc[0]] + sorted_insert_line(acc.drop_first(), l)
    }
}

/// A line added unless already present.
pub open spec fn line_insert(acc: Seq<Seq<char>>, l: Seq<char>) -> Seq<Seq<char>> {
    if acc.contains(l) {
        acc
    } else {
        sorted_insert_line(acc, l)
    }
}

/// The lines with duplicates dropped and the remainder in ascending
/// lexicographic order.
pub open spec fn dedup_sorted(lines: Seq<Seq<char>>) -> Seq<Seq<char>>
    decreases lines.len(),
{
    if lines.len() == 0 {
        Seq::empty()
    } else {
        line_insert(dedup_sorted(lines.drop_last()), lines.last())
    }
}

pub proof fn lemma_sorted_insert_line_position(acc: Seq<Seq<char>>, l: Seq<char>, p: int)
    requires
        0 <= p <= acc.len(),
        forall|j: int| 0 <= j < p ==> !str_lt(l, #[trigger] acc[j]),
        p < acc.len() ==> str_lt(l, acc[p]),
    ensures
        sorted_insert_line(acc, l) == acc.take(p) + seq![l] + acc.skip(p),
    decreases p,
{
    if p == 0 {
        if acc.len() == 0 {
            assert(sorted_insert_line(acc, l) =~= acc.take(0) + seq![l] + acc.skip(0));
        } else {
            assert(sorted_insert_line(acc, l) =~= acc.take(0) + seq![l] + acc.skip(0));
        }
    } else {
        assert(!str_lt(l, acc[0]));
        let t = acc.drop_first();
        assert forall|j: int| 0 <= j < p - 1 implies !str_lt(l, #[trigger] t[j]) by {
            assert(t[j] == acc[j + 1]);
        }
        if p - 1 < t.len() {
            assert(t[p - 1] == acc[p]);
        }
        lemma_sorted_insert_line_position(t, l, p - 1);
        assert(seq![acc[0]] + (t.take(p - 1) + seq![l] + t.skip(p - 1)) =~= acc.take(p) + seq![l]
            + acc.skip(p));
    }
}

} // verus!
