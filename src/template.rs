use vstd::prelude::*;
use crate::text::{
    all_digits, digit_free, digit_free_exec, is_digit, matches_at, matches_at_exec, occurs,
    occurs_exec, same_text,
};

verus! {

/// The character of a decimal digit.
pub open spec fn digit_char(d: nat) -> char {
    if d == 0 { '0' }
    else if d == 1 { '1' }
    else if d == 2 { '2' }
    else if d == 3 { '3' }
    else if d == 4 { '4' }
    else if d == 5 { '5' }
    else if d == 6 { '6' }
    else if d == 7 { '7' }
    else if d == 8 { '8' }
    else { '9' }
}

/// The decimal notation of `n`, without sign or leading zeros.
pub open spec fn decimal(n: nat) -> Seq<char>
    decreases n,
{
    if n < 10 {
        seq![digit_char(n)]
    } else {
        decimal(n / 10).push(digit_char(n % 10))
    }
}

pub open spec fn starts_with(t: Seq<char>, w: Seq<char>) -> bool {
    w.len() <= t.len() && t.subrange(0, w.len() as int) == w
}

/// `t` with every occurrence of `a` replaced by `x` and of `b` by `y`,
/// scanning left to right and trying `a` before `b` at each position.
pub open spec fn fill(t: Seq<char>, a: Seq<char>, x: Seq<char>, b: Seq<char>, y: Seq<char>) -> Seq<char>
    decreases t.len(),
{
    if t.len() == 0 {
        seq![]
    } else if a.len() > 0 && starts_with(t, a) {
        x + fill(t.subrange(a.len() as int, t.len() as int), a, x, b, y)
    } else if b.len() > 0 && starts_with(t, b) {
        y + fill(t.subrange(b.len() as int, t.len() as int), a, x, b, y)
    } else {
        seq![t[0]] + fill(t.subrange(1, t.len() as int), a, x, b, y)
    }
}

/// Placeholder tokens that substitution can always eliminate: non-empty,
/// distinct, and free of digits (the substituted values are digits).
pub open spec fn placeholders_ok(a: Seq<char>, b: Seq<char>) -> bool {
    a.len() > 0 && b.len() > 0 && a != b && digit_free(a) && digit_free(b)
}

/// One point of the two-dimensional identifier space.
#[derive(Clone, Copy, Debug, PartialEq, Eq, Structural)]
pub struct CandidateKey {
    pub inner: u32,
    pub outer: u32,
}

/// Why a template was refused.
#[derive(Clone, Copy, Debug, PartialEq, Eq, Structural)]
pub enum TemplateError {
    /// A placeholder token is empty, holds a digit, or both are the same.
    BadPlaceholder,
    /// The inner placeholder does not occur in the template.
    MissingInner,
    /// The outer placeholder does not occur in the template.
    MissingOuter,
}

/// A URL template with an inner and an outer placeholder token.
pub struct UrlTemplate {
    text: String,
    inner_token: String,
    outer_token: String,
}

impl UrlTemplate {
    pub closed spec fn text_view(&self) -> Seq<char> {
        self.text@
    }

    pub closed spec fn inner_view(&self) -> Seq<char> {
        self.inner_token@
    }

    pub closed spec fn outer_view(&self) -> Seq<char> {
        self.outer_token@
    }

    pub open spec fn wf(&self) -> bool {
        placeholders_ok(self.inner_view(), self.outer_view())
            && occurs(self.text_view(), self.inner_view())
            && occurs(self.text_view(), self.outer_view())
    }

    /// The URL that `key` identifies.
    pub open spec fn url_of(&self, key: CandidateKey) -> Seq<char> {
        fill(
            self.text_view(),
            self.inner_view(),
            decimal(key.inner as nat),
            self.outer_view(),
            decimal(key.outer as nat),
        )
    }

    /// Checks the template and its placeholder tokens.
    pub fn new(text: &str, inner_token: &str, outer_token: &str) -> (r: Result<UrlTemplate, TemplateError>)
        ensures
            !placeholders_ok(inner_token@, outer_token@) <==> r == Err::<UrlTemplate, TemplateError>(TemplateError::BadPlaceholder),
            placeholders_ok(inner_token@, outer_token@) && !occurs(text@, inner_token@)
                <==> r == Err::<UrlTemplate, TemplateError>(TemplateError::MissingInner),
            placeholders_ok(inner_token@, outer_token@) && occurs(text@, inner_token@) && !occurs(text@, outer_token@)
                <==> r == Err::<UrlTemplate, TemplateError>(TemplateError::MissingOuter),
            r is Ok ==> {
                &&& r->Ok_0.wf()
                &&& r->Ok_0.text_view() == text@
                &&& r->Ok_0.inner_view() == inner_token@
                &&& r->Ok_0.outer_view() == outer_token@
            },
    {
        let ok = inner_token.unicode_len() > 0 && outer_token.unicode_len() > 0
            && !same_text(inner_token, outer_token) && digit_free_exec(inner_token)
            && digit_free_exec(outer_token);
        if !ok {
            return Err(TemplateError::BadPlaceholder);
        }
        if !occurs_exec(text, inner_token) {
            return Err(TemplateError::MissingInner);
        }
        if !occurs_exec(text, outer_token) {
            return Err(TemplateError::MissingOuter);
        }
        Ok(UrlTemplate {
            text: String::from_str(text),
            inner_token: String::from_str(inner_token),
            outer_token: String::from_str(outer_token),
        })
    }

    /// The URL that `key` identifies: both placeholders replaced by the
    /// decimal notation of the key's parts.
    pub fn substitute(&self, key: CandidateKey) -> (r: String)
        ensures
            r@ == self.url_of(key),
    {
        let x = decimal_string(key.inner);
        let y = decimal_string(key.outer);
        fill_exec(self.text.as_str(), self.inner_token.as_str(), x.as_str(), self.outer_token.as_str(), y.as_str())
    }
}

/// Substitution leaves no placeholder token behind: for every key, the URL
/// holds neither the inner nor the outer token.
pub proof fn lemma_no_placeholder_left(tpl: &UrlTemplate, key: CandidateKey)
    requires
        tpl.wf(),
    ensures
        !occurs(tpl.url_of(key), tpl.inner_view()),
        !occurs(tpl.url_of(key), tpl.outer_view()),
{
    let x = decimal(key.inner as nat);
    let y = decimal(key.outer as nat);
    lemma_decimal_digits(key.inner as nat);
    lemma_decimal_digits(key.outer as nat);
    let t = tpl.text_view();
    let a = tpl.inner_view();
    let b = tpl.outer_view();
    assert forall|i: int| !#[trigger] matches_at(fill(t, a, x, b, y), a, i) by {
        lemma_no_token_at(t, a, x, b, y, a, i);
    }
    assert forall|i: int| !#[trigger] matches_at(fill(t, a, x, b, y), b, i) by {
        lemma_no_token_at(t, a, x, b, y, b, i);
    }
}

/// A decimal notation is non-empty and made of digits.
pub proof fn lemma_decimal_digits(n: nat)
    ensures
        decimal(n).len() > 0,
        all_digits(decimal(n)),
    decreases n,
{
    if n >= 10 {
        lemma_decimal_digits(n / 10);
        assert(all_digits(decimal(n))) by {
            assert forall|k: int| 0 <= k < decimal(n).len() implies is_digit(#[trigger] decimal(n)[k]) by {
                if k < decimal(n / 10).len() {
                    assert(decimal(n)[k] == decimal(n / 10)[k]);
                }
            }
        }
    }
}

/// A digit-free prefix of the filled text is already a prefix of the template.
proof fn lemma_prefix_from_template(t: Seq<char>, a: Seq<char>, x: Seq<char>, b: Seq<char>, y: Seq<char>, w: Seq<char>)
    requires
        a.len() > 0,
        b.len() > 0,
        x.len() > 0,
        y.len() > 0,
        all_digits(x),
        all_digits(y),
        digit_free(w),
        starts_with(fill(t, a, x, b, y), w),
    ensures
        starts_with(t, w),
    decreases t.len(),
{
    let f = fill(t, a, x, b, y);
    if w.len() == 0 {
        assert(t.subrange(0, 0) =~= w);
    } else if t.len() == 0 {
    } else if starts_with(t, a) {
        assert(f[0] == x[0]);
        assert(f.subrange(0, w.len() as int)[0] == w[0]);
    } else if starts_with(t, b) {
        assert(f[0] == y[0]);
        assert(f.subrange(0, w.len() as int)[0] == w[0]);
    } else {
        let t1 = t.subrange(1, t.len() as int);
        let f1 = fill(t1, a, x, b, y);
        let w1 = w.subrange(1, w.len() as int);
        assert(f == seq![t[0]] + f1);
        assert(f1.subrange(0, w1.len() as int) =~= f.subrange(0, w.len() as int).subrange(1, w.len() as int));
        assert(digit_free(w1)) by {
            assert forall|k: int| 0 <= k < w1.len() implies !is_digit(#[trigger] w1[k]) by {
                assert(w1[k] == w[k + 1]);
            }
        }
        lemma_prefix_from_template(t1, a, x, b, y, w1);
        assert(f.subrange(0, w.len() as int)[0] == w[0]);
        assert(t.subrange(0, w.len() as int) =~= seq![t[0]] + t1.subrange(0, w1.len() as int));
        assert(w =~= seq![w[0]] + w1);
    }
}

/// Neither token occurs at any position of the filled text.
proof fn lemma_no_token_at(t: Seq<char>, a: Seq<char>, x: Seq<char>, b: Seq<char>, y: Seq<char>, w: Seq<char>, i: int)
    requires
        placeholders_ok(a, b),
        w == a || w == b,
        x.len() > 0,
        y.len() > 0,
        all_digits(x),
        all_digits(y),
    ensures
        !matches_at(fill(t, a, x, b, y), w, i),
    decreases t.len(),
{
    let f = fill(t, a, x, b, y);
    if matches_at(f, w, i) {
        assert(f.subrange(i, i + w.len())[0] == w[0]);
        assert(!is_digit(w[0]));
        if t.len() == 0 {
        } else if starts_with(t, a) || starts_with(t, b) {
            let la = if starts_with(t, a) { a.len() } else { b.len() };
            let v = if starts_with(t, a) { x } else { y };
            let t1 = t.subrange(la as int, t.len() as int);
            let f1 = fill(t1, a, x, b, y);
            assert(f == v + f1);
            if i < v.len() {
                assert(f[i] == v[i]);
            } else {
                lemma_no_token_at(t1, a, x, b, y, w, i - v.len());
                assert(f1.subrange(i - v.len(), i - v.len() + w.len()) =~= f.subrange(i, i + w.len()));
            }
        } else {
            let t1 = t.subrange(1, t.len() as int);
            let f1 = fill(t1, a, x, b, y);
            assert(f == seq![t[0]] + f1);
            if i == 0 {
                lemma_prefix_from_template(t, a, x, b, y, w);
            } else {
                lemma_no_token_at(t1, a, x, b, y, w, i - 1);
                assert(f1.subrange(i - 1, i - 1 + w.len()) =~= f.subrange(i, i + w.len()));
            }
        }
    }
}

fn digit_str(d: u32) -> (s: &'static str)
    requires
        d < 10,
    ensures
        s@ == seq![digit_char(d as nat)],
{
    proof {
        reveal_strlit("0");
        reveal_strlit("1");
        reveal_strlit("2");
        reveal_strlit("3");
        reveal_strlit("4");
        reveal_strlit("5");
        reveal_strlit("6");
        reveal_strlit("7");
        reveal_strlit("8");
        reveal_strlit("9");
    }
    let s = if d == 0 { "0" }
    else if d == 1 { "1" }
    else if d == 2 { "2" }
    else if d == 3 { "3" }
    else if d == 4 { "4" }
    else if d == 5 { "5" }
    else if d == 6 { "6" }
    else if d == 7 { "7" }
    else if d == 8 { "8" }
    else { "9" };
    assert(s@ =~= seq![digit_char(d as nat)]);
    s
}

/// The decimal notation of `n`.
pub fn decimal_string(n: u32) -> (r: String)
    ensures
        r@ == decimal(n as nat),
    decreases n,
{
    if n < 10 {
        String::from_str(digit_str(n))
    } else {
        let mut s = decimal_string(n / 10);
        s.append(digit_str(n % 10));
        s
    }
}

/// Builds `fill(t, a, x, b, y)`.
fn fill_exec(t: &str, a: &str, x: &str, b: &str, y: &str) -> (r: String)
    ensures
        r@ == fill(t@, a@, x@, b@, y@),
{
    let n = t.unicode_len();
    let la = a.unicode_len();
    let lb = b.unicode_len();
    let mut out = String::from_str("");
    proof {
        reveal_strlit("");
        assert(t@.subrange(0, n as int) =~= t@);
        assert(out@ + fill(t@, a@, x@, b@, y@) =~= fill(t@, a@, x@, b@, y@));
    }
    let mut i: usize = 0;
    while i < n
        invariant
            n == t@.len(),
            la == a@.len(),
            lb == b@.len(),
            i <= n,
            fill(t@, a@, x@, b@, y@) == out@ + fill(t@.subrange(i as int, n as int), a@, x@, b@, y@),
        decreases n - i,
    {
        let ghost rest = t@.subrange(i as int, n as int);
        if la > 0 && matches_at_exec(t, a, i) {
            assert(rest.subrange(0, la as int) =~= t@.subrange(i as int, i + la));
            assert(rest.subrange(la as int, rest.len() as int) =~= t@.subrange(i + la, n as int));
            out.append(x);
            i = i + la;
        } else if lb > 0 && matches_at_exec(t, b, i) {
            assert(!(la > 0 && starts_with(rest, a@))) by {
                if la > 0 && starts_with(rest, a@) {
                    assert(rest.subrange(0, la as int) =~= t@.subrange(i as int, i + la));
                }
            }
            assert(rest.subrange(0, lb as int) =~= t@.subrange(i as int, i + lb));
            assert(rest.subrange(lb as int, rest.len() as int) =~= t@.subrange(i + lb, n as int));
            out.append(y);
            i = i + lb;
        } else {
            assert(!(la > 0 && starts_with(rest, a@))) by {
                if la > 0 && starts_with(rest, a@) {
                    assert(rest.subrange(0, la as int) =~= t@.subrange(i as int, i + la));
                }
            }
            assert(!(lb > 0 && starts_with(rest, b@))) by {
                if lb > 0 && starts_with(rest, b@) {
                    assert(rest.subrange(0, lb as int) =~= t@.subrange(i as int, i + lb));
                }
            }
            assert(rest.subrange(1, rest.len() as int) =~= t@.subrange(i + 1, n as int));
            let piece = t.substring_char(i, i + 1);
            assert(piece@ =~= seq![rest[0]]);
            out.append(piece);
            i = i + 1;
        }
    }
    assert(t@.subrange(n as int, n as int) =~= Seq::<char>::empty());
    assert(out@ + Seq::<char>::empty() =~= out@);
    out
}

} // verus!
