//! Literal-substring substitution and the markup sanitizer.
//!
//! The sanitizer turns a constrained math-markup dialect into display text and
//! then escapes the three characters that are structurally significant to the
//! chat platform (`&`, `<`, `>`).  Everything is an ordered sequence of literal
//! replacements, modelled by the spec function [`replace_seq`].

use vstd::prelude::*;

verus! {

/// Left-to-right, non-overlapping replacement of every occurrence of `pat` in
/// `s` by `sub` — the behaviour of `str::replace` for a non-empty pattern.
pub open spec fn replace_seq(s: Seq<char>, pat: Seq<char>, sub: Seq<char>) -> Seq<char>
    decreases s.len(),
{
    if pat.len() == 0 || s.len() < pat.len() {
        s
    } else if s.subrange(0, pat.len() as int) == pat {
        sub + replace_seq(s.skip(pat.len() as int), pat, sub)
    } else {
        seq![s[0]] + replace_seq(s.skip(1), pat, sub)
    }
}

/// Appends every character of `add` to `out`.
fn append_chars(out: &mut Vec<char>, add: &Vec<char>)
    ensures
        final(out)@ == old(out)@ + add@,
{
    let ghost orig: Seq<char> = out@;
    let mut k: usize = 0;
    while k < add.len()
        invariant
            k <= add@.len(),
            out@ == orig + add@.subrange(0, k as int),
        decreases add@.len() - k,
    {
        out.push(add[k]);
        proof {
            assert(orig + add@.subrange(0, k as int + 1) =~= (orig + add@.subrange(
                0,
                k as int,
            )).push(add@[k as int]));
        }
        k += 1;
    }
    proof {
        assert(add@.subrange(0, add@.len() as int) =~= add@);
    }
}

/// True iff `pat` occurs in `s` starting at index `i`.
fn match_at(s: &Vec<char>, pat: &Vec<char>, i: usize) -> (r: bool)
    requires
        i + pat@.len() <= s@.len(),
    ensures
        r == (s@.subrange(i as int, i as int + pat@.len()) == pat@),
{
    let slen = s.len();
    let plen = pat.len();
    let mut j: usize = 0;
    while j < plen
        invariant
            j <= plen,
            plen == pat@.len(),
            slen == s@.len(),
            i + pat@.len() <= s@.len(),
            forall|k: int| 0 <= k < j ==> s@[i + k] == pat@[k],
        decreases plen - j,
    {
        if s[i + j] != pat[j] {
            proof {
                assert(s@.subrange(i as int, i as int + pat@.len())[j as int] == s@[i + j]);
            }
            return false;
        }
        j += 1;
    }
    proof {
        assert(s@.subrange(i as int, i as int + pat@.len()) =~= pat@);
    }
    true
}

/// Replaces every occurrence of `pat` in `s` by `sub`, left to right and
/// without overlap, exactly as [`replace_seq`] describes.
pub fn replace_all(s: &Vec<char>, pat: &Vec<char>, sub: &Vec<char>) -> (r: Vec<char>)
    requires
        pat@.len() >= 1,
    ensures
        r@ == replace_seq(s@, pat@, sub@),
{
    let mut out: Vec<char> = Vec::new();
    let mut i: usize = 0;
    let ghost plen: int = pat@.len() as int;
    proof {
        assert(s@.skip(0) =~= s@);
        assert(Seq::<char>::empty() + replace_seq(s@, pat@, sub@) =~= replace_seq(s@, pat@, sub@));
    }
    while i < s.len()
        invariant
            i <= s@.len(),
            pat@.len() >= 1,
            plen == pat@.len() as int,
            out@ + replace_seq(s@.skip(i as int), pat@, sub@) == replace_seq(s@, pat@, sub@),
        decreases s@.len() - i,
    {
        let ghost rest: Seq<char> = s@.skip(i as int);
        if s.len() - i >= pat.len() && match_at(s, pat, i) {
            proof {
                assert(rest.subrange(0, plen) =~= s@.subrange(i as int, i as int + pat@.len()));
                assert(rest.skip(plen) =~= s@.skip(i as int + plen));
                assert(replace_seq(rest, pat@, sub@) == sub@ + replace_seq(
                    s@.skip(i as int + plen),
                    pat@,
                    sub@,
                ));
            }
            append_chars(&mut out, sub);
            i = i + pat.len();
            proof {
                assert(out@ + replace_seq(s@.skip(i as int), pat@, sub@) =~= replace_seq(
                    s@,
                    pat@,
                    sub@,
                ));
            }
        } else {
            proof {
                assert(rest[0] == s@[i as int]);
                assert(rest.skip(1) =~= s@.skip(i as int + 1));
                if rest.len() < pat@.len() {
                    assert(replace_seq(rest, pat@, sub@) == rest);
                    assert(s@.skip(i as int + 1).len() < pat@.len());
                    assert(replace_seq(s@.skip(i as int + 1), pat@, sub@) == s@.skip(
                        i as int + 1,
                    ));
                    assert(rest =~= seq![s@[i as int]] + s@.skip(i as int + 1));
                } else {
                    assert(rest.subrange(0, plen) =~= s@.subrange(
                        i as int,
                        i as int + pat@.len(),
                    ));
                    assert(rest.subrange(0, plen) != pat@);
                    assert(replace_seq(rest, pat@, sub@) == seq![rest[0]] + replace_seq(
                        rest.skip(1),
                        pat@,
                        sub@,
                    ));
                }
            }
            out.push(s[i]);
            i = i + 1;
            proof {
                assert(out@ + replace_seq(s@.skip(i as int), pat@, sub@) =~= replace_seq(
                    s@,
                    pat@,
                    sub@,
                ));
            }
        }
    }
    proof {
        assert(s@.skip(s@.len() as int) =~= Seq::<char>::empty());
        assert(replace_seq(Seq::<char>::empty(), pat@, sub@) == Seq::<char>::empty());
        assert(out@ + Seq::<char>::empty() =~= out@);
    }
    out
}

/// The characters of `s`, in order.
pub fn str_to_chars(s: &str) -> (r: Vec<char>)
    ensures
        r@ == s@,
{
    let n = s.unicode_len();
    let mut v: Vec<char> = Vec::new();
    let mut i: usize = 0;
    while i < n
        invariant
            n == s@.len(),
            i <= n,
            v@ == s@.subrange(0, i as int),
        decreases n - i,
    {
        let c = s.get_char(i);
        v.push(c);
        proof {
            assert(s@.subrange(0, i as int + 1) =~= s@.subrange(0, i as int).push(s@[i as int]));
        }
        i += 1;
    }
    proof {
        assert(s@.subrange(0, s@.len() as int) =~= s@);
    }
    v
}

/// Relies on `String::push`: appends the given character to the end of the
/// string.
#[verifier::external_body]
fn push_char(s: &mut String, c: char)
    ensures
        final(s)@ == old(s)@.push(c),
{
    s.push(c);
}

/// A `String` holding exactly the characters of `v`.
pub fn chars_to_string(v: &Vec<char>) -> (r: String)
    ensures
        r@ == v@,
{
    let mut s = String::new();
    let mut i: usize = 0;
    while i < v.len()
        invariant
            i <= v@.len(),
            s@ == v@.subrange(0, i as int),
        decreases v@.len() - i,
    {
        push_char(&mut s, v[i]);
        proof {
            assert(v@.subrange(0, i as int + 1) =~= v@.subrange(0, i as int).push(v@[i as int]));
        }
        i += 1;
    }
    proof {
        assert(v@.subrange(0, v@.len() as int) =~= v@);
    }
    s
}

/// True iff the two strings hold the same characters.
pub fn str_eq(a: &str, b: &str) -> (r: bool)
    ensures
        r == (a@ == b@),
{
    let na = a.unicode_len();
    let nb = b.unicode_len();
    if na != nb {
        return false;
    }
    let mut i: usize = 0;
    while i < na
        invariant
            na == a@.len(),
            nb == b@.len(),
            na == nb,
            i <= na,
            forall|k: int| 0 <= k < i ==> a@[k] == b@[k],
        decreases na - i,
    {
        if a.get_char(i) != b.get_char(i) {
            return false;
        }
        i += 1;
    }
    proof {
        assert(a@ =~= b@);
    }
    true
}

/// True iff `pat` occurs somewhere in `s` as a contiguous subsequence.
pub open spec fn contains_seq(s: Seq<char>, pat: Seq<char>) -> bool {
    exists|i: int|
        0 <= i && i + pat.len() <= s.len() && #[trigger] s.subrange(i, i + pat.len() as int)
            == pat
}

/// True iff `pat` occurs in `s`.
pub fn contains_chars(s: &Vec<char>, pat: &Vec<char>) -> (r: bool)
    ensures
        r == contains_seq(s@, pat@),
{
    if pat.len() > s.len() {
        return false;
    }
    if pat.len() == 0 {
        proof {
            let w: int = 0;
            assert(s@.subrange(w, w + pat@.len() as int) =~= pat@);
        }
        return true;
    }
    let slen = s.len();
    let plen = pat.len();
    let last = slen - plen;
    let mut i: usize = 0;
    while i <= last
        invariant
            slen == s@.len(),
            plen == pat@.len(),
            plen >= 1,
            last == s@.len() - pat@.len(),
            i <= last + 1,
            forall|j: int|
                0 <= j < i ==> #[trigger] s@.subrange(j, j + pat@.len() as int) != pat@,
        decreases last + 1 - i,
    {
        if match_at(s, pat, i) {
            return true;
        }
        i += 1;
    }
    false
}

/// True iff the two vectors hold the same characters.
pub fn chars_eq(a: &Vec<char>, b: &Vec<char>) -> (r: bool)
    ensures
        r == (a@ == b@),
{
    if a.len() != b.len() {
        return false;
    }
    let mut i: usize = 0;
    while i < a.len()
        invariant
            a@.len() == b@.len(),
            i <= a@.len(),
            forall|k: int| 0 <= k < i ==> a@[k] == b@[k],
        decreases a@.len() - i,
    {
        if a[i] != b[i] {
            return false;
        }
        i += 1;
    }
    proof {
        assert(a@ =~= b@);
    }
    true
}

/// The ordered markup pass: specific tokens (`\frac{`) are rewritten before
/// the generic closing-brace rewrite, so nested delimiters stay matched.
pub open spec fn markup_pass(s: Seq<char>) -> Seq<char> {
    let s = replace_seq(s, "\\("@, "`"@);
    let s = replace_seq(s, "\\)"@, "`"@);
    let s = replace_seq(s, "\\["@, "```"@);
    let s = replace_seq(s, "\\]"@, "```"@);
    let s = replace_seq(s, "\\frac{"@, "("@);
    let s = replace_seq(s, "}{"@, ")/("@);
    let s = replace_seq(s, "}"@, ")"@);
    let s = replace_seq(s, "\\cdot"@, "×"@);
    let s = replace_seq(s, "\\times"@, "×"@);
    let s = replace_seq(s, "\\div"@, "÷"@);
    let s = replace_seq(s, "\\sqrt{"@, "√("@);
    let s = replace_seq(s, "^{"@, "^("@);
    let s = replace_seq(s, "_{"@, "_("@);
    let s = replace_seq(s, "\\pi"@, "π"@);
    let s = replace_seq(s, "\\alpha"@, "α"@);
    let s = replace_seq(s, "\\beta"@, "β"@);
    let s = replace_seq(s, "\\gamma"@, "γ"@);
    let s = replace_seq(s, "\\delta"@, "δ"@);
    let s = replace_seq(s, "\\theta"@, "θ"@);
    let s = replace_seq(s, "\\lambda"@, "λ"@);
    let s = replace_seq(s, "\\mu"@, "μ"@);
    let s = replace_seq(s, "\\sigma"@, "σ"@);
    let s = replace_seq(s, "\\omega"@, "ω"@);
    let s = replace_seq(s, "\\pm"@, "±"@);
    let s = replace_seq(s, "\\leq"@, "≤"@);
    let s = replace_seq(s, "\\geq"@, "≥"@);
    let s = replace_seq(s, "\\neq"@, "≠"@);
    let s = replace_seq(s, "\\approx"@, "≈"@);
    let s = replace_seq(s, "\\infty"@, "∞"@);
    let s = replace_seq(s, "\\sin"@, "sin"@);
    let s = replace_seq(s, "\\cos"@, "cos"@);
    let s = replace_seq(s, "\\tan"@, "tan"@);
    let s = replace_seq(s, "\\log"@, "log"@);
    let s = replace_seq(s, "\\ln"@, "ln"@);
    s
}

/// The escape pass: `&`, `<`, `>` become their entity forms, in that order.
pub open spec fn escape_pass(s: Seq<char>) -> Seq<char> {
    let s = replace_seq(s, "&"@, "&amp;"@);
    let s = replace_seq(s, "<"@, "&lt;"@);
    let s = replace_seq(s, ">"@, "&gt;"@);
    s
}

/// The whole sanitizer: markup substitution, then entity escaping.
pub open spec fn sanitize_spec(s: Seq<char>) -> Seq<char> {
    escape_pass(markup_pass(s))
}

/// One replacement step on a character vector, with the pattern and the
/// substitution given as string literals.
fn apply(v: Vec<char>, pat: &str, sub: &str) -> (r: Vec<char>)
    requires
        pat@.len() >= 1,
    ensures
        r@ == replace_seq(v@, pat@, sub@),
{
    let p = str_to_chars(pat);
    let q = str_to_chars(sub);
    replace_all(&v, &p, &q)
}

/// Converts the math-markup dialect into display text and escapes `&`, `<`
/// and `>`; pure and total.
pub fn format_text_for_slack(text: &str) -> (r: String)
    ensures
        r@ == sanitize_spec(text@),
{
    proof {
        reveal_strlit("\\(");
        reveal_strlit("\\)");
        reveal_strlit("\\[");
        reveal_strlit("\\]");
        reveal_strlit("\\frac{");
        reveal_strlit("}{");
        reveal_strlit("}");
        reveal_strlit("\\cdot");
        reveal_strlit("\\times");
        reveal_strlit("\\div");
        reveal_strlit("\\sqrt{");
        reveal_strlit("^{");
        reveal_strlit("_{");
        reveal_strlit("\\pi");
        reveal_strlit("\\alpha");
        reveal_strlit("\\beta");
        reveal_strlit("\\gamma");
        reveal_strlit("\\delta");
        reveal_strlit("\\theta");
        reveal_strlit("\\lambda");
        reveal_strlit("\\mu");
        reveal_strlit("\\sigma");
        reveal_strlit("\\omega");
        reveal_strlit("\\pm");
        reveal_strlit("\\leq");
        reveal_strlit("\\geq");
        reveal_strlit("\\neq");
        reveal_strlit("\\approx");
        reveal_strlit("\\infty");
        reveal_strlit("\\sin");
        reveal_strlit("\\cos");
        reveal_strlit("\\tan");
        reveal_strlit("\\log");
        reveal_strlit("\\ln");
        reveal_strlit("&");
        reveal_strlit("<");
        reveal_strlit(">");
    }
    let mut v = str_to_chars(text);
    v = apply(v, "\\(", "`");
    v = apply(v, "\\)", "`");
    v = apply(v, "\\[", "```");
    v = apply(v, "\\]", "```");
    v = apply(v, "\\frac{", "(");
    v = apply(v, "}{", ")/(");
    v = apply(v, "}", ")");
    v = apply(v, "\\cdot", "×");
    v = apply(v, "\\times", "×");
    v = apply(v, "\\div", "÷");
    v = apply(v, "\\sqrt{", "√(");
    v = apply(v, "^{", "^(");
    v = apply(v, "_{", "_(");
    v = apply(v, "\\pi", "π");
    v = apply(v, "\\alpha", "α");
    v = apply(v, "\\beta", "β");
    v = apply(v, "\\gamma", "γ");
    v = apply(v, "\\delta", "δ");
    v = apply(v, "\\theta", "θ");
    v = apply(v, "\\lambda", "λ");
    v = apply(v, "\\mu", "μ");
    v = apply(v, "\\sigma", "σ");
    v = apply(v, "\\omega", "ω");
    v = apply(v, "\\pm", "±");
    v = apply(v, "\\leq", "≤");
    v = apply(v, "\\geq", "≥");
    v = apply(v, "\\neq", "≠");
    v = apply(v, "\\approx", "≈");
    v = apply(v, "\\infty", "∞");
    v = apply(v, "\\sin", "sin");
    v = apply(v, "\\cos", "cos");
    v = apply(v, "\\tan", "tan");
    v = apply(v, "\\log", "log");
    v = apply(v, "\\ln", "ln");
    v = apply(v, "&", "&amp;");
    v = apply(v, "<", "&lt;");
    v = apply(v, ">", "&gt;");
    chars_to_string(&v)
}

/// True iff the character `c` occurs in `s`.
pub open spec fn contains_char(s: Seq<char>, c: char) -> bool {
    exists|i: int| 0 <= i < s.len() && s[i] == c
}

proof fn lemma_contains_char_concat(a: Seq<char>, b: Seq<char>, c: char)
    ensures
        contains_char(a + b, c) == (contains_char(a, c) || contains_char(b, c)),
{
    if contains_char(a + b, c) {
        let i = choose|i: int| 0 <= i < (a + b).len() && (a + b)[i] == c;
        if i < a.len() {
            assert(a[i] == c);
        } else {
            assert(b[i - a.len()] == c);
        }
    }
    if contains_char(a, c) {
        let i = choose|i: int| 0 <= i < a.len() && a[i] == c;
        assert((a + b)[i] == c);
    }
    if contains_char(b, c) {
        let i = choose|i: int| 0 <= i < b.len() && b[i] == c;
        assert((a + b)[a.len() + i] == c);
    }
}

proof fn lemma_skip_no_char(s: Seq<char>, k: int, c: char)
    requires
        0 <= k <= s.len(),
        !contains_char(s, c),
    ensures
        !contains_char(s.skip(k), c),
{
    if contains_char(s.skip(k), c) {
        let i = choose|i: int| 0 <= i < s.skip(k).len() && s.skip(k)[i] == c;
        assert(s[i + k] == c);
    }
}

/// Replacing a pattern that never occurs leaves the text unchanged.
proof fn lemma_replace_absent(s: Seq<char>, pat: Seq<char>, sub: Seq<char>)
    requires
        pat.len() >= 1,
        !contains_seq(s, pat),
    ensures
        replace_seq(s, pat, sub) == s,
    decreases s.len(),
{
    if s.len() < pat.len() {
    } else if s.subrange(0, pat.len() as int) == pat {
        let w: int = 0;
        assert(s.subrange(w, w + pat.len() as int) == pat);
        assert(false);
    } else {
        assert forall|i: int| 0 <= i && i + pat.len() <= s.skip(1).len() implies #[trigger] s.skip(
            1,
        ).subrange(i, i + pat.len() as int) != pat by {
            assert(s.skip(1).subrange(i, i + pat.len() as int) =~= s.subrange(
                i + 1,
                (i + 1) + pat.len() as int,
            ));
        }
        lemma_replace_absent(s.skip(1), pat, sub);
        assert(seq![s[0]] + s.skip(1) =~= s);
    }
}

/// Replacement never puts the character `c` into a text that lacks it, as
/// long as the substitution lacks it too.
proof fn lemma_replace_keeps_absent(s: Seq<char>, pat: Seq<char>, sub: Seq<char>, c: char)
    requires
        pat.len() >= 1,
        !contains_char(s, c),
        !contains_char(sub, c),
    ensures
        !contains_char(replace_seq(s, pat, sub), c),
    decreases s.len(),
{
    if s.len() < pat.len() {
    } else if s.subrange(0, pat.len() as int) == pat {
        lemma_skip_no_char(s, pat.len() as int, c);
        lemma_replace_keeps_absent(s.skip(pat.len() as int), pat, sub, c);
        lemma_contains_char_concat(sub, replace_seq(s.skip(pat.len() as int), pat, sub), c);
    } else {
        lemma_skip_no_char(s, 1, c);
        lemma_replace_keeps_absent(s.skip(1), pat, sub, c);
        lemma_contains_char_concat(seq![s[0]], replace_seq(s.skip(1), pat, sub), c);
        if contains_char(seq![s[0]], c) {
            assert(s[0] == c);
        }
    }
}

/// Replacing the single character `c` by a substitution that lacks it
/// removes every occurrence of `c`.
proof fn lemma_replace_removes_char(s: Seq<char>, c: char, sub: Seq<char>)
    requires
        !contains_char(sub, c),
    ensures
        !contains_char(replace_seq(s, seq![c], sub), c),
    decreases s.len(),
{
    let pat = seq![c];
    if s.len() < 1 {
    } else if s.subrange(0, 1) == pat {
        lemma_skip_no_char_any(s, 1, c);
        lemma_replace_removes_char(s.skip(1), c, sub);
        lemma_contains_char_concat(sub, replace_seq(s.skip(1), pat, sub), c);
    } else {
        assert(s.subrange(0, 1) =~= seq![s[0]]);
        assert(s[0] != c);
        lemma_replace_removes_char(s.skip(1), c, sub);
        lemma_contains_char_concat(seq![s[0]], replace_seq(s.skip(1), pat, sub), c);
        if contains_char(seq![s[0]], c) {
            assert(s[0] == c);
        }
    }
}

proof fn lemma_skip_no_char_any(s: Seq<char>, k: int, c: char)
    requires
        0 <= k <= s.len(),
    ensures
        contains_char(s.skip(k), c) ==> contains_char(s, c),
{
    if contains_char(s.skip(k), c) {
        let i = choose|i: int| 0 <= i < s.skip(k).len() && s.skip(k)[i] == c;
        assert(s[i + k] == c);
    }
}

/// True iff `s` holds none of the tokens the sanitizer rewrites: no markup
/// token and none of the characters `&`, `<`, `>`.
pub open spec fn token_free(s: Seq<char>) -> bool {
    &&& !contains_seq(s, "\\("@)
    &&& !contains_seq(s, "\\)"@)
    &&& !contains_seq(s, "\\["@)
    &&& !contains_seq(s, "\\]"@)
    &&& !contains_seq(s, "\\frac{"@)
    &&& !contains_seq(s, "}{"@)
    &&& !contains_seq(s, "}"@)
    &&& !contains_seq(s, "\\cdot"@)
    &&& !contains_seq(s, "\\times"@)
    &&& !contains_seq(s, "\\div"@)
    &&& !contains_seq(s, "\\sqrt{"@)
    &&& !contains_seq(s, "^{"@)
    &&& !contains_seq(s, "_{"@)
    &&& !contains_seq(s, "\\pi"@)
    &&& !contains_seq(s, "\\alpha"@)
    &&& !contains_seq(s, "\\beta"@)
    &&& !contains_seq(s, "\\gamma"@)
    &&& !contains_seq(s, "\\delta"@)
    &&& !contains_seq(s, "\\theta"@)
    &&& !contains_seq(s, "\\lambda"@)
    &&& !contains_seq(s, "\\mu"@)
    &&& !contains_seq(s, "\\sigma"@)
    &&& !contains_seq(s, "\\omega"@)
    &&& !contains_seq(s, "\\pm"@)
    &&& !contains_seq(s, "\\leq"@)
    &&& !contains_seq(s, "\\geq"@)
    &&& !contains_seq(s, "\\neq"@)
    &&& !contains_seq(s, "\\approx"@)
    &&& !contains_seq(s, "\\infty"@)
    &&& !contains_seq(s, "\\sin"@)
    &&& !contains_seq(s, "\\cos"@)
    &&& !contains_seq(s, "\\tan"@)
    &&& !contains_seq(s, "\\log"@)
    &&& !contains_seq(s, "\\ln"@)
    &&& !contains_seq(s, "&"@)
    &&& !contains_seq(s, "<"@)
    &&& !contains_seq(s, ">"@)
}

/// Text that holds none of the rewritten tokens passes through the
/// sanitizer unchanged; in particular the sanitizer is idempotent on such
/// already-sanitized text.
pub proof fn lemma_sanitize_fixed_on_token_free(s: Seq<char>)
    requires
        token_free(s),
    ensures
        sanitize_spec(s) == s,
{
    reveal_strlit("\\(");
    reveal_strlit("\\)");
    reveal_strlit("\\[");
    reveal_strlit("\\]");
    reveal_strlit("\\frac{");
    reveal_strlit("}{");
    reveal_strlit("}");
    reveal_strlit("\\cdot");
    reveal_strlit("\\times");
    reveal_strlit("\\div");
    reveal_strlit("\\sqrt{");
    reveal_strlit("^{");
    reveal_strlit("_{");
    reveal_strlit("\\pi");
    reveal_strlit("\\alpha");
    reveal_strlit("\\beta");
    reveal_strlit("\\gamma");
    reveal_strlit("\\delta");
    reveal_strlit("\\theta");
    reveal_strlit("\\lambda");
    reveal_strlit("\\mu");
    reveal_strlit("\\sigma");
    reveal_strlit("\\omega");
    reveal_strlit("\\pm");
    reveal_strlit("\\leq");
    reveal_strlit("\\geq");
    reveal_strlit("\\neq");
    reveal_strlit("\\approx");
    reveal_strlit("\\infty");
    reveal_strlit("\\sin");
    reveal_strlit("\\cos");
    reveal_strlit("\\tan");
    reveal_strlit("\\log");
    reveal_strlit("\\ln");
    reveal_strlit("&");
    reveal_strlit("<");
    reveal_strlit(">");
    lemma_replace_absent(s, "\\("@, "`"@);
    lemma_replace_absent(s, "\\)"@, "`"@);
    lemma_replace_absent(s, "\\["@, "```"@);
    lemma_replace_absent(s, "\\]"@, "```"@);
    lemma_replace_absent(s, "\\frac{"@, "("@);
    lemma_replace_absent(s, "}{"@, ")/("@);
    lemma_replace_absent(s, "}"@, ")"@);
    lemma_replace_absent(s, "\\cdot"@, "×"@);
    lemma_replace_absent(s, "\\times"@, "×"@);
    lemma_replace_absent(s, "\\div"@, "÷"@);
    lemma_replace_absent(s, "\\sqrt{"@, "√("@);
    lemma_replace_absent(s, "^{"@, "^("@);
    lemma_replace_absent(s, "_{"@, "_("@);
    lemma_replace_absent(s, "\\pi"@, "π"@);
    lemma_replace_absent(s, "\\alpha"@, "α"@);
    lemma_replace_absent(s, "\\beta"@, "β"@);
    lemma_replace_absent(s, "\\gamma"@, "γ"@);
    lemma_replace_absent(s, "\\delta"@, "δ"@);
    lemma_replace_absent(s, "\\theta"@, "θ"@);
    lemma_replace_absent(s, "\\lambda"@, "λ"@);
    lemma_replace_absent(s, "\\mu"@, "μ"@);
    lemma_replace_absent(s, "\\sigma"@, "σ"@);
    lemma_replace_absent(s, "\\omega"@, "ω"@);
    lemma_replace_absent(s, "\\pm"@, "±"@);
    lemma_replace_absent(s, "\\leq"@, "≤"@);
    lemma_replace_absent(s, "\\geq"@, "≥"@);
    lemma_replace_absent(s, "\\neq"@, "≠"@);
    lemma_replace_absent(s, "\\approx"@, "≈"@);
    lemma_replace_absent(s, "\\infty"@, "∞"@);
    lemma_replace_absent(s, "\\sin"@, "sin"@);
    lemma_replace_absent(s, "\\cos"@, "cos"@);
    lemma_replace_absent(s, "\\tan"@, "tan"@);
    lemma_replace_absent(s, "\\log"@, "log"@);
    lemma_replace_absent(s, "\\ln"@, "ln"@);
    assert(markup_pass(s) == s);
    lemma_replace_absent(s, "&"@, "&amp;"@);
    lemma_replace_absent(s, "<"@, "&lt;"@);
    lemma_replace_absent(s, ">"@, "&gt;"@);
}

/// True iff the `&` at position `i` of `s` begins one of the three entity
/// forms `&amp;`, `&lt;`, `&gt;`.
pub open spec fn is_entity_at(s: Seq<char>, i: int) -> bool {
    ||| (i + 5 <= s.len() && s.subrange(i + 1, i + 5) == "amp;"@)
    ||| (i + 4 <= s.len() && s.subrange(i + 1, i + 4) == "lt;"@)
    ||| (i + 4 <= s.len() && s.subrange(i + 1, i + 4) == "gt;"@)
}

/// True iff every `&` in `s` begins an entity: `s` holds no unescaped
/// ampersand.
pub open spec fn amps_escaped(s: Seq<char>) -> bool {
    forall|i: int| 0 <= i < s.len() && (#[trigger] s[i]) == '&' ==> is_entity_at(s, i)
}

proof fn lemma_amps_escaped_skip(s: Seq<char>, k: int)
    requires
        0 <= k <= s.len(),
        amps_escaped(s),
    ensures
        amps_escaped(s.skip(k)),
{
    assert forall|i: int|
        0 <= i < s.skip(k).len() && (#[trigger] s.skip(k)[i]) == '&' implies is_entity_at(
        s.skip(k),
        i,
    ) by {
        let j = i + k;
        assert(s[j] == '&');
        assert(is_entity_at(s, j));
        if j + 5 <= s.len() && s.subrange(j + 1, j + 5) == "amp;"@ {
            assert(s.skip(k).subrange(i + 1, i + 5) =~= s.subrange(j + 1, j + 5));
        } else if j + 4 <= s.len() && s.subrange(j + 1, j + 4) == "lt;"@ {
            assert(s.skip(k).subrange(i + 1, i + 4) =~= s.subrange(j + 1, j + 4));
        } else {
            assert(s.skip(k).subrange(i + 1, i + 4) =~= s.subrange(j + 1, j + 4));
        }
    }
}

proof fn lemma_amps_escaped_concat(a: Seq<char>, b: Seq<char>)
    requires
        amps_escaped(a),
        amps_escaped(b),
    ensures
        amps_escaped(a + b),
{
    assert forall|i: int|
        0 <= i < (a + b).len() && (#[trigger] (a + b)[i]) == '&' implies is_entity_at(
        a + b,
        i,
    ) by {
        if i < a.len() {
            assert(a[i] == '&');
            assert(is_entity_at(a, i));
            if i + 5 <= a.len() && a.subrange(i + 1, i + 5) == "amp;"@ {
                assert((a + b).subrange(i + 1, i + 5) =~= a.subrange(i + 1, i + 5));
            } else if i + 4 <= a.len() && a.subrange(i + 1, i + 4) == "lt;"@ {
                assert((a + b).subrange(i + 1, i + 4) =~= a.subrange(i + 1, i + 4));
            } else {
                assert((a + b).subrange(i + 1, i + 4) =~= a.subrange(i + 1, i + 4));
            }
        } else {
            let j = i - a.len();
            assert(b[j] == '&');
            assert(is_entity_at(b, j));
            if j + 5 <= b.len() && b.subrange(j + 1, j + 5) == "amp;"@ {
                assert((a + b).subrange(i + 1, i + 5) =~= b.subrange(j + 1, j + 5));
            } else if j + 4 <= b.len() && b.subrange(j + 1, j + 4) == "lt;"@ {
                assert((a + b).subrange(i + 1, i + 4) =~= b.subrange(j + 1, j + 4));
            } else {
                assert((a + b).subrange(i + 1, i + 4) =~= b.subrange(j + 1, j + 4));
            }
        }
    }
}

proof fn lemma_amp_entity_lits()
    ensures
        amps_escaped("&amp;"@),
        amps_escaped("&lt;"@),
        amps_escaped("&gt;"@),
{
    reveal_strlit("&amp;");
    reveal_strlit("&lt;");
    reveal_strlit("&gt;");
    reveal_strlit("amp;");
    reveal_strlit("lt;");
    reveal_strlit("gt;");
    assert forall|i: int|
        0 <= i < "&amp;"@.len() && (#[trigger] "&amp;"@[i]) == '&' implies is_entity_at(
        "&amp;"@,
        i,
    ) by {
        assert(i == 0);
        assert("&amp;"@.subrange(1, 5) =~= "amp;"@);
    }
    assert forall|i: int|
        0 <= i < "&lt;"@.len() && (#[trigger] "&lt;"@[i]) == '&' implies is_entity_at(
        "&lt;"@,
        i,
    ) by {
        assert(i == 0);
        assert("&lt;"@.subrange(1, 4) =~= "lt;"@);
    }
    assert forall|i: int|
        0 <= i < "&gt;"@.len() && (#[trigger] "&gt;"@[i]) == '&' implies is_entity_at(
        "&gt;"@,
        i,
    ) by {
        assert(i == 0);
        assert("&gt;"@.subrange(1, 4) =~= "gt;"@);
    }
}

/// The first escape step leaves every `&` escaped, whatever the input.
proof fn lemma_amp_pass(m: Seq<char>)
    ensures
        amps_escaped(replace_seq(m, "&"@, "&amp;"@)),
    decreases m.len(),
{
    reveal_strlit("&");
    lemma_amp_entity_lits();
    let pat = "&"@;
    if m.len() < 1 {
        assert(amps_escaped(m));
    } else if m.subrange(0, 1) == pat {
        lemma_amp_pass(m.skip(1));
        lemma_amps_escaped_concat("&amp;"@, replace_seq(m.skip(1), pat, "&amp;"@));
    } else {
        assert(m.subrange(0, 1) =~= seq![m[0]]);
        assert("&"@ =~= seq!['&']);
        assert(m[0] != '&') by {
            if m[0] == '&' {
                assert(m.subrange(0, 1) =~= "&"@);
            }
        }
        assert(amps_escaped(seq![m[0]]));
        lemma_amp_pass(m.skip(1));
        lemma_amps_escaped_concat(seq![m[0]], replace_seq(m.skip(1), pat, "&amp;"@));
    }
}

proof fn lemma_replace_copies_prefix(t: Seq<char>, c: char, sub: Seq<char>, k: int)
    requires
        0 <= k <= t.len(),
        forall|j: int| 0 <= j < k ==> t[j] != c,
    ensures
        replace_seq(t, seq![c], sub) == t.subrange(0, k) + replace_seq(t.skip(k), seq![c], sub),
    decreases k,
{
    if k == 0 {
        assert(t.skip(0) =~= t);
        assert(t.subrange(0, 0) + replace_seq(t, seq![c], sub) =~= replace_seq(t, seq![c], sub));
    } else {
        assert(t.subrange(0, 1) =~= seq![t[0]]);
        assert(t[0] != c);
        assert(t.subrange(0, 1) != seq![c]) by {
            if t.subrange(0, 1) == seq![c] {
                assert(t.subrange(0, 1)[0] == c);
            }
        }
        lemma_replace_copies_prefix(t.skip(1), c, sub, k - 1);
        assert(t.skip(1).subrange(0, k - 1) =~= t.subrange(1, k));
        assert(t.skip(1).skip(k - 1) =~= t.skip(k));
        assert(seq![t[0]] + (t.subrange(1, k) + replace_seq(t.skip(k), seq![c], sub)) =~= t.subrange(
            0,
            k,
        ) + replace_seq(t.skip(k), seq![c], sub));
    }
}

/// Replacing a character that occurs in no entity text keeps every `&`
/// escaped, as long as the substitution is itself escaped.
proof fn lemma_replace_keeps_amps_escaped(s: Seq<char>, c: char, sub: Seq<char>)
    requires
        amps_escaped(s),
        amps_escaped(sub),
        c != '&',
        !contains_char("amp;"@, c),
        !contains_char("lt;"@, c),
        !contains_char("gt;"@, c),
    ensures
        amps_escaped(replace_seq(s, seq![c], sub)),
    decreases s.len(),
{
    let pat = seq![c];
    if s.len() < 1 {
        assert(amps_escaped(s));
    } else if s.subrange(0, 1) == pat {
        lemma_amps_escaped_skip(s, 1);
        lemma_replace_keeps_amps_escaped(s.skip(1), c, sub);
        lemma_amps_escaped_concat(sub, replace_seq(s.skip(1), pat, sub));
    } else {
        assert(s.subrange(0, 1) =~= seq![s[0]]);
        assert(s[0] != c) by {
            if s[0] == c {
                assert(s.subrange(0, 1)[0] == c);
                assert(s.subrange(0, 1) =~= seq![c]);
            }
        }
        lemma_amps_escaped_skip(s, 1);
        lemma_replace_keeps_amps_escaped(s.skip(1), c, sub);
        let tail = replace_seq(s.skip(1), pat, sub);
        let r = seq![s[0]] + tail;
        assert(replace_seq(s, pat, sub) == r);
        if s[0] == '&' {
            assert(is_entity_at(s, 0));
            if 5 <= s.len() && s.subrange(1, 5) == "amp;"@ {
                assert(s.skip(1).subrange(0, 4) =~= s.subrange(1, 5));
                assert forall|j: int| 0 <= j < 4 implies s.skip(1)[j] != c by {
                    if s.skip(1)[j] == c {
                        assert("amp;"@[j] == c);
                    }
                }
                lemma_replace_copies_prefix(s.skip(1), c, sub, 4);
                assert(tail.subrange(0, 4) =~= s.skip(1).subrange(0, 4));
                assert(r.subrange(1, 5) =~= tail.subrange(0, 4));
                assert(is_entity_at(r, 0));
            } else if 4 <= s.len() && s.subrange(1, 4) == "lt;"@ {
                assert(s.skip(1).subrange(0, 3) =~= s.subrange(1, 4));
                assert forall|j: int| 0 <= j < 3 implies s.skip(1)[j] != c by {
                    if s.skip(1)[j] == c {
                        assert("lt;"@[j] == c);
                    }
                }
                lemma_replace_copies_prefix(s.skip(1), c, sub, 3);
                assert(tail.subrange(0, 3) =~= s.skip(1).subrange(0, 3));
                assert(r.subrange(1, 4) =~= tail.subrange(0, 3));
                assert(is_entity_at(r, 0));
            } else {
                assert(s.skip(1).subrange(0, 3) =~= s.subrange(1, 4));
                assert forall|j: int| 0 <= j < 3 implies s.skip(1)[j] != c by {
                    if s.skip(1)[j] == c {
                        assert("gt;"@[j] == c);
                    }
                }
                lemma_replace_copies_prefix(s.skip(1), c, sub, 3);
                assert(tail.subrange(0, 3) =~= s.skip(1).subrange(0, 3));
                assert(r.subrange(1, 4) =~= tail.subrange(0, 3));
                assert(is_entity_at(r, 0));
            }
        }
        assert forall|i: int|
            0 <= i < r.len() && (#[trigger] r[i]) == '&' implies is_entity_at(r, i) by {
            if i == 0 {
                assert(s[0] == '&');
            } else {
                let j = i - 1;
                assert(tail[j] == '&');
                assert(is_entity_at(tail, j));
                if j + 5 <= tail.len() && tail.subrange(j + 1, j + 5) == "amp;"@ {
                    assert(r.subrange(i + 1, i + 5) =~= tail.subrange(j + 1, j + 5));
                } else if j + 4 <= tail.len() && tail.subrange(j + 1, j + 4) == "lt;"@ {
                    assert(r.subrange(i + 1, i + 4) =~= tail.subrange(j + 1, j + 4));
                } else {
                    assert(r.subrange(i + 1, i + 4) =~= tail.subrange(j + 1, j + 4));
                }
            }
        }
    }
}

/// The sanitizer's output holds no unescaped `&`: every ampersand it emits
/// begins one of the entities `&amp;`, `&lt;`, `&gt;`.
pub proof fn lemma_sanitize_amps_escaped(s: Seq<char>)
    ensures
        amps_escaped(sanitize_spec(s)),
{
    reveal_strlit("&");
    reveal_strlit("<");
    reveal_strlit(">");
    reveal_strlit("&amp;");
    reveal_strlit("&lt;");
    reveal_strlit("&gt;");
    reveal_strlit("amp;");
    reveal_strlit("lt;");
    reveal_strlit("gt;");
    let m = markup_pass(s);
    let r1 = replace_seq(m, "&"@, "&amp;"@);
    let r2 = replace_seq(r1, "<"@, "&lt;"@);
    let r3 = replace_seq(r2, ">"@, "&gt;"@);
    lemma_amp_pass(m);
    lemma_amp_entity_lits();
    assert("<"@ =~= seq!['<']);
    assert(">"@ =~= seq!['>']);
    if contains_char("amp;"@, '<') {
        let i = choose|i: int| 0 <= i < "amp;"@.len() && "amp;"@[i] == '<';
        assert(false);
    }
    if contains_char("lt;"@, '<') {
        let i = choose|i: int| 0 <= i < "lt;"@.len() && "lt;"@[i] == '<';
        assert(false);
    }
    if contains_char("gt;"@, '<') {
        let i = choose|i: int| 0 <= i < "gt;"@.len() && "gt;"@[i] == '<';
        assert(false);
    }
    lemma_replace_keeps_amps_escaped(r1, '<', "&lt;"@);
    if contains_char("amp;"@, '>') {
        let i = choose|i: int| 0 <= i < "amp;"@.len() && "amp;"@[i] == '>';
        assert(false);
    }
    if contains_char("lt;"@, '>') {
        let i = choose|i: int| 0 <= i < "lt;"@.len() && "lt;"@[i] == '>';
        assert(false);
    }
    if contains_char("gt;"@, '>') {
        let i = choose|i: int| 0 <= i < "gt;"@.len() && "gt;"@[i] == '>';
        assert(false);
    }
    lemma_replace_keeps_amps_escaped(r2, '>', "&gt;"@);
}

/// The sanitizer's output never holds a literal `<` or `>`: the escape pass
/// removes every occurrence and no later substitution reintroduces one.
pub proof fn lemma_sanitize_no_angle_brackets(s: Seq<char>)
    ensures
        !contains_char(sanitize_spec(s), '<'),
        !contains_char(sanitize_spec(s), '>'),
{
    reveal_strlit("<");
    reveal_strlit(">");
    reveal_strlit("&lt;");
    reveal_strlit("&gt;");
    let m = markup_pass(s);
    let r1 = replace_seq(m, "&"@, "&amp;"@);
    let r2 = replace_seq(r1, "<"@, "&lt;"@);
    let r3 = replace_seq(r2, ">"@, "&gt;"@);
    assert("<"@ =~= seq!['<']);
    assert(">"@ =~= seq!['>']);
    if contains_char("&lt;"@, '<') {
        let i = choose|i: int| 0 <= i < "&lt;"@.len() && "&lt;"@[i] == '<';
        assert(false);
    }
    if contains_char("&gt;"@, '<') {
        let i = choose|i: int| 0 <= i < "&gt;"@.len() && "&gt;"@[i] == '<';
        assert(false);
    }
    if contains_char("&gt;"@, '>') {
        let i = choose|i: int| 0 <= i < "&gt;"@.len() && "&gt;"@[i] == '>';
        assert(false);
    }
    lemma_replace_removes_char(r1, '<', "&lt;"@);
    assert(!contains_char(r2, '<'));
    lemma_replace_keeps_absent(r2, ">"@, "&gt;"@, '<');
    assert(!contains_char(r3, '<'));
    lemma_replace_removes_char(r2, '>', "&gt;"@);
    assert(!contains_char(r3, '>'));
}

} // verus!
