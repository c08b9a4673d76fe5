//! Host diagnostics and the redaction applied before any record is written.
//!
//! Redaction happens in one place so that no caller can forget it: words of
//! free text that carry a token, an API key or an authorization value lose
//! their value, and JSON members whose key names a secret have their value
//! replaced by `[REDACTED]`, at any depth.

use vstd::prelude::*;

use crate::json::{lemma_array_view, lemma_object_view, JsonValue, JsonView};
use crate::text::{ascii_lower, has_prefix, is_ascii_alphanumeric, is_whitespace, spec_ascii_lower,
    spec_is_ascii_alphanumeric, spec_is_whitespace, starts_with};

verus! {

/// A persisted, redacted diagnostic record.
#[derive(Debug, Clone, PartialEq)]
pub struct DiagnosticRecord {
    pub timestamp_ms: u64,
    pub category: String,
    pub message: String,
    pub restart_count: u32,
    pub details: JsonValue,
}

/// Where diagnostics are appended, one JSON line per record.
#[derive(Debug)]
pub struct DiagnosticStore {
    path: std::path::PathBuf,
}

#[verifier::external_type_specification]
#[verifier::external_body]
pub struct ExPathBuf(std::path::PathBuf);

impl DiagnosticStore {
    /// A store appending to the file at `path`.
    pub fn new(path: std::path::PathBuf) -> (r: DiagnosticStore)
        ensures
            r.path_value() == path,
    {
        DiagnosticStore { path }
    }

    pub closed spec fn path_value(&self) -> std::path::PathBuf {
        self.path
    }

    /// The file the store appends to.
    pub fn path(&self) -> (r: &std::path::PathBuf)
        ensures
            *r == self.path_value(),
    {
        &self.path
    }

    /// The record as it is written: category, message and details redacted;
    /// time and restart count unchanged.
    pub fn prepare(&self, record: &DiagnosticRecord) -> (r: DiagnosticRecord)
        ensures
            r.timestamp_ms == record.timestamp_ms,
            r.restart_count == record.restart_count,
            r.category@ == sanitized_text(record.category@),
            r.message@ == sanitized_text(record.message@),
            r.details.view() == sanitized_json(record.details.view()),
    {
        sanitize_record(record)
    }
}

// ---------------------------------------------------------------------------
// Free text

/// The whitespace-separated words of `s`, in order.
pub open spec fn words(s: Seq<char>) -> Seq<Seq<char>>
    decreases s.len(),
{
    if s.len() == 0 {
        seq![]
    } else {
        let w = words(s.drop_last());
        let c = s.last();
        if spec_is_whitespace(c) {
            w
        } else if s.len() >= 2 && !spec_is_whitespace(s[s.len() - 2]) {
            w.update(w.len() - 1, w.last().push(c))
        } else {
            w.push(seq![c])
        }
    }
}

/// Words joined by single spaces.
pub open spec fn join_words(ws: Seq<Seq<char>>) -> Seq<char>
    decreases ws.len(),
{
    if ws.len() == 0 {
        seq![]
    } else if ws.len() == 1 {
        ws[0]
    } else {
        join_words(ws.drop_last()) + seq![' '] + ws.last()
    }
}

/// Whether a word carries a secret value: it starts, ignoring ASCII case,
/// with `token=`, `api_key=`, `apikey=`, `authorization:` or `authorization=`.
pub open spec fn secret_word(w: Seq<char>) -> bool {
    let lower = w.map_values(|c: char| spec_ascii_lower(c));
    ||| has_prefix(lower, "token="@)
    ||| has_prefix(lower, "api_key="@)
    ||| has_prefix(lower, "apikey="@)
    ||| has_prefix(lower, "authorization:"@)
    ||| has_prefix(lower, "authorization="@)
}

/// Index of the first `=` or `:` in a word at or after `from`, if any.
pub open spec fn separator_index(w: Seq<char>, from: int) -> Option<int>
    decreases w.len() - from,
{
    if from < 0 || from >= w.len() {
        None
    } else if w[from] == '=' || w[from] == ':' {
        Some(from)
    } else {
        separator_index(w, from + 1)
    }
}

/// A word as it is written: a secret word keeps only its key, followed by
/// `=[REDACTED]`; other words are kept.
pub open spec fn redacted_word(w: Seq<char>) -> Seq<char> {
    if secret_word(w) {
        match separator_index(w, 0) {
            Some(k) => w.take(k) + "=[REDACTED]"@,
            None => "[REDACTED]"@,
        }
    } else {
        w
    }
}

/// Whether a word is an authorization key whose value follows after white
/// space: `authorization:` or `authorization=`, ignoring ASCII case, with
/// nothing after the separator.
pub open spec fn bare_authorization(w: Seq<char>) -> bool {
    let lower = w.map_values(|c: char| spec_ascii_lower(c));
    lower == "authorization:"@ || lower == "authorization="@
}

/// Whether a word names an HTTP authorization scheme, which comes before the
/// credential itself: `Bearer`, `Basic`, `Digest` or `Token`, ignoring ASCII case.
pub open spec fn authorization_scheme(w: Seq<char>) -> bool {
    let lower = w.map_values(|c: char| spec_ascii_lower(c));
    lower == "bearer"@ || lower == "basic"@ || lower == "digest"@ || lower == "token"@
}

/// Whether word `i` of `ws` is an authorization value detached from its key:
/// it follows a bare authorization key, or it follows a scheme that follows one.
pub open spec fn detached_credential(ws: Seq<Seq<char>>, i: int) -> bool {
    ||| (i >= 1 && bare_authorization(ws[i - 1]))
    ||| (i >= 2 && bare_authorization(ws[i - 2]) && authorization_scheme(ws[i - 1]))
}

/// Word `i` of `ws` as it is written: a detached authorization value (scheme
/// and credential alike) becomes `[REDACTED]`; any other word is redacted on
/// its own.
pub open spec fn sanitized_word(ws: Seq<Seq<char>>, i: int) -> Seq<char> {
    if detached_credential(ws, i) {
        "[REDACTED]"@
    } else {
        redacted_word(ws[i])
    }
}

/// The words of a text as they are written, one for one.
pub open spec fn sanitized_words(ws: Seq<Seq<char>>) -> Seq<Seq<char>> {
    Seq::new(ws.len(), |i: int| sanitized_word(ws, i))
}

/// Free text as it is written: its words redacted and joined by single spaces.
/// `Authorization: Bearer abc` is written `Authorization=[REDACTED] [REDACTED] [REDACTED]`.
pub open spec fn sanitized_text(s: Seq<char>) -> Seq<char> {
    join_words(sanitized_words(words(s)))
}

/// A word as `words` yields it: not empty, and free of white space.
pub open spec fn plain_word(w: Seq<char>) -> bool {
    w.len() > 0 && forall|j: int| 0 <= j < w.len() ==> !spec_is_whitespace(#[trigger] w[j])
}

proof fn lemma_words_plain(s: Seq<char>)
    ensures
        forall|i: int| 0 <= i < words(s).len() ==> plain_word(#[trigger] words(s)[i]),
        s.len() > 0 && !spec_is_whitespace(s.last()) ==> words(s).len() > 0,
    decreases s.len(),
{
    if s.len() > 0 {
        let t = s.drop_last();
        lemma_words_plain(t);
        let w = words(t);
        let c = s.last();
        if !spec_is_whitespace(c) && s.len() >= 2 && !spec_is_whitespace(s[s.len() - 2]) {
            assert(t.last() == s[s.len() - 2]);
            let u = w.last().push(c);
            assert(plain_word(w.last()));
            assert forall|j: int| 0 <= j < u.len() implies !spec_is_whitespace(#[trigger] u[j]) by {
                if j < u.len() - 1 {
                    assert(u[j] == w.last()[j]);
                }
            }
        }
    }
}

proof fn lemma_words_single(o: Seq<char>)
    requires
        plain_word(o),
    ensures
        words(o) == seq![o],
    decreases o.len(),
{
    assert(!spec_is_whitespace(o[o.len() - 1]));
    if o.len() == 1 {
        assert(o.drop_last() =~= Seq::<char>::empty());
        assert(words(o.drop_last()) == Seq::<Seq<char>>::empty());
        assert(seq![o.last()] =~= o);
        assert(Seq::<Seq<char>>::empty().push(seq![o.last()]) =~= seq![o]);
    } else {
        let p = o.drop_last();
        assert(plain_word(p)) by {
            assert forall|j: int| 0 <= j < p.len() implies !spec_is_whitespace(#[trigger] p[j]) by {
                assert(p[j] == o[j]);
            }
        }
        lemma_words_single(p);
        assert(!spec_is_whitespace(o[o.len() - 2]));
        assert(o[o.len() - 2] == p.last());
        assert(p.push(o.last()) =~= o);
        assert(seq![p].update(0, p.push(o.last())) =~= seq![o]);
    }
}

proof fn lemma_words_append(a: Seq<char>, o: Seq<char>)
    requires
        plain_word(o),
    ensures
        words(a + seq![' '] + o) == words(a).push(o),
    decreases o.len(),
{
    let s = a + seq![' '] + o;
    assert(spec_is_whitespace(' '));
    assert((a + seq![' ']).drop_last() =~= a);
    assert((a + seq![' ']).last() == ' ');
    assert(words(a + seq![' ']) == words(a));
    assert(!spec_is_whitespace(o[o.len() - 1]));
    assert(s.last() == o[o.len() - 1]);
    if o.len() == 1 {
        assert(s.drop_last() =~= a + seq![' ']);
        assert(s[s.len() - 2] == ' ');
        assert(seq![o.last()] =~= o);
    } else {
        let p = o.drop_last();
        assert(plain_word(p)) by {
            assert forall|j: int| 0 <= j < p.len() implies !spec_is_whitespace(#[trigger] p[j]) by {
                assert(p[j] == o[j]);
            }
        }
        lemma_words_append(a, p);
        assert(!spec_is_whitespace(o[o.len() - 2]));
        assert(s.drop_last() =~= a + seq![' '] + p);
        assert(s[s.len() - 2] == p.last());
        assert(p.push(o.last()) =~= o);
        assert(words(a).push(p).update(words(a).len() as int, p.push(o.last())) =~= words(a).push(o));
    }
}

/// Splitting words joined by single spaces gives the words back.
proof fn lemma_words_of_join(ws: Seq<Seq<char>>)
    requires
        forall|i: int| 0 <= i < ws.len() ==> plain_word(#[trigger] ws[i]),
    ensures
        words(join_words(ws)) == ws,
    decreases ws.len(),
{
    if ws.len() == 0 {
    } else if ws.len() == 1 {
        lemma_words_single(ws[0]);
        assert(seq![ws[0]] =~= ws);
    } else {
        let p = ws.drop_last();
        assert forall|i: int| 0 <= i < p.len() implies plain_word(#[trigger] p[i]) by {
            assert(p[i] == ws[i]);
        }
        lemma_words_of_join(p);
        lemma_words_append(join_words(p), ws.last());
        assert(p.push(ws.last()) =~= ws);
    }
}

/// Where a word of one of the redaction prefixes has its first separator.
proof fn lemma_separator_at(w: Seq<char>, p: Seq<char>, j: int)
    requires
        has_prefix(w.map_values(|c: char| spec_ascii_lower(c)), p),
        p.len() >= 1,
        p.last() == '=' || p.last() == ':',
        forall|k: int| 0 <= k < p.len() - 1 ==> p[k] != '=' && p[k] != ':',
        0 <= j < p.len(),
    ensures
        separator_index(w, j) == Some(p.len() - 1),
    decreases p.len() - j,
{
    let lower = w.map_values(|c: char| spec_ascii_lower(c));
    assert(lower.subrange(0, p.len() as int)[j] == p[j]);
    assert(lower[j] == spec_ascii_lower(w[j]));
    if j < p.len() - 1 {
        lemma_separator_at(w, p, j + 1);
    }
}

/// Whether `p` is one of the prefixes that make a word secret.
spec fn secret_prefix(p: Seq<char>) -> bool {
    p == "token="@ || p == "api_key="@ || p == "apikey="@ || p == "authorization:"@ || p
        == "authorization="@
}

proof fn lemma_secret_prefix_shape(p: Seq<char>)
    requires
        secret_prefix(p),
    ensures
        p.len() >= 1,
        p.last() == '=' || p.last() == ':',
        forall|k: int| 0 <= k < p.len() - 1 ==> p[k] != '=' && p[k] != ':',
        secret_prefix(p.drop_last().push('=')),
{
    reveal_strlit("token=");
    reveal_strlit("api_key=");
    reveal_strlit("apikey=");
    reveal_strlit("authorization:");
    reveal_strlit("authorization=");
    if p == "authorization:"@ {
        assert(p.drop_last().push('=') =~= "authorization="@);
    } else {
        assert(p.drop_last().push('=') =~= p);
    }
}

/// Redacting a word twice changes nothing more than redacting it once.
proof fn lemma_redacted_word_idempotent(w: Seq<char>)
    ensures
        redacted_word(redacted_word(w)) == redacted_word(w),
        !bare_authorization(redacted_word(w)),
        plain_word(w) ==> plain_word(redacted_word(w)),
{
    let low = |c: char| spec_ascii_lower(c);
    reveal_strlit("=[REDACTED]");
    reveal_strlit("[REDACTED]");
    reveal_strlit("authorization:");
    reveal_strlit("authorization=");
    if secret_word(w) {
        let lower = w.map_values(low);
        let p = if has_prefix(lower, "token="@) {
            "token="@
        } else if has_prefix(lower, "api_key="@) {
            "api_key="@
        } else if has_prefix(lower, "apikey="@) {
            "apikey="@
        } else if has_prefix(lower, "authorization:"@) {
            "authorization:"@
        } else {
            "authorization="@
        };
        assert(secret_prefix(p));
        lemma_secret_prefix_shape(p);
        lemma_separator_at(w, p, 0);
        let m = p.len() - 1;
        let x = w.take(m) + "=[REDACTED]"@;
        assert(redacted_word(w) == x);
        let q = p.drop_last().push('=');
        lemma_secret_prefix_shape(q);
        let xl = x.map_values(low);
        assert(has_prefix(xl, q)) by {
            assert forall|k: int| 0 <= k < q.len() implies xl.subrange(0, q.len() as int)[k] == q[k] by {
                if k < m {
                    assert(x[k] == w[k]);
                    assert(lower.subrange(0, p.len() as int)[k] == p[k]);
                } else {
                    assert(x[k] == '=');
                }
            }
            assert(xl.subrange(0, q.len() as int) =~= q);
        }
        assert(secret_word(x)) by {
            if q == "token="@ {} else if q == "api_key="@ {} else if q == "apikey="@ {} else {}
        }
        lemma_separator_at(x, q, 0);
        assert(x.take(m) =~= w.take(m));
        assert(xl.last() == ']');
        assert(xl != "authorization:"@ && xl != "authorization="@) by {
            if xl == "authorization:"@ {
                assert(xl.last() == ':');
            }
            if xl == "authorization="@ {
                assert(xl.last() == '=');
            }
        }
        if plain_word(w) {
            assert forall|k: int| 0 <= k < x.len() implies !spec_is_whitespace(#[trigger] x[k]) by {
                if k < m {
                    assert(x[k] == w[k]);
                }
            }
        }
    } else {
        let lower = w.map_values(low);
        if bare_authorization(w) {
            assert(lower.subrange(0, lower.len() as int) =~= lower);
            assert(has_prefix(lower, "authorization:"@) || has_prefix(lower, "authorization="@));
        }
    }
}

/// The redaction marker is left as it is, and is no authorization key.
proof fn lemma_marker_is_plain()
    ensures
        redacted_word("[REDACTED]"@) == "[REDACTED]"@,
        !bare_authorization("[REDACTED]"@),
        plain_word("[REDACTED]"@),
{
    reveal_strlit("[REDACTED]");
    reveal_strlit("token=");
    reveal_strlit("api_key=");
    reveal_strlit("apikey=");
    reveal_strlit("authorization:");
    reveal_strlit("authorization=");
    let lower = "[REDACTED]"@.map_values(|c: char| spec_ascii_lower(c));
    assert(lower[0] == '[');
    assert(!secret_word("[REDACTED]"@)) by {
        if has_prefix(lower, "token="@) {
            assert(lower.subrange(0, 6)[0] == 't');
        }
        if has_prefix(lower, "api_key="@) {
            assert(lower.subrange(0, 8)[0] == 'a');
        }
        if has_prefix(lower, "apikey="@) {
            assert(lower.subrange(0, 7)[0] == 'a');
        }
        if has_prefix(lower, "authorization:"@) {
            assert(lower.subrange(0, 14)[0] == 'a');
        }
        if has_prefix(lower, "authorization="@) {
            assert(lower.subrange(0, 14)[0] == 'a');
        }
    }
    assert(lower.len() == 10);
}

/// Redacted text consists of the text's words, each redacted as
/// `sanitized_word` says, one for one and in order, joined by single spaces:
/// splitting the result gives exactly those words back.
pub proof fn lemma_sanitized_text_words(s: Seq<char>)
    ensures
        sanitized_words(words(s)).len() == words(s).len(),
        words(sanitized_text(s)) == sanitized_words(words(s)),
        sanitized_text(s) == join_words(words(sanitized_text(s))),
        forall|i: int|
            0 <= i < sanitized_words(words(s)).len() ==> plain_word(#[trigger] sanitized_words(words(s))[i])
                && !bare_authorization(sanitized_words(words(s))[i]) && redacted_word(
                sanitized_words(words(s))[i],
            ) == sanitized_words(words(s))[i],
{
    let ws = words(s);
    let os = sanitized_words(ws);
    lemma_words_plain(s);
    lemma_marker_is_plain();
    assert forall|i: int| 0 <= i < os.len() implies plain_word(#[trigger] os[i]) && !bare_authorization(os[i])
        && redacted_word(os[i]) == os[i] by {
        lemma_redacted_word_idempotent(ws[i]);
    }
    lemma_words_of_join(os);
}

/// Redacting text that is already redacted changes nothing.
pub proof fn lemma_sanitized_text_idempotent(s: Seq<char>)
    ensures
        sanitized_text(sanitized_text(s)) == sanitized_text(s),
{
    let ws = words(s);
    let os = sanitized_words(ws);
    lemma_sanitized_text_words(s);
    assert(sanitized_words(os) =~= os) by {
        assert forall|i: int| 0 <= i < os.len() implies #[trigger] sanitized_words(os)[i] == os[i] by {
            assert(!detached_credential(os, i));
        }
    }
}

// ---------------------------------------------------------------------------
// JSON details

/// A key with its non-alphanumeric characters removed and ASCII lowercased.
pub open spec fn normalized_key(key: Seq<char>) -> Seq<char> {
    key.filter(|c: char| spec_is_ascii_alphanumeric(c)).map_values(|c: char| spec_ascii_lower(c))
}

/// Whether `pattern` occurs in `s`.
pub open spec fn contains_text(s: Seq<char>, pattern: Seq<char>) -> bool {
    exists|i: int| 0 <= i <= s.len() - pattern.len() && #[trigger] s.subrange(i, i + pattern.len()) == pattern
}

/// Whether a JSON key names a secret.
pub open spec fn sensitive_key(key: Seq<char>) -> bool {
    let n = normalized_key(key);
    ||| contains_text(n, "token"@)
    ||| contains_text(n, "apikey"@)
    ||| contains_text(n, "secret"@)
    ||| contains_text(n, "privatekey"@)
    ||| contains_text(n, "accesskey"@)
    ||| n == "authorization"@
    ||| n == "password"@
    ||| n == "passwd"@
    ||| n == "cookie"@
    ||| n == "setcookie"@
}

/// A JSON value as it is written: strings redacted as free text; the value of
/// every member whose key is sensitive replaced by `"[REDACTED]"`.
pub open spec fn sanitized_json(v: JsonView) -> JsonView
    decreases v,
{
    match v {
        JsonView::Str(s) => JsonView::Str(sanitized_text(s)),
        JsonView::Array(items) => JsonView::Array(
            Seq::new(
                items.len(),
                |i: int|
                    if 0 <= i < items.len() {
                        sanitized_json(items[i])
                    } else {
                        JsonView::Null
                    },
            ),
        ),
        JsonView::Object(members) => JsonView::Object(
            Seq::new(
                members.len(),
                |i: int|
                    if 0 <= i < members.len() {
                        (
                            members[i].0,
                            if sensitive_key(members[i].0) {
                                JsonView::Str("[REDACTED]"@)
                            } else {
                                sanitized_json(members[i].1)
                            },
                        )
                    } else {
                        (Seq::empty(), JsonView::Null)
                    },
            ),
        ),
        _ => v,
    }
}

/// No value is left under a sensitive key, at any depth.
pub open spec fn no_secret_values(v: JsonView) -> bool
    decreases v,
{
    match v {
        JsonView::Array(items) => forall|i: int|
            0 <= i < items.len() ==> no_secret_values(#[trigger] items[i]),
        JsonView::Object(members) => forall|i: int|
            0 <= i < members.len() ==> if sensitive_key(#[trigger] members[i].0) {
                members[i].1 == JsonView::Str("[REDACTED]"@)
            } else {
                no_secret_values(members[i].1)
            },
        _ => true,
    }
}

/// Redacted details never hold a value under a sensitive key.
pub proof fn lemma_sanitized_json_has_no_secrets(v: JsonView)
    ensures
        no_secret_values(sanitized_json(v)),
    decreases v,
{
    match v {
        JsonView::Array(items) => {
            let out = sanitized_json(v);
            assert forall|i: int| 0 <= i < items.len() implies no_secret_values(
                #[trigger] out->Array_0[i],
            ) by {
                lemma_sanitized_json_has_no_secrets(items[i]);
            }
        },
        JsonView::Object(members) => {
            let out = sanitized_json(v);
            assert forall|i: int| 0 <= i < members.len() implies (if sensitive_key(
                #[trigger] out->Object_0[i].0,
            ) {
                out->Object_0[i].1 == JsonView::Str("[REDACTED]"@)
            } else {
                no_secret_values(out->Object_0[i].1)
            }) by {
                if !sensitive_key(members[i].0) {
                    lemma_sanitized_json_has_no_secrets(members[i].1);
                }
            }
        },
        _ => {},
    }
}

// ---------------------------------------------------------------------------
// Executable redaction

/// Whether `s`, ASCII-lowercased, starts with `prefix`.
fn lower_starts_with(s: &str, prefix: &str) -> (r: bool)
    ensures
        r == has_prefix(s@.map_values(|c: char| spec_ascii_lower(c)), prefix@),
{
    let n = s.unicode_len();
    let m = prefix.unicode_len();
    let ghost lower = s@.map_values(|c: char| spec_ascii_lower(c));
    if m > n {
        return false;
    }
    let mut i: usize = 0;
    while i < m
        invariant
            m == prefix@.len(),
            n == s@.len(),
            m <= n,
            i <= m,
            lower == s@.map_values(|c: char| spec_ascii_lower(c)),
            forall|j: int| 0 <= j < i ==> lower[j] == prefix@[j],
        decreases m - i,
    {
        if ascii_lower(s.get_char(i)) != prefix.get_char(i) {
            proof {
                assert(lower.subrange(0, m as int)[i as int] != prefix@[i as int]);
            }
            return false;
        }
        i = i + 1;
    }
    proof {
        assert(lower.subrange(0, m as int) =~= prefix@);
    }
    true
}

/// Index of the first `=` or `:` in `w`, if any.
fn find_separator(w: &str) -> (r: Option<usize>)
    ensures
        match r {
            Some(k) => separator_index(w@, 0) == Some(k as int) && k < w@.len(),
            None => separator_index(w@, 0) is None,
        },
{
    let n = w.unicode_len();
    let mut i: usize = 0;
    while i < n
        invariant
            n == w@.len(),
            i <= n,
            separator_index(w@, 0) == separator_index(w@, i as int),
        decreases n - i,
    {
        let c = w.get_char(i);
        if c == '=' || c == ':' {
            return Some(i);
        }
        i = i + 1;
    }
    None
}

/// A word as it is written; see `redacted_word`.
fn redact_word(w: &str) -> (r: String)
    ensures
        r@ == redacted_word(w@),
{
    if lower_starts_with(w, "token=") || lower_starts_with(w, "api_key=") || lower_starts_with(
        w,
        "apikey=",
    ) || lower_starts_with(w, "authorization:") || lower_starts_with(w, "authorization=") {
        match find_separator(w) {
            Some(k) => {
                let mut out = String::from_str(w.substring_char(0, k));
                out.append("=[REDACTED]");
                proof {
                    assert(w@.subrange(0, k as int) =~= w@.take(k as int));
                }
                out
            },
            None => String::from_str("[REDACTED]"),
        }
    } else {
        String::from_str(w)
    }
}

proof fn lemma_words_step(s: Seq<char>, i: int)
    requires
        0 <= i < s.len(),
    ensures
        s.take(i + 1).drop_last() == s.take(i),
        s.take(i + 1).last() == s[i],
        i >= 1 ==> s.take(i + 1)[i - 1] == s[i - 1],
{
    assert(s.take(i + 1).drop_last() =~= s.take(i));
}

proof fn lemma_join_push(ws: Seq<Seq<char>>, w: Seq<char>)
    ensures
        join_words(ws.push(w)) == if ws.len() == 0 {
            w
        } else {
            join_words(ws) + seq![' '] + w
        },
{
    assert(ws.push(w).drop_last() =~= ws);
}

/// The text of each string.
pub open spec fn texts(v: Seq<String>) -> Seq<Seq<char>> {
    v.map_values(|t: String| t@)
}

/// The whitespace-separated words of `text`; see `words`.
fn split_words(text: &str) -> (r: Vec<String>)
    ensures
        texts(r@) == words(text@),
{
    let n = text.unicode_len();
    let mut done: Vec<String> = Vec::new();
    let mut in_word = false;
    let mut start: usize = 0;
    let mut i: usize = 0;
    while i < n
        invariant
            n == text@.len(),
            i <= n,
            in_word ==> start < i,
            in_word <==> (i > 0 && !spec_is_whitespace(text@[i - 1])),
            (if in_word {
                texts(done@).push(text@.subrange(start as int, i as int))
            } else {
                texts(done@)
            }) == words(text@.take(i as int)),
        decreases n - i,
    {
        let c = text.get_char(i);
        proof {
            lemma_words_step(text@, i as int);
        }
        if is_whitespace(c) {
            if in_word {
                let word = String::from_str(text.substring_char(start, i));
                let ghost before = done@;
                done.push(word);
                proof {
                    assert(texts(done@) =~= texts(before).push(text@.subrange(start as int, i as int)));
                }
                in_word = false;
            }
        } else {
            if in_word {
                proof {
                    let w = words(text@.take(i as int));
                    assert(text@.subrange(start as int, i + 1) =~= text@.subrange(
                        start as int,
                        i as int,
                    ).push(c));
                    assert(texts(done@).push(text@.subrange(start as int, i + 1)) =~= w.update(
                        w.len() - 1,
                        w.last().push(c),
                    ));
                }
            } else {
                start = i;
                proof {
                    assert(text@.subrange(start as int, i + 1) =~= seq![c]);
                }
            }
            in_word = true;
        }
        i = i + 1;
    }
    proof {
        assert(text@.take(n as int) =~= text@);
    }
    if in_word {
        let word = String::from_str(text.substring_char(start, n));
        let ghost before = done@;
        done.push(word);
        proof {
            assert(texts(done@) =~= texts(before).push(text@.subrange(start as int, n as int)));
        }
    }
    done
}

/// Whether `s`, ASCII-lowercased, is exactly `target`.
fn lower_equals(s: &str, target: &str) -> (r: bool)
    ensures
        r == (s@.map_values(|c: char| spec_ascii_lower(c)) == target@),
{
    let ghost lower = s@.map_values(|c: char| spec_ascii_lower(c));
    if s.unicode_len() != target.unicode_len() {
        proof {
            assert(lower.len() == s@.len());
        }
        return false;
    }
    let b = lower_starts_with(s, target);
    proof {
        assert(lower.len() == target@.len());
        assert(lower.subrange(0, target@.len() as int) =~= lower);
    }
    b
}

/// Whether a word is a bare authorization key; see `bare_authorization`.
fn is_bare_authorization(w: &str) -> (r: bool)
    ensures
        r == bare_authorization(w@),
{
    lower_equals(w, "authorization:") || lower_equals(w, "authorization=")
}

/// Whether a word names an authorization scheme; see `authorization_scheme`.
fn is_authorization_scheme(w: &str) -> (r: bool)
    ensures
        r == authorization_scheme(w@),
{
    lower_equals(w, "bearer") || lower_equals(w, "basic") || lower_equals(w, "digest") || lower_equals(
        w,
        "token",
    )
}

/// Free text as it is written; see `sanitized_text`.
pub fn sanitize_text(text: &str) -> (r: String)
    ensures
        r@ == sanitized_text(text@),
{
    let ws = split_words(text);
    let ghost wv = texts(ws@);
    let ghost outw = sanitized_words(wv);
    let mut out = String::new();
    let mut i: usize = 0;
    while i < ws.len()
        invariant
            wv == texts(ws@),
            wv == words(text@),
            outw == sanitized_words(wv),
            i <= ws@.len(),
            out@ == join_words(outw.take(i as int)),
        decreases ws@.len() - i,
    {
        proof {
            assert(wv[i as int] == ws@[i as int]@);
            if i >= 1 {
                assert(wv[i - 1] == ws@[i - 1]@);
            }
            if i >= 2 {
                assert(wv[i - 2] == ws@[i - 2]@);
            }
        }
        let credential = (i >= 1 && is_bare_authorization(ws[i - 1].as_str())) || (i >= 2
            && is_bare_authorization(ws[i - 2].as_str()) && is_authorization_scheme(ws[i - 1].as_str()));
        let word = if credential {
            String::from_str("[REDACTED]")
        } else {
            redact_word(ws[i].as_str())
        };
        proof {
            assert(credential == detached_credential(wv, i as int));
            assert(word@ == outw[i as int]);
            lemma_join_push(outw.take(i as int), word@);
            assert(outw.take(i + 1) =~= outw.take(i as int).push(word@));
            reveal_strlit(" ");
        }
        if i > 0 {
            out.append(" ");
        }
        out.append(word.as_str());
        i = i + 1;
    }
    proof {
        assert(outw.take(ws@.len() as int) =~= outw);
    }
    out
}

/// Whether `pattern` occurs in `s`.
fn contains_chars(s: &Vec<char>, pattern: &str) -> (r: bool)
    ensures
        r == contains_text(s@, pattern@),
{
    let n = s.len();
    let m = pattern.unicode_len();
    if m > n {
        return false;
    }
    let mut i: usize = 0;
    while i <= n - m
        invariant
            n == s@.len(),
            m == pattern@.len(),
            m <= n,
            i <= n - m + 1,
            forall|k: int| 0 <= k < i ==> #[trigger] s@.subrange(k, k + m) != pattern@,
        decreases n - m + 1 - i,
    {
        let mut j: usize = 0;
        let mut same = true;
        while j < m
            invariant
                n == s@.len(),
                m == pattern@.len(),
                i + m <= n,
                j <= m,
                same == (forall|k: int| 0 <= k < j ==> s@[i + k] == pattern@[k]),
            decreases m - j,
        {
            if s[i + j] != pattern.get_char(j) {
                same = false;
            }
            j = j + 1;
        }
        if same {
            proof {
                assert(s@.subrange(i as int, i + m) =~= pattern@);
            }
            return true;
        }
        proof {
            let k = choose|k: int| 0 <= k < m && s@[i + k] != pattern@[k];
            assert(s@.subrange(i as int, i + m)[k] != pattern@[k]);
        }
        i = i + 1;
    }
    proof {
        assert forall|k: int| 0 <= k <= n - m implies #[trigger] s@.subrange(k, k + m) != pattern@ by {
            assert(k < i);
        }
    }
    false
}

/// Whether `s` is exactly `text`.
fn equals_chars(s: &Vec<char>, text: &str) -> (r: bool)
    ensures
        r == (s@ == text@),
{
    let n = s.len();
    if n != text.unicode_len() {
        return false;
    }
    let mut i: usize = 0;
    while i < n
        invariant
            n == s@.len(),
            n == text@.len(),
            i <= n,
            forall|k: int| 0 <= k < i ==> s@[k] == text@[k],
        decreases n - i,
    {
        if s[i] != text.get_char(i) {
            return false;
        }
        i = i + 1;
    }
    proof {
        assert(s@ =~= text@);
    }
    true
}

/// Whether a JSON key names a secret; see `sensitive_key`.
pub fn is_sensitive_key(key: &str) -> (r: bool)
    ensures
        r == sensitive_key(key@),
{
    let n = key.unicode_len();
    let mut normalized: Vec<char> = Vec::new();
    let ghost keep = |c: char| spec_is_ascii_alphanumeric(c);
    let ghost low = |c: char| spec_ascii_lower(c);
    let mut i: usize = 0;
    while i < n
        invariant
            n == key@.len(),
            i <= n,
            keep == (|c: char| spec_is_ascii_alphanumeric(c)),
            low == (|c: char| spec_ascii_lower(c)),
            normalized@ == key@.take(i as int).filter(keep).map_values(low),
        decreases n - i,
    {
        let c = key.get_char(i);
        proof {
            assert(key@.take(i + 1) =~= key@.take(i as int).push(c));
            key@.take(i as int).lemma_filter_push(c, keep);
        }
        if is_ascii_alphanumeric(c) {
            let ghost before = normalized@;
            normalized.push(ascii_lower(c));
            proof {
                assert(key@.take(i as int).filter(keep).push(c).map_values(low) =~= before.push(
                    spec_ascii_lower(c),
                ));
            }
        }
        i = i + 1;
    }
    proof {
        assert(key@.take(n as int) =~= key@);
        assert(normalized@ == normalized_key(key@));
    }
    contains_chars(&normalized, "token") || contains_chars(&normalized, "apikey") || contains_chars(
        &normalized,
        "secret",
    ) || contains_chars(&normalized, "privatekey") || contains_chars(&normalized, "accesskey")
        || equals_chars(&normalized, "authorization") || equals_chars(&normalized, "password")
        || equals_chars(&normalized, "passwd") || equals_chars(&normalized, "cookie")
        || equals_chars(&normalized, "setcookie")
}

/// A JSON value as it is written; see `sanitized_json`.
#[verifier::loop_isolation(false)]
pub fn sanitize_value(value: &JsonValue) -> (r: JsonValue)
    ensures
        r.view() == sanitized_json(value.view()),
    decreases value,
{
    match value {
        JsonValue::String(text) => JsonValue::String(sanitize_text(text.as_str())),
        JsonValue::Array(items) => {
            proof {
                lemma_array_view(*items);
            }
            let mut out: Vec<JsonValue> = Vec::new();
            let mut i: usize = 0;
            while i < items.len()
                invariant
                    i <= items@.len(),
                    out@.len() == i,
                    forall|j: int|
                        0 <= j < i ==> #[trigger] out@[j].view() == sanitized_json(items@[j].view()),
                decreases items@.len() - i,
            {
                proof {
                    assert(decreases_to!(*items => items[i as int]));
                }
                out.push(sanitize_value(&items[i]));
                i = i + 1;
            }
            proof {
                lemma_array_view(out);
                assert(JsonValue::Array(out).view()->Array_0 =~= sanitized_json(value.view())->Array_0);
            }
            JsonValue::Array(out)
        },
        JsonValue::Object(members) => {
            proof {
                lemma_object_view(*members);
            }
            let mut out: Vec<(String, JsonValue)> = Vec::new();
            let mut i: usize = 0;
            while i < members.len()
                invariant
                    i <= members@.len(),
                    out@.len() == i,
                    forall|j: int|
                        0 <= j < i ==> #[trigger] out@[j].0@ == members@[j].0@ && out@[j].1.view() == (
                        if sensitive_key(members@[j].0@) {
                            JsonView::Str("[REDACTED]"@)
                        } else {
                            sanitized_json(members@[j].1.view())
                        }),
                decreases members@.len() - i,
            {
                proof {
                    assert(decreases_to!(*members => members[i as int]));
                }
                let key = members[i].0.clone();
                let v = if is_sensitive_key(key.as_str()) {
                    JsonValue::string("[REDACTED]")
                } else {
                    sanitize_value(&members[i].1)
                };
                out.push((key, v));
                i = i + 1;
            }
            proof {
                lemma_object_view(out);
                assert(JsonValue::Object(out).view()->Object_0 =~= sanitized_json(value.view())->Object_0);
            }
            JsonValue::Object(out)
        },
        JsonValue::Null => JsonValue::Null,
        JsonValue::Bool(b) => JsonValue::Bool(*b),
        JsonValue::Number(n) => JsonValue::Number(n.duplicate()),
    }
}

/// The record as it is written; see `DiagnosticStore::prepare`.
pub fn sanitize_record(record: &DiagnosticRecord) -> (r: DiagnosticRecord)
    ensures
        r.timestamp_ms == record.timestamp_ms,
        r.restart_count == record.restart_count,
        r.category@ == sanitized_text(record.category@),
        r.message@ == sanitized_text(record.message@),
        r.details.view() == sanitized_json(record.details.view()),
{
    DiagnosticRecord {
        timestamp_ms: record.timestamp_ms,
        category: sanitize_text(record.category.as_str()),
        message: sanitize_text(record.message.as_str()),
        restart_count: record.restart_count,
        details: sanitize_value(&record.details),
    }
}

} // verus!
