use vstd::prelude::*;
use crate::text::{
    chars_of, contains, contains_char, contains_seq, has_whitespace, is_ascii_digit, is_white,
    lowercase_of, starts_with, starts_with_seq, string_of, to_lowercase, trim_chars, trimmed,
    trimming_is_idempotent,
};

verus! {

/// Whether `serde_json::from_str::<serde_json::Value>` accepts `s` as one JSON value.
pub uninterp spec fn is_json_text(s: Seq<char>) -> bool;

/// Calls `serde_json::from_str::<serde_json::Value>` and reports whether it succeeded.
/// Claimed: the answer is `is_json_text(s@)`, a function of the text alone.
#[verifier::external_body]
fn parses_as_json(s: &str) -> (r: bool)
    ensures
        r == is_json_text(s@),
{
    serde_json::from_str::<serde_json::Value>(s).is_ok()
}

/// The lower-case markers whose presence makes a text a secret: password, passwd,
/// `pwd=`, `token=`, `secret=` and 验证码 (verification code).
pub open spec fn has_secret_label(lowered: Seq<char>) -> bool {
    ||| contains_seq(lowered, seq!['p', 'a', 's', 's', 'w', 'o', 'r', 'd'])
    ||| contains_seq(lowered, seq!['p', 'a', 's', 's', 'w', 'd'])
    ||| contains_seq(lowered, seq!['p', 'w', 'd', '='])
    ||| contains_seq(lowered, seq!['t', 'o', 'k', 'e', 'n', '='])
    ||| contains_seq(lowered, seq!['s', 'e', 'c', 'r', 'e', 't', '='])
    ||| contains_seq(lowered, seq!['验', '证', '码'])
}

/// The trimmed text is six ASCII digits, the shape of a one-time code.
pub open spec fn looks_like_one_time_code(s: Seq<char>) -> bool {
    let t = trimmed(s);
    t.len() == 6 && forall|i: int| 0 <= i < t.len() ==> is_ascii_digit(#[trigger] t[i])
}

/// A text appears to be a secret when its lower-case form holds a secret marker or it is
/// a one-time code.
pub open spec fn is_sensitive(s: Seq<char>) -> bool {
    has_secret_label(lowercase_of(s)) || looks_like_one_time_code(s)
}

fn secret_label_in(lowered: &[char]) -> (r: bool)
    ensures
        r == has_secret_label(lowered@),
{
    let password = ['p', 'a', 's', 's', 'w', 'o', 'r', 'd'];
    let passwd = ['p', 'a', 's', 's', 'w', 'd'];
    let pwd = ['p', 'w', 'd', '='];
    let token = ['t', 'o', 'k', 'e', 'n', '='];
    let secret = ['s', 'e', 'c', 'r', 'e', 't', '='];
    let code = ['验', '证', '码'];
    assert(password@ =~= seq!['p', 'a', 's', 's', 'w', 'o', 'r', 'd']);
    assert(passwd@ =~= seq!['p', 'a', 's', 's', 'w', 'd']);
    assert(pwd@ =~= seq!['p', 'w', 'd', '=']);
    assert(token@ =~= seq!['t', 'o', 'k', 'e', 'n', '=']);
    assert(secret@ =~= seq!['s', 'e', 'c', 'r', 'e', 't', '=']);
    assert(code@ =~= seq!['验', '证', '码']);
    contains(lowered, &password) || contains(lowered, &passwd) || contains(lowered, &pwd)
        || contains(lowered, &token) || contains(lowered, &secret) || contains(lowered, &code)
}

/// Whether an already lower-cased text holds one of the secret markers.
pub fn contains_secret_label(lowered: &str) -> (r: bool)
    ensures
        r == has_secret_label(lowered@),
{
    secret_label_in(&chars_of(lowered))
}

fn all_digits(t: &[char]) -> (r: bool)
    ensures
        r == forall|i: int| 0 <= i < t@.len() ==> is_ascii_digit(#[trigger] t@[i]),
{
    let mut i: usize = 0;
    while i < t.len()
        invariant
            i <= t@.len(),
            forall|j: int| 0 <= j < i ==> is_ascii_digit(#[trigger] t@[j]),
        decreases t.len() - i,
    {
        if !('0' <= t[i] && t[i] <= '9') {
            assert(!is_ascii_digit(t@[i as int]));
            return false;
        }
        i = i + 1;
    }
    true
}

/// The lower-case form of some characters (through `str::to_lowercase`).
fn lowercase_chars(t: &[char]) -> (r: Vec<char>)
    ensures
        r@ == lowercase_of(t@),
{
    let l = to_lowercase(string_of(t).as_str());
    chars_of(l.as_str())
}

fn sensitive_chars(v: &[char]) -> (r: bool)
    ensures
        r == is_sensitive(v@),
{
    if secret_label_in(&lowercase_chars(v)) {
        return true;
    }
    let t = trim_chars(v);
    t.len() == 6 && all_digits(&t)
}

/// Whether clipboard text appears to hold a secret: its lower-case form contains
/// password, passwd, `pwd=`, `token=`, `secret=` or 验证码, or, trimmed, it is exactly six
/// ASCII digits.
pub fn appears_sensitive(content: &str) -> (r: bool)
    ensures
        r == is_sensitive(content@),
{
    sensitive_chars(&chars_of(content))
}

/// The kinds of clipboard text.
#[derive(PartialEq, Eq, Structural, Clone, Copy, Debug)]
pub enum ContentKind {
    Json,
    Url,
    Email,
    Code,
    Text,
}

/// The name under which a kind is stored.
pub open spec fn kind_label(k: ContentKind) -> Seq<char> {
    match k {
        ContentKind::Json => "json"@,
        ContentKind::Url => "url"@,
        ContentKind::Email => "email"@,
        ContentKind::Code => "code"@,
        ContentKind::Text => "text"@,
    }
}

impl ContentKind {
    /// The name under which this kind is stored: json, url, email, code or text.
    pub fn label(&self) -> (r: &'static str)
        ensures
            r@ == kind_label(*self),
    {
        match self {
            ContentKind::Json => "json",
            ContentKind::Url => "url",
            ContentKind::Email => "email",
            ContentKind::Code => "code",
            ContentKind::Text => "text",
        }
    }
}

/// The lower-case fragments that mark source code or SQL: `select `, `const `,
/// `function `, `import `, `insert `, `update ` (each with its trailing space).
pub open spec fn has_code_marker(lowered: Seq<char>) -> bool {
    ||| contains_seq(lowered, seq!['s', 'e', 'l', 'e', 'c', 't', ' '])
    ||| contains_seq(lowered, seq!['c', 'o', 'n', 's', 't', ' '])
    ||| contains_seq(lowered, seq!['f', 'u', 'n', 'c', 't', 'i', 'o', 'n', ' '])
    ||| contains_seq(lowered, seq!['i', 'm', 'p', 'o', 'r', 't', ' '])
    ||| contains_seq(lowered, seq!['i', 'n', 's', 'e', 'r', 't', ' '])
    ||| contains_seq(lowered, seq!['u', 'p', 'd', 'a', 't', 'e', ' '])
}

/// The kind of a trimmed text, given whether it is JSON and its lower-case form: JSON
/// first, then a link starting `http://` or `https://`, then an address (an `@` and no
/// white space), then code, and plain text otherwise.
pub open spec fn kind_of_trimmed(t: Seq<char>, is_json: bool, lowered: Seq<char>) -> ContentKind {
    if is_json {
        ContentKind::Json
    } else if starts_with_seq(t, seq!['h', 't', 't', 'p', ':', '/', '/']) || starts_with_seq(
        t,
        seq!['h', 't', 't', 'p', 's', ':', '/', '/'],
    ) {
        ContentKind::Url
    } else if t.contains('@') && !(exists|i: int| 0 <= i < t.len() && is_white(#[trigger] t[i])) {
        ContentKind::Email
    } else if has_code_marker(lowered) {
        ContentKind::Code
    } else {
        ContentKind::Text
    }
}

/// The kind of a clipboard text, judged on its trimmed form.
pub open spec fn content_kind(s: Seq<char>) -> ContentKind {
    let t = trimmed(s);
    kind_of_trimmed(t, is_json_text(t), lowercase_of(t))
}

fn code_marker_in(lowered: &[char]) -> (r: bool)
    ensures
        r == has_code_marker(lowered@),
{
    let select = ['s', 'e', 'l', 'e', 'c', 't', ' '];
    let cnst = ['c', 'o', 'n', 's', 't', ' '];
    let function = ['f', 'u', 'n', 'c', 't', 'i', 'o', 'n', ' '];
    let import = ['i', 'm', 'p', 'o', 'r', 't', ' '];
    let insert = ['i', 'n', 's', 'e', 'r', 't', ' '];
    let update = ['u', 'p', 'd', 'a', 't', 'e', ' '];
    assert(select@ =~= seq!['s', 'e', 'l', 'e', 'c', 't', ' ']);
    assert(cnst@ =~= seq!['c', 'o', 'n', 's', 't', ' ']);
    assert(function@ =~= seq!['f', 'u', 'n', 'c', 't', 'i', 'o', 'n', ' ']);
    assert(import@ =~= seq!['i', 'm', 'p', 'o', 'r', 't', ' ']);
    assert(insert@ =~= seq!['i', 'n', 's', 'e', 'r', 't', ' ']);
    assert(update@ =~= seq!['u', 'p', 'd', 'a', 't', 'e', ' ']);
    contains(lowered, &select) || contains(lowered, &cnst) || contains(lowered, &function)
        || contains(lowered, &import) || contains(lowered, &insert) || contains(lowered, &update)
}

fn kind_of_chars(t: &[char], is_json: bool, lowered: &[char]) -> (r: ContentKind)
    ensures
        r == kind_of_trimmed(t@, is_json, lowered@),
{
    let http = ['h', 't', 't', 'p', ':', '/', '/'];
    let https = ['h', 't', 't', 'p', 's', ':', '/', '/'];
    assert(http@ =~= seq!['h', 't', 't', 'p', ':', '/', '/']);
    assert(https@ =~= seq!['h', 't', 't', 'p', 's', ':', '/', '/']);
    if is_json {
        ContentKind::Json
    } else if starts_with(t, &http) || starts_with(t, &https) {
        ContentKind::Url
    } else if contains_char(t, '@') && !has_whitespace(t) {
        ContentKind::Email
    } else if code_marker_in(lowered) {
        ContentKind::Code
    } else {
        ContentKind::Text
    }
}

/// The kind of a trimmed text, given whether it parsed as JSON and its lower-case form.
pub fn classify_trimmed(trimmed_text: &str, is_json: bool, lowered: &str) -> (r: ContentKind)
    ensures
        r == kind_of_trimmed(trimmed_text@, is_json, lowered@),
{
    kind_of_chars(&chars_of(trimmed_text), is_json, &chars_of(lowered))
}

fn kind_of_content(v: &[char]) -> (r: ContentKind)
    ensures
        r == content_kind(v@),
{
    let t = trim_chars(v);
    let text = string_of(&t);
    let is_json = parses_as_json(text.as_str());
    let lowered = lowercase_chars(&t);
    kind_of_chars(&t, is_json, &lowered)
}

/// The kind of a clipboard text, by its trimmed form: `json` when it parses as JSON,
/// `url` when it starts with `http://` or `https://`, `email` when it holds `@` and no
/// white space, `code` when its lower-case form holds a code marker, `text` otherwise.
pub fn infer_type(content: &str) -> (r: &'static str)
    ensures
        r@ == kind_label(content_kind(content@)),
{
    kind_of_content(&chars_of(content)).label()
}

/// Clipboard text as it is to be stored: trimmed, with its kind.
pub struct TextEntry {
    pub content: String,
    pub kind: ContentKind,
}

/// Decides whether copied text enters the history: nothing is stored for text that is
/// empty once trimmed, nor, when sensitive text is to be protected, for trimmed text that
/// appears to be a secret; otherwise the trimmed text is stored with its kind.
pub fn prepare_text_entry(content: &str, protect_sensitive: bool) -> (r: Option<TextEntry>)
    ensures
        r is None <==> (trimmed(content@).len() == 0 || (protect_sensitive && is_sensitive(
            trimmed(content@),
        ))),
        r matches Some(e) ==> e.content@ == trimmed(content@) && e.kind == content_kind(
            trimmed(content@),
        ),
{
    let t = trim_chars(&chars_of(content));
    if t.len() == 0 {
        return None;
    }
    if protect_sensitive && sensitive_chars(&t) {
        return None;
    }
    let kind = kind_of_content(&t);
    Some(TextEntry { content: string_of(&t), kind })
}

/// A text and its trimmed form have the same kind, so the kind stored with a trimmed
/// entry is the kind of what was copied.
pub proof fn kind_ignores_surrounding_space(s: Seq<char>)
    ensures
        content_kind(trimmed(s)) == content_kind(s),
{
    trimming_is_idempotent(s);
}

/// A trimmed text that is neither JSON, nor a link starting `http://` or `https://`, nor
/// an address (an `@` and no white space) is classified as code exactly when its
/// lower-case form contains `select `, `const `, `function `, `import `, `insert ` or
/// `update `, and as plain text otherwise.
pub proof fn code_exactly_on_markers(t: Seq<char>, lowered: Seq<char>)
    requires
        !starts_with_seq(t, "http://"@),
        !starts_with_seq(t, "https://"@),
        !(t.contains('@') && !(exists|i: int| 0 <= i < t.len() && is_white(#[trigger] t[i]))),
    ensures
        kind_of_trimmed(t, false, lowered) == ContentKind::Code <==> (contains_seq(
            lowered,
            "select "@,
        ) || contains_seq(lowered, "const "@) || contains_seq(lowered, "function "@)
            || contains_seq(lowered, "import "@) || contains_seq(lowered, "insert "@)
            || contains_seq(lowered, "update "@)),
        kind_of_trimmed(t, false, lowered) == ContentKind::Code || kind_of_trimmed(
            t,
            false,
            lowered,
        ) == ContentKind::Text,
{
    reveal_strlit("http://");
    reveal_strlit("https://");
    reveal_strlit("select ");
    reveal_strlit("const ");
    reveal_strlit("function ");
    reveal_strlit("import ");
    reveal_strlit("insert ");
    reveal_strlit("update ");
    assert("http://"@ =~= seq!['h', 't', 't', 'p', ':', '/', '/']);
    assert("https://"@ =~= seq!['h', 't', 't', 'p', 's', ':', '/', '/']);
    assert("select "@ =~= seq!['s', 'e', 'l', 'e', 'c', 't', ' ']);
    assert("const "@ =~= seq!['c', 'o', 'n', 's', 't', ' ']);
    assert("function "@ =~= seq!['f', 'u', 'n', 'c', 't', 'i', 'o', 'n', ' ']);
    assert("import "@ =~= seq!['i', 'm', 'p', 'o', 'r', 't', ' ']);
    assert("insert "@ =~= seq!['i', 'n', 's', 'e', 'r', 't', ' ']);
    assert("update "@ =~= seq!['u', 'p', 'd', 'a', 't', 'e', ' ']);
}

/// Text that parses as JSON is JSON, whatever else it holds; otherwise text starting with
/// `http://` or `https://` is a link.
pub proof fn json_then_link_first(t: Seq<char>, lowered: Seq<char>)
    ensures
        kind_of_trimmed(t, true, lowered) == ContentKind::Json,
        starts_with_seq(t, "http://"@) || starts_with_seq(t, "https://"@) ==> kind_of_trimmed(
            t,
            false,
            lowered,
        ) == ContentKind::Url,
{
    reveal_strlit("http://");
    reveal_strlit("https://");
    assert("http://"@ =~= seq!['h', 't', 't', 'p', ':', '/', '/']);
    assert("https://"@ =~= seq!['h', 't', 't', 'p', 's', ':', '/', '/']);
}

/// A copied text is taken for a secret exactly when its lower-case form contains
/// `password`, `passwd`, `pwd=`, `token=`, `secret=` or `验证码`, or its trimmed form is
/// six ASCII digits `0`-`9`; any other text, such as one holding `pwd` without `=`, is
/// not.
pub proof fn sensitive_exactly_on_markers(s: Seq<char>)
    ensures
        is_sensitive(s) <==> (contains_seq(lowercase_of(s), "password"@) || contains_seq(
            lowercase_of(s),
            "passwd"@,
        ) || contains_seq(lowercase_of(s), "pwd="@) || contains_seq(lowercase_of(s), "token="@)
            || contains_seq(lowercase_of(s), "secret="@) || contains_seq(
            lowercase_of(s),
            "验证码"@,
        ) || (trimmed(s).len() == 6 && forall|i: int|
            0 <= i < 6 ==> '0' <= #[trigger] trimmed(s)[i] && trimmed(s)[i] <= '9')),
{
    reveal_strlit("password");
    reveal_strlit("passwd");
    reveal_strlit("pwd=");
    reveal_strlit("token=");
    reveal_strlit("secret=");
    reveal_strlit("验证码");
    assert("password"@ =~= seq!['p', 'a', 's', 's', 'w', 'o', 'r', 'd']);
    assert("passwd"@ =~= seq!['p', 'a', 's', 's', 'w', 'd']);
    assert("pwd="@ =~= seq!['p', 'w', 'd', '=']);
    assert("token="@ =~= seq!['t', 'o', 'k', 'e', 'n', '=']);
    assert("secret="@ =~= seq!['s', 'e', 'c', 'r', 'e', 't', '=']);
    assert("验证码"@ =~= seq!['验', '证', '码']);
}

} // verus!
