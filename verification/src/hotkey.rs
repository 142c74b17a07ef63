use vstd::prelude::*;
use crate::text::{
    all_ascii, chars_eq, chars_of, is_ascii_alnum, is_white, lemma_trimmed_is_part, lowercase_of,
    string_of, to_lowercase, trim_chars, trim_end, trim_start, trimmed, trimming_is_idempotent,
};

verus! {

/// The pieces of `s` between `+` signs (what `str::split('+')` yields): a text without
/// `+` is one piece, and every `+` starts a new one.
pub open spec fn split_plus(s: Seq<char>) -> Seq<Seq<char>>
    decreases s.len(),
{
    if s.len() == 0 {
        seq![Seq::<char>::empty()]
    } else {
        let prev = split_plus(s.drop_last());
        if s.last() == '+' {
            prev.push(Seq::<char>::empty())
        } else {
            prev.update(prev.len() - 1, prev.last().push(s.last()))
        }
    }
}

/// The pieces, each trimmed, with the empty ones left out.
pub open spec fn clean_tokens(pieces: Seq<Seq<char>>) -> Seq<Seq<char>>
    decreases pieces.len(),
{
    if pieces.len() == 0 {
        Seq::<Seq<char>>::empty()
    } else {
        let rest = clean_tokens(pieces.drop_last());
        let t = trimmed(pieces.last());
        if t.len() > 0 {
            rest.push(t)
        } else {
            rest
        }
    }
}

/// The tokens of a hotkey text: its `+`-separated pieces, trimmed, empty ones dropped.
pub open spec fn hotkey_tokens(s: Seq<char>) -> Seq<Seq<char>> {
    clean_tokens(split_plus(s))
}

/// The lower-case modifier names: ctrl, control, shift, alt, super, meta.
pub open spec fn is_modifier_word(w: Seq<char>) -> bool {
    ||| w == seq!['c', 't', 'r', 'l']
    ||| w == seq!['c', 'o', 'n', 't', 'r', 'o', 'l']
    ||| w == seq!['s', 'h', 'i', 'f', 't']
    ||| w == seq!['a', 'l', 't']
    ||| w == seq!['s', 'u', 'p', 'e', 'r']
    ||| w == seq!['m', 'e', 't', 'a']
}

/// The lower-case function key names f1 to f12.
pub open spec fn is_function_key_word(w: Seq<char>) -> bool {
    ||| (w.len() == 2 && w[0] == 'f' && '1' <= w[1] && w[1] <= '9')
    ||| (w.len() == 3 && w[0] == 'f' && w[1] == '1' && '0' <= w[2] && w[2] <= '2')
}

/// A key that may end a hotkey: one ASCII letter or digit, or a function key name in
/// any case.
pub open spec fn is_key_token(k: Seq<char>) -> bool {
    (k.len() == 1 && is_ascii_alnum(k[0])) || is_function_key_word(lowercase_of(k))
}

/// A valid hotkey has at least two tokens; all but the last are modifiers (in any case)
/// and the last is a key.
pub open spec fn hotkey_is_valid(s: Seq<char>) -> bool {
    let t = hotkey_tokens(s);
    &&& t.len() >= 2
    &&& (forall|i: int| 0 <= i < t.len() - 1 ==> is_modifier_word(lowercase_of(#[trigger] t[i])))
    &&& is_key_token(t.last())
}

/// The views of a list of character vectors.
pub open spec fn views(v: Seq<Vec<char>>) -> Seq<Seq<char>> {
    v.map_values(|x: Vec<char>| x@)
}

proof fn lemma_split_plus_nonempty(s: Seq<char>)
    ensures
        split_plus(s).len() >= 1,
    decreases s.len(),
{
    if s.len() > 0 {
        lemma_split_plus_nonempty(s.drop_last());
    }
}

/// The hotkey tokens of `s`.
pub fn tokens_of(s: &[char]) -> (r: Vec<Vec<char>>)
    ensures
        views(r@) == hotkey_tokens(s@),
{
    let n = s.len();
    let mut tokens: Vec<Vec<char>> = Vec::new();
    let mut piece: Vec<char> = Vec::new();
    let mut i: usize = 0;
    proof {
        lemma_split_plus_nonempty(s@.take(0));
        assert(views(tokens@) =~= clean_tokens(split_plus(s@.take(0)).drop_last()));
    }
    while i < n
        invariant
            n == s@.len(),
            i <= n,
            split_plus(s@.take(i as int)).len() >= 1,
            split_plus(s@.take(i as int)).last() == piece@,
            views(tokens@) == clean_tokens(split_plus(s@.take(i as int)).drop_last()),
        decreases n - i,
    {
        let c = s[i];
        let ghost p = split_plus(s@.take(i as int));
        assert(s@.take(i + 1).drop_last() =~= s@.take(i as int));
        assert(s@.take(i + 1).last() == c);
        if c == '+' {
            let t = trim_chars(&piece);
            let ghost old_tokens = tokens@;
            if t.len() > 0 {
                tokens.push(t);
                assert(views(tokens@) =~= views(old_tokens).push(t@));
            }
            piece = Vec::new();
            assert(split_plus(s@.take(i + 1)).drop_last() =~= p);
        } else {
            piece.push(c);
            assert(split_plus(s@.take(i + 1)).drop_last() =~= p.drop_last());
        }
        i = i + 1;
    }
    assert(s@.take(n as int) =~= s@);
    let t = trim_chars(&piece);
    let ghost old_tokens = tokens@;
    if t.len() > 0 {
        tokens.push(t);
        assert(views(tokens@) =~= views(old_tokens).push(t@));
    }
    tokens
}

/// The hotkey token that `t` stands for after normalising: the names win, windows and
/// meta (in any case) become `Super`, control becomes `Ctrl`, and any other token is kept.
pub open spec fn canonical_token(t: Seq<char>) -> Seq<char> {
    let l = lowercase_of(t);
    if l == seq!['w', 'i', 'n'] || l == seq!['w', 'i', 'n', 'd', 'o', 'w', 's'] || l == seq![
        'm',
        'e',
        't',
        'a',
    ] {
        seq!['S', 'u', 'p', 'e', 'r']
    } else if l == seq!['c', 'o', 'n', 't', 'r', 'o', 'l'] {
        seq!['C', 't', 'r', 'l']
    } else {
        t
    }
}

/// The pieces joined with `+` between them.
pub open spec fn join_plus(ts: Seq<Seq<char>>) -> Seq<char>
    decreases ts.len(),
{
    if ts.len() == 0 {
        Seq::<char>::empty()
    } else if ts.len() == 1 {
        ts[0]
    } else {
        join_plus(ts.drop_last()) + seq!['+'] + ts.last()
    }
}

/// The canonical tokens of a hotkey text.
pub open spec fn canonical_tokens(s: Seq<char>) -> Seq<Seq<char>> {
    hotkey_tokens(s).map_values(|t: Seq<char>| canonical_token(t))
}

/// The normal form of a hotkey text: its canonical tokens joined with `+`.
pub open spec fn normalized_hotkey(s: Seq<char>) -> Seq<char> {
    join_plus(canonical_tokens(s))
}

/// The lower-case form of `t` (through `str::to_lowercase`).
fn lower_chars(t: &[char]) -> (r: Vec<char>)
    ensures
        r@ == lowercase_of(t@),
{
    let s = string_of(t);
    let l = to_lowercase(s.as_str());
    chars_of(l.as_str())
}

fn modifier_chars(w: &[char]) -> (r: bool)
    ensures
        r == is_modifier_word(w@),
{
    let ctrl = ['c', 't', 'r', 'l'];
    let control = ['c', 'o', 'n', 't', 'r', 'o', 'l'];
    let shift = ['s', 'h', 'i', 'f', 't'];
    let alt = ['a', 'l', 't'];
    let sup = ['s', 'u', 'p', 'e', 'r'];
    let meta = ['m', 'e', 't', 'a'];
    assert(ctrl@ =~= seq!['c', 't', 'r', 'l']);
    assert(control@ =~= seq!['c', 'o', 'n', 't', 'r', 'o', 'l']);
    assert(shift@ =~= seq!['s', 'h', 'i', 'f', 't']);
    assert(alt@ =~= seq!['a', 'l', 't']);
    assert(sup@ =~= seq!['s', 'u', 'p', 'e', 'r']);
    assert(meta@ =~= seq!['m', 'e', 't', 'a']);
    chars_eq(w, &ctrl) || chars_eq(w, &control) || chars_eq(w, &shift) || chars_eq(w, &alt)
        || chars_eq(w, &sup) || chars_eq(w, &meta)
}

fn function_key_chars(w: &[char]) -> (r: bool)
    ensures
        r == is_function_key_word(w@),
{
    (w.len() == 2 && w[0] == 'f' && '1' <= w[1] && w[1] <= '9') || (w.len() == 3 && w[0] == 'f'
        && w[1] == '1' && '0' <= w[2] && w[2] <= '2')
}

fn ascii_alnum_char(c: char) -> (r: bool)
    ensures
        r == is_ascii_alnum(c),
{
    ('a' <= c && c <= 'z') || ('A' <= c && c <= 'Z') || ('0' <= c && c <= '9')
}

/// Whether an already lower-cased token names a modifier key.
pub fn is_modifier_name(lowered: &str) -> (r: bool)
    ensures
        r == is_modifier_word(lowered@),
{
    let w = chars_of(lowered);
    modifier_chars(&w)
}

/// Whether an already lower-cased token names a function key f1 to f12.
pub fn is_function_key_name(lowered: &str) -> (r: bool)
    ensures
        r == is_function_key_word(lowered@),
{
    let w = chars_of(lowered);
    function_key_chars(&w)
}

/// Whether `hotkey` is a usable global shortcut: at least one modifier (ctrl, control,
/// shift, alt, super or meta, in any case) before a final key that is one ASCII letter or
/// digit or one of f1 to f12; tokens are separated by `+` and trimmed, empty ones ignored.
pub fn valid_hotkey(hotkey: &str) -> (r: bool)
    ensures
        r == hotkey_is_valid(hotkey@),
{
    let s = chars_of(hotkey);
    let tokens = tokens_of(&s);
    let ghost t = hotkey_tokens(hotkey@);
    let n = tokens.len();
    assert(t.len() == n);
    if n < 2 {
        return false;
    }
    let mut i: usize = 0;
    while i < n - 1
        invariant
            n == tokens@.len() == t.len(),
            t == hotkey_tokens(hotkey@),
            n >= 2,
            views(tokens@) == t,
            i <= n - 1,
            forall|j: int| 0 <= j < i ==> is_modifier_word(lowercase_of(#[trigger] t[j])),
        decreases n - 1 - i,
    {
        assert(views(tokens@)[i as int] == tokens@[i as int]@);
        let l = lower_chars(tokens[i].as_slice());
        if !modifier_chars(&l) {
            assert(!is_modifier_word(lowercase_of(t[i as int])));
            assert(0 <= i < t.len() - 1);
            return false;
        }
        i = i + 1;
    }
    let key = tokens[n - 1].as_slice();
    assert(views(tokens@)[n - 1] == tokens@[n - 1]@);
    if key.len() == 1 && ascii_alnum_char(key[0]) {
        return true;
    }
    let l = lower_chars(key);
    function_key_chars(&l)
}

/// The canonical form of one token.
fn canonical_chars(t: &[char]) -> (r: Vec<char>)
    ensures
        r@ == canonical_token(t@),
{
    let l = lower_chars(t);
    let win = ['w', 'i', 'n'];
    let windows = ['w', 'i', 'n', 'd', 'o', 'w', 's'];
    let meta = ['m', 'e', 't', 'a'];
    let control = ['c', 'o', 'n', 't', 'r', 'o', 'l'];
    assert(win@ =~= seq!['w', 'i', 'n']);
    assert(windows@ =~= seq!['w', 'i', 'n', 'd', 'o', 'w', 's']);
    assert(meta@ =~= seq!['m', 'e', 't', 'a']);
    assert(control@ =~= seq!['c', 'o', 'n', 't', 'r', 'o', 'l']);
    if chars_eq(&l, &win) || chars_eq(&l, &windows) || chars_eq(&l, &meta) {
        let r = vec!['S', 'u', 'p', 'e', 'r'];
        assert(r@ =~= seq!['S', 'u', 'p', 'e', 'r']);
        r
    } else if chars_eq(&l, &control) {
        let r = vec!['C', 't', 'r', 'l'];
        assert(r@ =~= seq!['C', 't', 'r', 'l']);
        r
    } else {
        copy_all(t)
    }
}

fn copy_all(t: &[char]) -> (r: Vec<char>)
    ensures
        r@ == t@,
{
    let mut r: Vec<char> = Vec::new();
    let mut i: usize = 0;
    while i < t.len()
        invariant
            i <= t@.len(),
            r@ == t@.take(i as int),
        decreases t.len() - i,
    {
        r.push(t[i]);
        i = i + 1;
    }
    assert(t@.take(t@.len() as int) =~= t@);
    r
}

/// The normal form of a hotkey: its tokens trimmed and joined with `+`, empty tokens
/// dropped, and win, windows, meta written `Super` and control written `Ctrl`.
pub fn normalize_hotkey(hotkey: &str) -> (r: String)
    ensures
        r@ == normalized_hotkey(hotkey@),
{
    let s = chars_of(hotkey);
    let tokens = tokens_of(&s);
    let ghost c = canonical_tokens(hotkey@);
    let n = tokens.len();
    let mut out: Vec<char> = Vec::new();
    let mut i: usize = 0;
    assert(c.take(0) =~= Seq::<Seq<char>>::empty());
    while i < n
        invariant
            n == tokens@.len() == c.len(),
            views(tokens@) == hotkey_tokens(hotkey@),
            c == canonical_tokens(hotkey@),
            i <= n,
            out@ == join_plus(c.take(i as int)),
        decreases n - i,
    {
        assert(views(tokens@)[i as int] == tokens@[i as int]@);
        let piece = canonical_chars(tokens[i].as_slice());
        assert(c.take(i + 1).drop_last() =~= c.take(i as int));
        if i > 0 {
            out.push('+');
        }
        let ghost before = out@;
        let mut k: usize = 0;
        while k < piece.len()
            invariant
                k <= piece@.len(),
                out@ == before + piece@.take(k as int),
            decreases piece.len() - k,
        {
            out.push(piece[k]);
            assert(piece@.take(k + 1) =~= piece@.take(k as int).push(piece@[k as int]));
            k = k + 1;
        }
        assert(piece@.take(piece@.len() as int) =~= piece@);
        i = i + 1;
    }
    assert(c.take(n as int) =~= c);
    string_of(&out)
}

/// `t` holds no `+`.
pub open spec fn plus_free(t: Seq<char>) -> bool {
    forall|j: int| 0 <= j < t.len() ==> t[j] != '+'
}

/// `t` can stand as a token on its own: not empty, already trimmed, no `+` in it.
pub open spec fn clean_token(t: Seq<char>) -> bool {
    t.len() > 0 && trimmed(t) == t && plus_free(t)
}

proof fn lemma_split_pieces_plus_free(s: Seq<char>)
    ensures
        forall|i: int| 0 <= i < split_plus(s).len() ==> plus_free(#[trigger] split_plus(s)[i]),
    decreases s.len(),
{
    lemma_split_plus_nonempty(s);
    if s.len() > 0 {
        lemma_split_pieces_plus_free(s.drop_last());
        lemma_split_plus_nonempty(s.drop_last());
        let prev = split_plus(s.drop_last());
        if s.last() != '+' {
            let p = prev.last().push(s.last());
            assert(plus_free(prev[prev.len() - 1]));
            assert(plus_free(p));
        }
    }
}

proof fn lemma_split_append(a: Seq<char>, b: Seq<char>)
    requires
        plus_free(b),
    ensures
        split_plus(a + b) == split_plus(a).update(
            split_plus(a).len() - 1,
            split_plus(a).last() + b,
        ),
    decreases b.len(),
{
    lemma_split_plus_nonempty(a);
    let sa = split_plus(a);
    if b.len() == 0 {
        assert(a + b =~= a);
        assert(sa.last() + b =~= sa.last());
        assert(sa.update(sa.len() - 1, sa.last() + b) =~= sa);
    } else {
        let b2 = b.drop_last();
        assert(plus_free(b2));
        lemma_split_append(a, b2);
        assert((a + b).drop_last() =~= a + b2);
        assert((a + b).last() == b.last());
        assert(b[b.len() - 1] != '+');
        let prev = split_plus(a + b2);
        assert(prev.last() == sa.last() + b2);
        assert(prev.last().push(b.last()) =~= sa.last() + b);
        assert(prev.update(prev.len() - 1, prev.last().push(b.last())) =~= sa.update(
            sa.len() - 1,
            sa.last() + b,
        ));
    }
}

proof fn lemma_split_sep(a: Seq<char>, b: Seq<char>)
    requires
        plus_free(b),
    ensures
        split_plus(a + seq!['+'] + b) == split_plus(a).push(b),
{
    let a2 = a + seq!['+'];
    assert(a2.drop_last() =~= a);
    assert(a2.last() == '+');
    assert(split_plus(a2) == split_plus(a).push(Seq::<char>::empty()));
    lemma_split_append(a2, b);
    let sa = split_plus(a);
    assert(Seq::<char>::empty() + b =~= b);
    assert(sa.push(Seq::<char>::empty()).update(sa.len() as int, b) =~= sa.push(b));
}

proof fn lemma_split_join(ts: Seq<Seq<char>>)
    requires
        ts.len() >= 1,
        forall|i: int| 0 <= i < ts.len() ==> plus_free(#[trigger] ts[i]),
    ensures
        split_plus(join_plus(ts)) == ts,
    decreases ts.len(),
{
    if ts.len() == 1 {
        let e = Seq::<char>::empty();
        lemma_split_append(e, ts[0]);
        assert(e + ts[0] =~= ts[0]);
        assert(split_plus(e) == seq![e]);
        assert(seq![e].update(0, e + ts[0]) =~= ts);
    } else {
        let init = ts.drop_last();
        assert forall|i: int| 0 <= i < init.len() implies plus_free(#[trigger] init[i]) by {
            assert(init[i] == ts[i]);
        }
        lemma_split_join(init);
        assert(plus_free(ts[ts.len() - 1]));
        lemma_split_sep(join_plus(init), ts.last());
        assert(init.push(ts.last()) =~= ts);
    }
}

proof fn lemma_clean_identity(ts: Seq<Seq<char>>)
    requires
        forall|i: int| 0 <= i < ts.len() ==> clean_token(#[trigger] ts[i]),
    ensures
        clean_tokens(ts) == ts,
    decreases ts.len(),
{
    if ts.len() > 0 {
        let init = ts.drop_last();
        assert forall|i: int| 0 <= i < init.len() implies clean_token(#[trigger] init[i]) by {
            assert(init[i] == ts[i]);
        }
        lemma_clean_identity(init);
        assert(clean_token(ts[ts.len() - 1]));
        assert(init.push(ts.last()) =~= ts);
    }
}

/// Splitting a `+`-joined list of clean tokens gives the list back.
proof fn lemma_tokens_of_join(ts: Seq<Seq<char>>)
    requires
        forall|i: int| 0 <= i < ts.len() ==> clean_token(#[trigger] ts[i]),
    ensures
        hotkey_tokens(join_plus(ts)) == ts,
{
    if ts.len() == 0 {
        let e = Seq::<char>::empty();
        assert(split_plus(e) == seq![e]);
        assert(seq![e].drop_last() =~= Seq::<Seq<char>>::empty());
        assert(trim_start(e) == e);
        assert(trim_end(e) == e);
        assert(trimmed(e) == e);
        assert(seq![e].last() == e);
        assert(clean_tokens(Seq::<Seq<char>>::empty()) == Seq::<Seq<char>>::empty());
        assert(clean_tokens(seq![e]) == clean_tokens(Seq::<Seq<char>>::empty()));
        assert(clean_tokens(seq![e]) =~= ts);
    } else {
        assert forall|i: int| 0 <= i < ts.len() implies plus_free(#[trigger] ts[i]) by {
            assert(clean_token(ts[i]));
        }
        lemma_split_join(ts);
        lemma_clean_identity(ts);
    }
}

/// Trimming twice trims no more than once, and a trimmed piece keeps having no `+`.
proof fn lemma_trimmed_clean(p: Seq<char>)
    requires
        plus_free(p),
    ensures
        trimmed(trimmed(p)) == trimmed(p),
        plus_free(trimmed(p)),
{
    trimming_is_idempotent(p);
    lemma_trimmed_is_part(p);
    assert forall|j: int| 0 <= j < trimmed(p).len() implies trimmed(p)[j] != '+' by {
        let k = choose|k: int| 0 <= k && k + trimmed(p).len() <= p.len() && #[trigger] p.subrange(k, k + trimmed(p).len()) == trimmed(p);
        assert(trimmed(p)[j] == p[k + j]);
    }
}

proof fn lemma_clean_tokens_clean(ps: Seq<Seq<char>>)
    requires
        forall|i: int| 0 <= i < ps.len() ==> plus_free(#[trigger] ps[i]),
    ensures
        forall|i: int|
            0 <= i < clean_tokens(ps).len() ==> clean_token(#[trigger] clean_tokens(ps)[i]),
    decreases ps.len(),
{
    if ps.len() > 0 {
        let init = ps.drop_last();
        assert forall|i: int| 0 <= i < init.len() implies plus_free(#[trigger] init[i]) by {
            assert(init[i] == ps[i]);
        }
        lemma_clean_tokens_clean(init);
        assert(plus_free(ps[ps.len() - 1]));
        lemma_trimmed_clean(ps.last());
        let rest = clean_tokens(init);
        let r = clean_tokens(ps);
        assert forall|i: int| 0 <= i < r.len() implies clean_token(#[trigger] r[i]) by {
            if i < rest.len() {
                assert(r[i] == rest[i]);
            }
        }
    }
}

/// Every token of a hotkey text is clean.
proof fn lemma_hotkey_tokens_clean(s: Seq<char>)
    ensures
        forall|i: int|
            0 <= i < hotkey_tokens(s).len() ==> clean_token(#[trigger] hotkey_tokens(s)[i]),
{
    lemma_split_pieces_plus_free(s);
    lemma_clean_tokens_clean(split_plus(s));
}

/// The canonical form of a clean token is clean and is its own canonical form.
proof fn lemma_canonical_token(t: Seq<char>)
    requires
        clean_token(t),
    ensures
        clean_token(canonical_token(t)),
        canonical_token(canonical_token(t)) == canonical_token(t),
{
    let sup = seq!['S', 'u', 'p', 'e', 'r'];
    let ctl = seq!['C', 't', 'r', 'l'];
    assert(all_ascii(sup));
    assert(all_ascii(ctl));
    assert(lowercase_of(sup) =~= seq!['s', 'u', 'p', 'e', 'r']);
    assert(lowercase_of(ctl) =~= seq!['c', 't', 'r', 'l']);
    assert(trim_start(sup) == sup);
    assert(trim_end(sup) == sup);
    assert(trim_start(ctl) == ctl);
    assert(trim_end(ctl) == ctl);
    assert(lowercase_of(sup) != seq!['w', 'i', 'n']);
    assert(lowercase_of(sup) != seq!['m', 'e', 't', 'a']);
    assert(lowercase_of(ctl)[0] == 'c');
    assert(lowercase_of(ctl) != seq!['m', 'e', 't', 'a']);
}

proof fn lemma_canonical_tokens_clean(s: Seq<char>)
    ensures
        forall|i: int|
            0 <= i < canonical_tokens(s).len() ==> clean_token(#[trigger] canonical_tokens(s)[i]),
        canonical_tokens(s).map_values(|t: Seq<char>| canonical_token(t)) == canonical_tokens(s),
{
    lemma_hotkey_tokens_clean(s);
    let c = canonical_tokens(s);
    assert forall|i: int| 0 <= i < c.len() implies clean_token(#[trigger] c[i]) by {
        lemma_canonical_token(hotkey_tokens(s)[i]);
    }
    assert forall|i: int| 0 <= i < c.len() implies canonical_token(c[i]) == c[i] by {
        lemma_canonical_token(hotkey_tokens(s)[i]);
    }
    assert(c.map_values(|t: Seq<char>| canonical_token(t)) =~= c);
}

/// Normalising a hotkey twice gives the same text as normalising it once: the stored
/// normal form of a hotkey is stable under the normalisation applied on every read.
pub proof fn normalize_is_idempotent(s: Seq<char>)
    ensures
        normalized_hotkey(normalized_hotkey(s)) == normalized_hotkey(s),
        hotkey_tokens(normalized_hotkey(s)) == canonical_tokens(s),
{
    lemma_canonical_tokens_clean(s);
    lemma_tokens_of_join(canonical_tokens(s));
}

/// Normalising a valid hotkey gives a valid hotkey: rewriting meta as `Super` and control
/// as `Ctrl` keeps every modifier a modifier and leaves the final key as it was.
pub proof fn normalize_keeps_valid(s: Seq<char>)
    requires
        hotkey_is_valid(s),
    ensures
        hotkey_is_valid(normalized_hotkey(s)),
{
    normalize_is_idempotent(s);
    let t = hotkey_tokens(s);
    let c = canonical_tokens(s);
    let sup = seq!['S', 'u', 'p', 'e', 'r'];
    let ctl = seq!['C', 't', 'r', 'l'];
    assert(all_ascii(sup));
    assert(all_ascii(ctl));
    assert(lowercase_of(sup) =~= seq!['s', 'u', 'p', 'e', 'r']);
    assert(lowercase_of(ctl) =~= seq!['c', 't', 'r', 'l']);
    assert forall|i: int| 0 <= i < c.len() - 1 implies is_modifier_word(
        lowercase_of(#[trigger] c[i]),
    ) by {
        assert(is_modifier_word(lowercase_of(t[i])));
    }
    let k = t.last();
    assert(c.last() == canonical_token(k));
    if k.len() == 1 && is_ascii_alnum(k[0]) {
        assert(all_ascii(k));
        assert(lowercase_of(k).len() == 1);
    } else {
        let l = lowercase_of(k);
        assert(is_function_key_word(l));
        assert(l[0] == 'f');
        assert(l != seq!['w', 'i', 'n']);
        assert(l != seq!['c', 'o', 'n', 't', 'r', 'o', 'l']);
        assert(l != seq!['m', 'e', 't', 'a']);
    }
}

/// `Ctrl+Shift+V`, the default hotkey that opens the panel.
pub open spec fn default_panel_hotkey() -> Seq<char> {
    seq!['C', 't', 'r', 'l', '+', 'S', 'h', 'i', 'f', 't', '+', 'V']
}

/// `Super+F1`, the default hotkey that starts a screenshot.
pub open spec fn default_screenshot_hotkey() -> Seq<char> {
    seq!['S', 'u', 'p', 'e', 'r', '+', 'F', '1']
}

proof fn lemma_ascii_word_clean(w: Seq<char>)
    requires
        w.len() > 0,
        forall|i: int| 0 <= i < w.len() ==> is_ascii_alnum(#[trigger] w[i]),
    ensures
        clean_token(w),
        all_ascii(w),
{
    assert(!is_white(w[0]));
    assert(!is_white(w.last()));
    assert(trim_start(w) == w);
    assert(trim_end(w) == w);
}

/// The two default hotkeys are valid, and each is already in normal form.
pub proof fn default_hotkeys_are_valid()
    ensures
        hotkey_is_valid(default_panel_hotkey()),
        hotkey_is_valid(default_screenshot_hotkey()),
        normalized_hotkey(default_panel_hotkey()) == default_panel_hotkey(),
        normalized_hotkey(default_screenshot_hotkey()) == default_screenshot_hotkey(),
{
    let ctrl = seq!['C', 't', 'r', 'l'];
    let shift = seq!['S', 'h', 'i', 'f', 't'];
    let v = seq!['V'];
    let sup = seq!['S', 'u', 'p', 'e', 'r'];
    let f1 = seq!['F', '1'];
    lemma_ascii_word_clean(ctrl);
    lemma_ascii_word_clean(shift);
    lemma_ascii_word_clean(v);
    lemma_ascii_word_clean(sup);
    lemma_ascii_word_clean(f1);
    let panel = seq![ctrl, shift, v];
    let shot = seq![sup, f1];
    assert(join_plus(seq![ctrl]) == ctrl);
    assert(seq![ctrl, shift].drop_last() =~= seq![ctrl]);
    assert(panel.drop_last() =~= seq![ctrl, shift]);
    assert(shot.drop_last() =~= seq![sup]);
    assert(join_plus(seq![sup]) == sup);
    assert(panel.last() == v);
    assert(seq![ctrl, shift].last() == shift);
    assert(join_plus(seq![ctrl, shift]) == ctrl + seq!['+'] + shift);
    assert(join_plus(panel) == join_plus(seq![ctrl, shift]) + seq!['+'] + v);
    assert(join_plus(panel) =~= default_panel_hotkey());
    assert(join_plus(shot) =~= default_screenshot_hotkey());
    lemma_tokens_of_join(panel);
    lemma_tokens_of_join(shot);
    assert(lowercase_of(ctrl) =~= seq!['c', 't', 'r', 'l']);
    assert(lowercase_of(shift) =~= seq!['s', 'h', 'i', 'f', 't']);
    assert(lowercase_of(sup) =~= seq!['s', 'u', 'p', 'e', 'r']);
    assert(lowercase_of(f1) =~= seq!['f', '1']);
    assert(lowercase_of(v) =~= seq!['v']);
    assert(canonical_token(ctrl) == ctrl);
    assert(canonical_token(shift) == shift);
    assert(canonical_token(v) == v);
    assert(canonical_token(sup) == sup);
    assert(canonical_token(f1) == f1);
    assert(panel.map_values(|t: Seq<char>| canonical_token(t)) =~= panel);
    assert(shot.map_values(|t: Seq<char>| canonical_token(t)) =~= shot);
}

proof fn reveal_alias_words()
    ensures
        "control"@ == seq!['c', 'o', 'n', 't', 'r', 'o', 'l'],
        "win"@ == seq!['w', 'i', 'n'],
        "windows"@ == seq!['w', 'i', 'n', 'd', 'o', 'w', 's'],
        "meta"@ == seq!['m', 'e', 't', 'a'],
        "Ctrl"@ == seq!['C', 't', 'r', 'l'],
        "Super"@ == seq!['S', 'u', 'p', 'e', 'r'],
{
    reveal_strlit("control");
    reveal_strlit("win");
    reveal_strlit("windows");
    reveal_strlit("meta");
    reveal_strlit("Ctrl");
    reveal_strlit("Super");
    assert("control"@ =~= seq!['c', 'o', 'n', 't', 'r', 'o', 'l']);
    assert("win"@ =~= seq!['w', 'i', 'n']);
    assert("windows"@ =~= seq!['w', 'i', 'n', 'd', 'o', 'w', 's']);
    assert("meta"@ =~= seq!['m', 'e', 't', 'a']);
    assert("Ctrl"@ =~= seq!['C', 't', 'r', 'l']);
    assert("Super"@ =~= seq!['S', 'u', 'p', 'e', 'r']);
}

/// Aliases are recognised in whatever case they were typed: a token whose lower-case form
/// is `control` is written `Ctrl`, one whose lower-case form is `win`, `windows` or
/// `meta` is written `Super`, and any other token is kept as typed. So two tokens with
/// the same lower-case alias form are written alike.
pub proof fn aliases_are_matched_in_any_case(t: Seq<char>, u: Seq<char>)
    ensures
        lowercase_of(t) == "control"@ ==> canonical_token(t) == "Ctrl"@,
        lowercase_of(t) == "win"@ || lowercase_of(t) == "windows"@ || lowercase_of(t) == "meta"@
            ==> canonical_token(t) == "Super"@,
        !(lowercase_of(t) == "control"@ || lowercase_of(t) == "win"@ || lowercase_of(t)
            == "windows"@ || lowercase_of(t) == "meta"@) ==> canonical_token(t) == t,
        lowercase_of(t) == lowercase_of(u) && (lowercase_of(t) == "control"@ || lowercase_of(t)
            == "win"@ || lowercase_of(t) == "windows"@ || lowercase_of(t) == "meta"@)
            ==> canonical_token(t) == canonical_token(u),
{
    reveal_alias_words();
}

/// The tokens of a normalised hotkey are the tokens of the text, one for one, with every
/// `control` (in any case) written `Ctrl`, every win, windows or meta (in any case)
/// written `Super`, and every other token as typed.
pub proof fn normalized_tokens_spell_aliases(s: Seq<char>)
    ensures
        hotkey_tokens(normalized_hotkey(s)).len() == hotkey_tokens(s).len(),
        forall|i: int|
            0 <= i < hotkey_tokens(s).len() ==> {
                let t = #[trigger] hotkey_tokens(s)[i];
                let n = hotkey_tokens(normalized_hotkey(s))[i];
                &&& lowercase_of(t) == "control"@ ==> n == "Ctrl"@
                &&& (lowercase_of(t) == "win"@ || lowercase_of(t) == "windows"@ || lowercase_of(t)
                    == "meta"@) ==> n == "Super"@
                &&& !(lowercase_of(t) == "control"@ || lowercase_of(t) == "win"@ || lowercase_of(t)
                    == "windows"@ || lowercase_of(t) == "meta"@) ==> n == t
            },
{
    normalize_is_idempotent(s);
    reveal_alias_words();
}

} // verus!
