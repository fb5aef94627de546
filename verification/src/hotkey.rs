use vstd::prelude::*;

use crate::settings::default_hotkey_spec;
use crate::settings::AppSettings;
use crate::settings::HotkeyMode;
use crate::settings::Platform;
use crate::text::chars_of;

verus! {

/// The modifier keys of a key combination.
#[derive(Clone, Copy, Debug, PartialEq, Eq, Structural)]
pub struct Modifiers {
    pub ctrl: bool,
    pub shift: bool,
    pub alt: bool,
    pub super_key: bool,
}

/// The non-modifier keys a key combination can end in.
#[derive(Clone, Copy, Debug, PartialEq, Eq, Structural)]
pub enum HotkeyCode {
    Space,
    KeyR,
}

/// A global key combination: modifiers held while a key is pressed.
#[derive(Clone, Copy, Debug, PartialEq, Eq, Structural)]
pub struct Hotkey {
    pub modifiers: Modifiers,
    pub code: HotkeyCode,
}

/// What one `+`-separated part of a hotkey text names.
#[derive(Clone, Copy, Debug, PartialEq, Eq, Structural)]
pub enum HotkeyToken {
    Ctrl,
    Shift,
    Alt,
    Super,
    Space,
    KeyR,
    Other,
}

/// The parts of `s` between `+` signs (one part more than there are signs).
pub open spec fn split_plus(s: Seq<char>) -> Seq<Seq<char>>
    decreases s.len(),
{
    if s.len() == 0 {
        seq![Seq::<char>::empty()]
    } else {
        let prev = split_plus(s.drop_last());
        if s.last() == '+' {
            prev.push(Seq::<char>::empty())
        } else {
            prev.update(prev.len() - 1, prev.last().push(s.last()))
        }
    }
}

/// Unicode white space, as `char::is_whitespace` decides it.
pub open spec fn is_white_space(c: char) -> bool {
    ('\u{9}' <= c && c <= '\u{d}') || c == ' ' || c == '\u{85}' || c == '\u{a0}' || c
        == '\u{1680}' || ('\u{2000}' <= c && c <= '\u{200a}') || c == '\u{2028}' || c
        == '\u{2029}' || c == '\u{202f}' || c == '\u{205f}' || c == '\u{3000}'
}

pub open spec fn trim_start(p: Seq<char>) -> Seq<char>
    decreases p.len(),
{
    if p.len() > 0 && is_white_space(p[0]) {
        trim_start(p.drop_first())
    } else {
        p
    }
}

pub open spec fn trim_end(p: Seq<char>) -> Seq<char>
    decreases p.len(),
{
    if p.len() > 0 && is_white_space(p.last()) {
        trim_end(p.drop_last())
    } else {
        p
    }
}

/// `p` without leading and trailing white space, as `str::trim` gives it.
pub open spec fn trim(p: Seq<char>) -> Seq<char> {
    trim_end(trim_start(p))
}

/// Whether `c` is the lower-case ASCII letter `l`, in either case
/// (or equals `l`, when `l` is no lower-case letter).
pub open spec fn char_eq_ignore_case(c: char, l: char) -> bool {
    c == l || ('a' <= l && l <= 'z' && (c as u32) + 32 == (l as u32))
}

/// Whether `t` spells the lower-case word `w`, ignoring letter case.
/// For the words a hotkey uses, this is what comparing `t.to_lowercase()`
/// with `w` decides: no other character lower-cases to one of their letters.
pub open spec fn eq_ignore_case(t: Seq<char>, w: Seq<char>) -> bool {
    t.len() == w.len() && forall|i: int| 0 <= i < t.len() ==> char_eq_ignore_case(#[trigger] t[i], w[i])
}

/// What a trimmed part names.
pub open spec fn classify(t: Seq<char>) -> HotkeyToken {
    if eq_ignore_case(t, seq!['c', 't', 'r', 'l']) || eq_ignore_case(
        t,
        seq!['c', 'o', 'n', 't', 'r', 'o', 'l'],
    ) {
        HotkeyToken::Ctrl
    } else if eq_ignore_case(t, seq!['s', 'h', 'i', 'f', 't']) {
        HotkeyToken::Shift
    } else if eq_ignore_case(t, seq!['a', 'l', 't']) {
        HotkeyToken::Alt
    } else if eq_ignore_case(t, seq!['s', 'u', 'p', 'e', 'r']) || eq_ignore_case(
        t,
        seq!['m', 'e', 't', 'a'],
    ) || eq_ignore_case(t, seq!['c', 'm', 'd']) {
        HotkeyToken::Super
    } else if eq_ignore_case(t, seq!['s', 'p', 'a', 'c', 'e']) {
        HotkeyToken::Space
    } else if eq_ignore_case(t, seq!['r']) {
        HotkeyToken::KeyR
    } else {
        HotkeyToken::Other
    }
}

/// What has been read of a hotkey text: the modifiers, and the last key named.
pub struct ParseState {
    pub modifiers: Modifiers,
    pub code: Option<HotkeyCode>,
}

pub open spec fn no_modifiers() -> Modifiers {
    Modifiers { ctrl: false, shift: false, alt: false, super_key: false }
}

/// Reading one part: a modifier is added, a key replaces the key read before,
/// anything else is skipped.
pub open spec fn apply_token(st: ParseState, tok: HotkeyToken) -> ParseState {
    match tok {
        HotkeyToken::Ctrl => ParseState { modifiers: Modifiers { ctrl: true, ..st.modifiers }, ..st },
        HotkeyToken::Shift => ParseState { modifiers: Modifiers { shift: true, ..st.modifiers }, ..st },
        HotkeyToken::Alt => ParseState { modifiers: Modifiers { alt: true, ..st.modifiers }, ..st },
        HotkeyToken::Super => ParseState {
            modifiers: Modifiers { super_key: true, ..st.modifiers },
            ..st
        },
        HotkeyToken::Space => ParseState { code: Some(HotkeyCode::Space), ..st },
        HotkeyToken::KeyR => ParseState { code: Some(HotkeyCode::KeyR), ..st },
        HotkeyToken::Other => st,
    }
}

/// Reads the parts from first to last.
pub open spec fn read_parts(parts: Seq<Seq<char>>) -> ParseState
    decreases parts.len(),
{
    if parts.len() == 0 {
        ParseState { modifiers: no_modifiers(), code: None }
    } else {
        apply_token(read_parts(parts.drop_last()), classify(trim(parts.last())))
    }
}

/// The key combination a hotkey text describes: `+`-separated parts, each
/// trimmed and compared ignoring case; none when no part names a key.
pub open spec fn hotkey_of(s: Seq<char>) -> Option<Hotkey> {
    let st = read_parts(split_plus(s));
    match st.code {
        Some(code) => Some(Hotkey { modifiers: st.modifiers, code }),
        None => None,
    }
}

proof fn lemma_split_plus_nonempty(s: Seq<char>)
    ensures
        split_plus(s).len() >= 1,
    decreases s.len(),
{
    if s.len() > 0 {
        lemma_split_plus_nonempty(s.drop_last());
    }
}

fn is_white_space_char(c: char) -> (b: bool)
    ensures
        b == is_white_space(c),
{
    ('\u{9}' <= c && c <= '\u{d}') || c == ' ' || c == '\u{85}' || c == '\u{a0}' || c
        == '\u{1680}' || ('\u{2000}' <= c && c <= '\u{200a}') || c == '\u{2028}' || c
        == '\u{2029}' || c == '\u{202f}' || c == '\u{205f}' || c == '\u{3000}'
}

/// The bounds of `p` trimmed: `trim(p) == p[lo..hi]`.
fn trim_bounds(p: &Vec<char>) -> (r: (usize, usize))
    ensures
        r.0 <= r.1 <= p@.len(),
        trim(p@) == p@.subrange(r.0 as int, r.1 as int),
{
    let n = p.len();
    let mut lo: usize = 0;
    assert(p@.skip(0) =~= p@);
    while lo < n && is_white_space_char(p[lo])
        invariant
            lo <= n == p@.len(),
            trim_start(p@) == trim_start(p@.skip(lo as int)),
        decreases n - lo,
    {
        assert(p@.skip(lo as int).drop_first() =~= p@.skip(lo + 1));
        lo = lo + 1;
    }
    assert(trim_start(p@) == p@.subrange(lo as int, n as int)) by {
        assert(p@.skip(lo as int) =~= p@.subrange(lo as int, n as int));
    }
    let mut hi: usize = n;
    while hi > lo && is_white_space_char(p[hi - 1])
        invariant
            lo <= hi <= n == p@.len(),
            trim(p@) == trim_end(p@.subrange(lo as int, hi as int)),
        decreases hi,
    {
        assert(p@.subrange(lo as int, hi as int).drop_last() =~= p@.subrange(lo as int, hi - 1));
        hi = hi - 1;
    }
    (lo, hi)
}

fn char_eq_ignore_case_exec(c: char, l: char) -> (b: bool)
    ensures
        b == char_eq_ignore_case(c, l),
{
    c == l || ('a' <= l && l <= 'z' && (c as u32) + 32 == (l as u32))
}

/// Whether `p[lo..hi]` spells `w`, ignoring letter case.
fn part_is(p: &Vec<char>, lo: usize, hi: usize, w: &Vec<char>) -> (b: bool)
    requires
        lo <= hi <= p@.len(),
    ensures
        b == eq_ignore_case(p@.subrange(lo as int, hi as int), w@),
{
    if hi - lo != w.len() {
        return false;
    }
    let mut i: usize = 0;
    while i < w.len()
        invariant
            lo <= hi <= p@.len(),
            hi - lo == w@.len(),
            i <= w@.len(),
            forall|k: int| 0 <= k < i ==> char_eq_ignore_case(p@[lo + k], w@[k]),
        decreases w@.len() - i,
    {
        if !char_eq_ignore_case_exec(p[lo + i], w[i]) {
            assert(p@.subrange(lo as int, hi as int)[i as int] == p@[lo + i]);
            return false;
        }
        i = i + 1;
    }
    assert forall|k: int| 0 <= k < hi - lo implies char_eq_ignore_case(
        #[trigger] p@.subrange(lo as int, hi as int)[k],
        w@[k],
    ) by {
        assert(p@.subrange(lo as int, hi as int)[k] == p@[lo + k]);
    }
    true
}

/// What the part `p` names, once trimmed.
fn classify_part(p: &Vec<char>) -> (t: HotkeyToken)
    ensures
        t == classify(trim(p@)),
{
    let (lo, hi) = trim_bounds(p);
    if part_is(p, lo, hi, &vec!['c', 't', 'r', 'l']) || part_is(
        p,
        lo,
        hi,
        &vec!['c', 'o', 'n', 't', 'r', 'o', 'l'],
    ) {
        HotkeyToken::Ctrl
    } else if part_is(p, lo, hi, &vec!['s', 'h', 'i', 'f', 't']) {
        HotkeyToken::Shift
    } else if part_is(p, lo, hi, &vec!['a', 'l', 't']) {
        HotkeyToken::Alt
    } else if part_is(p, lo, hi, &vec!['s', 'u', 'p', 'e', 'r']) || part_is(
        p,
        lo,
        hi,
        &vec!['m', 'e', 't', 'a'],
    ) || part_is(p, lo, hi, &vec!['c', 'm', 'd']) {
        HotkeyToken::Super
    } else if part_is(p, lo, hi, &vec!['s', 'p', 'a', 'c', 'e']) {
        HotkeyToken::Space
    } else if part_is(p, lo, hi, &vec!['r']) {
        HotkeyToken::KeyR
    } else {
        HotkeyToken::Other
    }
}

fn apply_token_exec(st: ParseState, tok: HotkeyToken) -> (r: ParseState)
    ensures
        r == apply_token(st, tok),
{
    let mut m = st.modifiers;
    let mut code = st.code;
    match tok {
        HotkeyToken::Ctrl => m.ctrl = true,
        HotkeyToken::Shift => m.shift = true,
        HotkeyToken::Alt => m.alt = true,
        HotkeyToken::Super => m.super_key = true,
        HotkeyToken::Space => code = Some(HotkeyCode::Space),
        HotkeyToken::KeyR => code = Some(HotkeyCode::KeyR),
        HotkeyToken::Other => {},
    }
    ParseState { modifiers: m, code }
}

/// Parses a hotkey text such as `"Ctrl+Shift+Space"`: the parts between `+`
/// signs are trimmed and read ignoring case; `ctrl`/`control`, `shift`, `alt`
/// and `super`/`meta`/`cmd` add modifiers, `space` and `r` name the key (the
/// last one named counts), anything else is skipped. None when no key is named.
pub fn parse_hotkey(hotkey_str: &str) -> (r: Option<Hotkey>)
    ensures
        r == hotkey_of(hotkey_str@),
{
    let v = chars_of(hotkey_str);
    let mut st = ParseState {
        modifiers: Modifiers { ctrl: false, shift: false, alt: false, super_key: false },
        code: None,
    };
    let mut cur: Vec<char> = Vec::new();
    let mut i: usize = 0;
    proof {
        assert(v@.take(0) =~= Seq::<char>::empty());
    }
    while i < v.len()
        invariant
            i <= v@.len(),
            split_plus(v@.take(i as int)).len() >= 1,
            st == read_parts(split_plus(v@.take(i as int)).drop_last()),
            cur@ == split_plus(v@.take(i as int)).last(),
        decreases v@.len() - i,
    {
        let c = v[i];
        let ghost prev = split_plus(v@.take(i as int));
        assert(v@.take(i + 1).drop_last() =~= v@.take(i as int));
        if c == '+' {
            let tok = classify_part(&cur);
            st = apply_token_exec(st, tok);
            cur = Vec::new();
            proof {
                let next = split_plus(v@.take(i + 1));
                assert(next == prev.push(Seq::<char>::empty()));
                assert(next.drop_last() =~= prev);
                assert(prev =~= prev.drop_last().push(prev.last()));
            }
        } else {
            cur.push(c);
            proof {
                let next = split_plus(v@.take(i + 1));
                assert(next.drop_last() =~= prev.drop_last());
            }
        }
        i = i + 1;
    }
    let tok = classify_part(&cur);
    st = apply_token_exec(st, tok);
    proof {
        let parts = split_plus(v@.take(i as int));
        assert(v@.take(i as int) =~= v@);
        assert(parts =~= parts.drop_last().push(parts.last()));
    }
    match st.code {
        Some(code) => Some(Hotkey { modifiers: st.modifiers, code }),
        None => None,
    }
}


/// Whether `c` and `d` are the same character, or the same ASCII letter in two cases.
pub open spec fn same_letter_ignoring_case(c: char, d: char) -> bool {
    ||| c == d
    ||| 'A' <= c && c <= 'Z' && (c as u32) + 32 == (d as u32)
    ||| 'A' <= d && d <= 'Z' && (d as u32) + 32 == (c as u32)
}

/// Whether two texts differ at most in the case of ASCII letters.
pub open spec fn same_ignoring_case(s: Seq<char>, t: Seq<char>) -> bool {
    s.len() == t.len() && forall|i: int|
        0 <= i < s.len() ==> same_letter_ignoring_case(#[trigger] s[i], t[i])
}

pub open spec fn is_lower_word(w: Seq<char>) -> bool {
    forall|i: int| 0 <= i < w.len() ==> 'a' <= #[trigger] w[i] && w[i] <= 'z'
}

proof fn lemma_split_respects_case(s: Seq<char>, t: Seq<char>)
    requires
        same_ignoring_case(s, t),
    ensures
        split_plus(s).len() == split_plus(t).len(),
        forall|i: int|
            0 <= i < split_plus(s).len() ==> same_ignoring_case(
                #[trigger] split_plus(s)[i],
                split_plus(t)[i],
            ),
    decreases s.len(),
{
    if s.len() > 0 {
        let s0 = s.drop_last();
        let t0 = t.drop_last();
        assert(same_ignoring_case(s0, t0)) by {
            assert forall|i: int| 0 <= i < s0.len() implies same_letter_ignoring_case(
                #[trigger] s0[i],
                t0[i],
            ) by {
                assert(s0[i] == s[i] && t0[i] == t[i]);
            }
        }
        lemma_split_respects_case(s0, t0);
        lemma_split_plus_nonempty(s0);
        lemma_split_plus_nonempty(t0);
        assert(same_letter_ignoring_case(s[s.len() - 1], t[t.len() - 1]));
        let ps = split_plus(s0);
        let pt = split_plus(t0);
        if s.last() != '+' {
            let n = ps.len() - 1;
            assert(same_ignoring_case(ps[n].push(s.last()), pt[n].push(t.last()))) by {
                assert(same_ignoring_case(ps[n], pt[n]));
                let a = ps[n].push(s.last());
                let b = pt[n].push(t.last());
                assert forall|i: int| 0 <= i < a.len() implies same_letter_ignoring_case(
                    #[trigger] a[i],
                    b[i],
                ) by {
                    if i < ps[n].len() {
                        assert(a[i] == ps[n][i] && b[i] == pt[n][i]);
                    }
                }
            }
        }
    }
}

proof fn lemma_trim_respects_case(p: Seq<char>, q: Seq<char>)
    requires
        same_ignoring_case(p, q),
    ensures
        same_ignoring_case(trim(p), trim(q)),
{
    lemma_trim_start_respects_case(p, q);
    lemma_trim_end_respects_case(trim_start(p), trim_start(q));
}

proof fn lemma_trim_start_respects_case(p: Seq<char>, q: Seq<char>)
    requires
        same_ignoring_case(p, q),
    ensures
        same_ignoring_case(trim_start(p), trim_start(q)),
    decreases p.len(),
{
    if p.len() > 0 {
        assert(same_letter_ignoring_case(p[0], q[0]));
        if is_white_space(p[0]) {
            let a = p.drop_first();
            let b = q.drop_first();
            assert(same_ignoring_case(a, b)) by {
                assert forall|i: int| 0 <= i < a.len() implies same_letter_ignoring_case(
                    #[trigger] a[i],
                    b[i],
                ) by {
                    assert(a[i] == p[i + 1] && b[i] == q[i + 1]);
                }
            }
            lemma_trim_start_respects_case(a, b);
        }
    }
}

proof fn lemma_trim_end_respects_case(p: Seq<char>, q: Seq<char>)
    requires
        same_ignoring_case(p, q),
    ensures
        same_ignoring_case(trim_end(p), trim_end(q)),
    decreases p.len(),
{
    if p.len() > 0 {
        assert(same_letter_ignoring_case(p[p.len() - 1], q[q.len() - 1]));
        if is_white_space(p.last()) {
            let a = p.drop_last();
            let b = q.drop_last();
            assert(same_ignoring_case(a, b)) by {
                assert forall|i: int| 0 <= i < a.len() implies same_letter_ignoring_case(
                    #[trigger] a[i],
                    b[i],
                ) by {
                    assert(a[i] == p[i] && b[i] == q[i]);
                }
            }
            lemma_trim_end_respects_case(a, b);
        }
    }
}

proof fn lemma_letter_respects_case(c: char, d: char, l: char)
    requires
        same_letter_ignoring_case(c, d),
        'a' <= l && l <= 'z',
    ensures
        char_eq_ignore_case(c, l) == char_eq_ignore_case(d, l),
{
    assert((c as u32 == l as u32) == (c == l));
    assert((d as u32 == l as u32) == (d == l));
}

proof fn lemma_word_respects_case(t: Seq<char>, u: Seq<char>, w: Seq<char>)
    requires
        same_ignoring_case(t, u),
        is_lower_word(w),
    ensures
        eq_ignore_case(t, w) == eq_ignore_case(u, w),
{
    if t.len() == w.len() {
        if eq_ignore_case(t, w) {
            assert forall|i: int| 0 <= i < u.len() implies char_eq_ignore_case(#[trigger] u[i], w[i]) by {
                assert(char_eq_ignore_case(t[i], w[i]));
                lemma_letter_respects_case(t[i], u[i], w[i]);
            }
        }
        if eq_ignore_case(u, w) {
            assert forall|i: int| 0 <= i < t.len() implies char_eq_ignore_case(#[trigger] t[i], w[i]) by {
                assert(char_eq_ignore_case(u[i], w[i]));
                lemma_letter_respects_case(t[i], u[i], w[i]);
            }
        }
    }
}

proof fn lemma_classify_respects_case(t: Seq<char>, u: Seq<char>)
    requires
        same_ignoring_case(t, u),
    ensures
        classify(t) == classify(u),
{
    let words = seq![
        seq!['c', 't', 'r', 'l'],
        seq!['c', 'o', 'n', 't', 'r', 'o', 'l'],
        seq!['s', 'h', 'i', 'f', 't'],
        seq!['a', 'l', 't'],
        seq!['s', 'u', 'p', 'e', 'r'],
        seq!['m', 'e', 't', 'a'],
        seq!['c', 'm', 'd'],
        seq!['s', 'p', 'a', 'c', 'e'],
        seq!['r'],
    ];
    assert forall|k: int| 0 <= k < words.len() implies is_lower_word(#[trigger] words[k]) by {
        assert forall|i: int| 0 <= i < words[k].len() implies 'a' <= #[trigger] words[k][i]
            && words[k][i] <= 'z' by {}
    }
    assert forall|k: int| 0 <= k < words.len() implies eq_ignore_case(t, #[trigger] words[k])
        == eq_ignore_case(u, words[k]) by {
        lemma_word_respects_case(t, u, words[k]);
    }
    assert(eq_ignore_case(t, words[0]) == eq_ignore_case(u, words[0]));
    assert(eq_ignore_case(t, words[1]) == eq_ignore_case(u, words[1]));
    assert(eq_ignore_case(t, words[2]) == eq_ignore_case(u, words[2]));
    assert(eq_ignore_case(t, words[3]) == eq_ignore_case(u, words[3]));
    assert(eq_ignore_case(t, words[4]) == eq_ignore_case(u, words[4]));
    assert(eq_ignore_case(t, words[5]) == eq_ignore_case(u, words[5]));
    assert(eq_ignore_case(t, words[6]) == eq_ignore_case(u, words[6]));
    assert(eq_ignore_case(t, words[7]) == eq_ignore_case(u, words[7]));
    assert(eq_ignore_case(t, words[8]) == eq_ignore_case(u, words[8]));
}

proof fn lemma_read_parts_respects_case(ps: Seq<Seq<char>>, qs: Seq<Seq<char>>)
    requires
        ps.len() == qs.len(),
        forall|i: int| 0 <= i < ps.len() ==> same_ignoring_case(#[trigger] ps[i], qs[i]),
    ensures
        read_parts(ps) == read_parts(qs),
    decreases ps.len(),
{
    if ps.len() > 0 {
        let a = ps.drop_last();
        let b = qs.drop_last();
        assert forall|i: int| 0 <= i < a.len() implies same_ignoring_case(#[trigger] a[i], b[i]) by {
            assert(a[i] == ps[i] && b[i] == qs[i]);
        }
        lemma_read_parts_respects_case(a, b);
        assert(same_ignoring_case(ps[ps.len() - 1], qs[qs.len() - 1]));
        lemma_trim_respects_case(ps.last(), qs.last());
        lemma_classify_respects_case(trim(ps.last()), trim(qs.last()));
    }
}

/// Hotkey texts are read ignoring the case of letters: two texts that differ
/// only in the case of ASCII letters name the same key combination.
pub proof fn lemma_hotkey_ignores_case(s: Seq<char>, t: Seq<char>)
    requires
        same_ignoring_case(s, t),
    ensures
        hotkey_of(s) == hotkey_of(t),
{
    lemma_split_respects_case(s, t);
    lemma_read_parts_respects_case(split_plus(s), split_plus(t));
}

/// What part `i` of `parts` names, once trimmed.
pub open spec fn part_token(parts: Seq<Seq<char>>, i: int) -> HotkeyToken {
    classify(trim(parts[i]))
}

/// Whether some part names `tok`, wherever it stands.
pub open spec fn names_token(parts: Seq<Seq<char>>, tok: HotkeyToken) -> bool {
    exists|i: int| 0 <= i < parts.len() && #[trigger] part_token(parts, i) == tok
}

/// The key named by the last part that names a key.
pub open spec fn last_key(parts: Seq<Seq<char>>) -> Option<HotkeyCode>
    decreases parts.len(),
{
    if parts.len() == 0 {
        None
    } else {
        match part_token(parts, parts.len() - 1) {
            HotkeyToken::Space => Some(HotkeyCode::Space),
            HotkeyToken::KeyR => Some(HotkeyCode::KeyR),
            _ => last_key(parts.drop_last()),
        }
    }
}

/// Reading the parts gives the modifiers named anywhere among them and the
/// key named last.
pub proof fn lemma_read_parts_characterized(parts: Seq<Seq<char>>)
    ensures
        read_parts(parts) == (ParseState {
            modifiers: Modifiers {
                ctrl: names_token(parts, HotkeyToken::Ctrl),
                shift: names_token(parts, HotkeyToken::Shift),
                alt: names_token(parts, HotkeyToken::Alt),
                super_key: names_token(parts, HotkeyToken::Super),
            },
            code: last_key(parts),
        }),
    decreases parts.len(),
{
    if parts.len() > 0 {
        let prev = parts.drop_last();
        lemma_read_parts_characterized(prev);
        let n = parts.len() - 1;
        assert forall|i: int| 0 <= i < prev.len() implies #[trigger] part_token(prev, i)
            == part_token(parts, i) by {
            assert(prev[i] == parts[i]);
        }
        assert forall|tok: HotkeyToken| #[trigger] names_token(parts, tok) == (names_token(prev, tok)
            || part_token(parts, n) == tok) by {
            if names_token(parts, tok) {
                let i = choose|i: int| 0 <= i < parts.len() && #[trigger] part_token(parts, i) == tok;
                if i < n {
                    assert(part_token(prev, i) == tok);
                }
            }
            if names_token(prev, tok) {
                let i = choose|i: int| 0 <= i < prev.len() && #[trigger] part_token(prev, i) == tok;
                assert(part_token(parts, i) == tok);
            }
        }
        assert(names_token(parts, HotkeyToken::Ctrl) == (names_token(prev, HotkeyToken::Ctrl)
            || part_token(parts, n) == HotkeyToken::Ctrl));
        assert(names_token(parts, HotkeyToken::Shift) == (names_token(prev, HotkeyToken::Shift)
            || part_token(parts, n) == HotkeyToken::Shift));
        assert(names_token(parts, HotkeyToken::Alt) == (names_token(prev, HotkeyToken::Alt)
            || part_token(parts, n) == HotkeyToken::Alt));
        assert(names_token(parts, HotkeyToken::Super) == (names_token(prev, HotkeyToken::Super)
            || part_token(parts, n) == HotkeyToken::Super));
    } else {
        assert(!names_token(parts, HotkeyToken::Ctrl));
        assert(!names_token(parts, HotkeyToken::Shift));
        assert(!names_token(parts, HotkeyToken::Alt));
        assert(!names_token(parts, HotkeyToken::Super));
    }
}

/// Two hotkey texts name the same combination when their parts, trimmed of
/// white space and read ignoring case, name the same modifiers (in whatever
/// order and place) and the same last key: white space around parts and the
/// order of modifier parts do not matter.
pub proof fn lemma_hotkey_ignores_spacing_and_order(s: Seq<char>, t: Seq<char>)
    requires
        forall|tok: HotkeyToken|
            #![trigger names_token(split_plus(s), tok)]
            tok == HotkeyToken::Ctrl || tok == HotkeyToken::Shift || tok == HotkeyToken::Alt || tok
                == HotkeyToken::Super ==> names_token(split_plus(s), tok) == names_token(
                split_plus(t),
                tok,
            ),
        last_key(split_plus(s)) == last_key(split_plus(t)),
    ensures
        hotkey_of(s) == hotkey_of(t),
{
    lemma_read_parts_characterized(split_plus(s));
    lemma_read_parts_characterized(split_plus(t));
    assert(names_token(split_plus(s), HotkeyToken::Ctrl) == names_token(split_plus(t), HotkeyToken::Ctrl));
    assert(names_token(split_plus(s), HotkeyToken::Shift) == names_token(split_plus(t), HotkeyToken::Shift));
    assert(names_token(split_plus(s), HotkeyToken::Alt) == names_token(split_plus(t), HotkeyToken::Alt));
    assert(names_token(split_plus(s), HotkeyToken::Super) == names_token(split_plus(t), HotkeyToken::Super));
}

/// The combination that the default hotkey text of `platform` names.
pub open spec fn default_combination(platform: Platform) -> Hotkey {
    Hotkey {
        modifiers: Modifiers {
            ctrl: platform == Platform::Linux,
            shift: true,
            alt: false,
            super_key: platform == Platform::MacOs,
        },
        code: HotkeyCode::Space,
    }
}

/// The default hotkey of every platform is a valid hotkey: Ctrl (Super on
/// macOS) and Shift held while Space is pressed.
#[verifier::spinoff_prover]
#[verifier::rlimit(60)]
pub proof fn lemma_default_hotkey_parses(platform: Platform)
    ensures
        hotkey_of(default_hotkey_spec(platform)) == Some(default_combination(platform)),
{
    reveal_strlit("Super+Shift+Space");
    reveal_strlit("Ctrl+Shift+Space");
    reveal_with_fuel(split_plus, 18);
    reveal_with_fuel(read_parts, 4);
    let s = default_hotkey_spec(platform);
    let parts = split_plus(s);
    assert(parts.len() == 3);
}


/// How recording is bound to the keyboard.
#[derive(Clone, Copy, Debug, PartialEq, Eq, Structural)]
pub enum HotkeyBinding {
    /// A global shortcut for this key combination.
    Shortcut(Hotkey),
    /// A double-tap listener in this mode.
    DoubleTap(HotkeyMode),
}

/// The binding that `settings` ask for: the parsed key combination in the
/// key-combination mode (an error when the text names no key), a double-tap
/// listener otherwise.
pub fn hotkey_binding(settings: &AppSettings) -> (r: Result<HotkeyBinding, String>)
    ensures
        settings.hotkey_mode == HotkeyMode::KeyCombination ==> match hotkey_of(settings.hotkey@) {
            Some(h) => r == Ok::<HotkeyBinding, String>(HotkeyBinding::Shortcut(h)),
            None => r matches Err(e) && e@ == "Invalid hotkey format"@,
        },
        settings.hotkey_mode != HotkeyMode::KeyCombination ==> r == Ok::<HotkeyBinding, String>(
            HotkeyBinding::DoubleTap(settings.hotkey_mode),
        ),
{
    match settings.hotkey_mode {
        HotkeyMode::KeyCombination => match parse_hotkey(settings.hotkey.as_str()) {
            Some(h) => Ok(HotkeyBinding::Shortcut(h)),
            None => Err(String::from_str("Invalid hotkey format")),
        },
        mode => Ok(HotkeyBinding::DoubleTap(mode)),
    }
}

/// Whether saving `new` over `old` changes how recording is bound: a
/// different mode or a different key combination text.
pub fn hotkey_settings_changed(old: &AppSettings, new: &AppSettings) -> (r: bool)
    ensures
        r == (old.hotkey_mode != new.hotkey_mode || old.hotkey@ != new.hotkey@),
{
    old.hotkey_mode != new.hotkey_mode || old.hotkey != new.hotkey
}

} // verus!
