//! Cleaning of announcement text: control characters out, whitespace runs
//! collapsed to single spaces, length capped.
use vstd::prelude::*;

verus! {

broadcast use vstd::string::group_string_axioms;

/// `String::push` appends one character at the end of the string.
pub assume_specification[ String::push ](string: &mut String, ch: char)
    ensures
        final(string)@ == old(string)@.push(ch),
;

/// The most characters an announcement keeps.
pub const MAX_ANNOUNCEMENT_CHARS: usize = 512;

/// Unicode general category Cc (control codes): U+0000..=U+001F and U+007F..=U+009F.
pub open spec fn control_char(c: char) -> bool {
    let v = c as u32;
    v <= 0x1f || (0x7f <= v && v <= 0x9f)
}

/// The Unicode `White_Space` property.
pub open spec fn white_space(c: char) -> bool {
    let v = c as u32;
    ||| (0x09 <= v && v <= 0x0d)
    ||| v == 0x20
    ||| v == 0x85
    ||| v == 0xa0
    ||| v == 0x1680
    ||| (0x2000 <= v && v <= 0x200a)
    ||| v == 0x2028
    ||| v == 0x2029
    ||| v == 0x202f
    ||| v == 0x205f
    ||| v == 0x3000
}

/// Line feed, carriage return and tab: the control characters that separate words.
pub open spec fn layout_char(c: char) -> bool {
    c == '\n' || c == '\r' || c == '\t'
}

/// What one character of the message becomes once control characters are dealt with.
pub open spec fn cleaned_char(c: char) -> Seq<char> {
    if layout_char(c) {
        seq![' ']
    } else if control_char(c) {
        Seq::empty()
    } else {
        seq![c]
    }
}

/// The message with layout characters turned into spaces and every other control character dropped.
pub open spec fn cleaned(s: Seq<char>) -> Seq<char>
    decreases s.len(),
{
    if s.len() == 0 {
        Seq::empty()
    } else {
        cleaned(s.drop_last()) + cleaned_char(s.last())
    }
}

/// The maximal runs of non-whitespace characters of `s`, in order.
pub open spec fn words(s: Seq<char>) -> Seq<Seq<char>>
    decreases s.len(),
{
    if s.len() == 0 {
        Seq::empty()
    } else {
        let w = words(s.drop_last());
        let c = s.last();
        if white_space(c) {
            w
        } else if s.len() >= 2 && !white_space(s[s.len() - 2]) {
            w.update(w.len() - 1, w.last().push(c))
        } else {
            w.push(seq![c])
        }
    }
}

/// The words joined by single spaces.
pub open spec fn joined(ws: Seq<Seq<char>>) -> Seq<char>
    decreases ws.len(),
{
    if ws.len() == 0 {
        Seq::empty()
    } else if ws.len() == 1 {
        ws[0]
    } else {
        joined(ws.drop_last()) + seq![' '] + ws.last()
    }
}

/// `s` with every run of whitespace turned into one space and none at either end.
pub open spec fn collapsed(s: Seq<char>) -> Seq<char> {
    joined(words(s))
}

/// The first `n` characters of `s` (all of it when it is shorter).
pub open spec fn truncated(s: Seq<char>, n: nat) -> Seq<char> {
    if s.len() <= n {
        s
    } else {
        s.take(n as int)
    }
}

/// The text that is announced for `s`.
pub open spec fn sanitized(s: Seq<char>) -> Seq<char> {
    truncated(collapsed(cleaned(s)), MAX_ANNOUNCEMENT_CHARS as nat)
}

/// Whether `c` is a control character (general category Cc).
pub fn is_control(c: char) -> (r: bool)
    ensures
        r == control_char(c),
{
    let v = c as u32;
    v <= 0x1f || (0x7f <= v && v <= 0x9f)
}

/// Whether `c` has the Unicode `White_Space` property.
pub fn is_white_space(c: char) -> (r: bool)
    ensures
        r == white_space(c),
{
    let v = c as u32;
    (0x09 <= v && v <= 0x0d) || v == 0x20 || v == 0x85 || v == 0xa0 || v == 0x1680 || (0x2000
        <= v && v <= 0x200a) || v == 0x2028 || v == 0x2029 || v == 0x202f || v == 0x205f || v
        == 0x3000
}

fn clean_controls(message: &str) -> (r: String)
    ensures
        r@ == cleaned(message@),
{
    let mut out = String::new();
    for ch in iter: message.chars()
        invariant
            iter.seq() == message@,
            out@ == cleaned(message@.take(iter.index())),
    {
        proof {
            let p = message@.take(iter.index() + 1);
            assert(p.drop_last() =~= message@.take(iter.index()));
        }
        if ch == '\n' || ch == '\r' || ch == '\t' {
            out.push(' ');
        } else if !is_control(ch) {
            out.push(ch);
        }
        proof {
            let p = message@.take(iter.index() + 1);
            assert(out@ =~= cleaned(p));
        }
    }
    proof {
        assert(message@.take(message@.len() as int) =~= message@);
    }
    out
}


/// A non-whitespace last character means the text has at least one word.
proof fn lemma_words_nonempty(s: Seq<char>)
    requires
        s.len() > 0,
        !white_space(s.last()),
    ensures
        words(s).len() > 0,
    decreases s.len(),
{
    if s.len() >= 2 && !white_space(s[s.len() - 2]) {
        assert(s.drop_last().last() == s[s.len() - 2]);
        lemma_words_nonempty(s.drop_last());
    }
}

/// Appending a character to the last word appends it to the joined text.
proof fn lemma_joined_extend_last(ws: Seq<Seq<char>>, c: char)
    requires
        ws.len() > 0,
    ensures
        joined(ws.update(ws.len() - 1, ws.last().push(c))) == joined(ws).push(c),
{
    let ws2 = ws.update(ws.len() - 1, ws.last().push(c));
    if ws.len() == 1 {
        assert(joined(ws2) == ws2[0]);
    } else {
        assert(ws2.drop_last() =~= ws.drop_last());
        assert(joined(ws2) =~= joined(ws).push(c));
    }
}

/// Adding a new word puts a space before it unless it is the first.
proof fn lemma_joined_push(ws: Seq<Seq<char>>, w: Seq<char>)
    ensures
        joined(ws.push(w)) == if ws.len() == 0 {
            w
        } else {
            joined(ws) + seq![' '] + w
        },
{
    assert(ws.push(w).drop_last() =~= ws);
}

fn collapse_whitespace(text: &str) -> (r: String)
    ensures
        r@ == collapsed(text@),
{
    let mut out = String::new();
    let mut started = false;
    let mut pending = false;
    for ch in iter: text.chars()
        invariant
            iter.seq() == text@,
            out@ == joined(words(text@.take(iter.index()))),
            started == (words(text@.take(iter.index())).len() > 0),
            pending == (iter.index() > 0 && white_space(text@[iter.index() - 1]) && started),
    {
        let ghost p = text@.take(iter.index());
        let ghost q = text@.take(iter.index() + 1);
        proof {
            assert(q.drop_last() =~= p);
            assert(q.last() == ch);
            if iter.index() > 0 {
                assert(q[q.len() - 2] == text@[iter.index() - 1]);
                assert(p.last() == text@[iter.index() - 1]);
            }
        }
        if is_white_space(ch) {
            pending = started;
        } else {
            proof {
                if iter.index() > 0 && !white_space(text@[iter.index() - 1]) {
                    lemma_words_nonempty(p);
                    lemma_joined_extend_last(words(p), ch);
                } else {
                    lemma_joined_push(words(p), seq![ch]);
                }
            }
            if pending {
                out.push(' ');
            }
            out.push(ch);
            pending = false;
            started = true;
            proof {
                assert(out@ =~= joined(words(q)));
            }
        }
    }
    proof {
        assert(text@.take(text@.len() as int) =~= text@);
    }
    out
}

fn truncate_chars(text: &str, max: usize) -> (r: String)
    ensures
        r@ == truncated(text@, max as nat),
{
    let mut out = String::new();
    let mut count: usize = 0;
    for ch in iter: text.chars()
        invariant
            iter.seq() == text@,
            count <= max,
            count as int == if iter.index() <= max { iter.index() } else { max as int },
            out@ == text@.take(count as int),
    {
        if count < max {
            proof {
                assert(text@.take(count + 1) =~= text@.take(count as int).push(ch));
            }
            out.push(ch);
            count = count + 1;
        }
    }
    proof {
        assert(text@.take(text@.len() as int) =~= text@);
    }
    out
}

/// The text announced for `message`: layout characters become spaces, other
/// control characters go, each run of whitespace becomes one space with none
/// at either end, and at most 512 characters remain.
pub fn sanitize_message(message: &str) -> (r: String)
    ensures
        r@ == sanitized(message@),
        r@.len() == if collapsed(cleaned(message@)).len() <= MAX_ANNOUNCEMENT_CHARS {
            collapsed(cleaned(message@)).len()
        } else {
            MAX_ANNOUNCEMENT_CHARS as nat
        },
        forall|i: int| 0 <= i < r@.len() ==> r@[i] == #[trigger] collapsed(cleaned(message@))[i],
{
    proof {
        lemma_sanitized_prefix(message@);
    }
    let cleaned = clean_controls(message);
    let collapsed = collapse_whitespace(cleaned.as_str());
    truncate_chars(collapsed.as_str(), MAX_ANNOUNCEMENT_CHARS)
}


/// Neither a control character nor whitespace: a character that is spoken.
pub open spec fn printable(c: char) -> bool {
    !control_char(c) && !white_space(c)
}

/// Every character of `t` is a plain space or printable.
pub open spec fn plain_text(t: Seq<char>) -> bool {
    forall|i: int| 0 <= i < t.len() ==> #[trigger] t[i] == ' ' || printable(t[i])
}

/// No space at the start of `t` and no two spaces next to each other.
pub open spec fn single_spaced(t: Seq<char>) -> bool {
    &&& t.len() > 0 ==> t[0] != ' '
    &&& forall|i: int| 0 < i < t.len() && #[trigger] t[i] == ' ' ==> t[i - 1] != ' '
}

/// `t` ends with a space.
pub open spec fn ends_with_space(t: Seq<char>) -> bool {
    t.len() > 0 && t.last() == ' '
}

proof fn lemma_cleaned_no_control(s: Seq<char>)
    ensures
        forall|i: int| 0 <= i < cleaned(s).len() ==> !control_char(#[trigger] cleaned(s)[i]),
    decreases s.len(),
{
    if s.len() > 0 {
        lemma_cleaned_no_control(s.drop_last());
        let a = cleaned(s.drop_last());
        let b = cleaned_char(s.last());
        assert forall|i: int| 0 <= i < cleaned(s).len() implies !control_char(
            #[trigger] cleaned(s)[i],
        ) by {
            if i < a.len() {
                assert(cleaned(s)[i] == a[i]);
            } else {
                assert(cleaned(s)[i] == b[i - a.len()]);
            }
        }
    }
}

/// Text without control characters is left as it is by the cleaning step.
proof fn lemma_cleaned_identity(s: Seq<char>)
    requires
        forall|i: int| 0 <= i < s.len() ==> !control_char(#[trigger] s[i]),
    ensures
        cleaned(s) == s,
    decreases s.len(),
{
    if s.len() > 0 {
        assert(s.last() == s[s.len() - 1]);
        lemma_cleaned_identity(s.drop_last());
        assert(cleaned(s) =~= s);
    }
}

/// A word is never empty, and every character of it is printable when the text has no control characters.
proof fn lemma_words_printable(s: Seq<char>)
    requires
        forall|i: int| 0 <= i < s.len() ==> !control_char(#[trigger] s[i]),
    ensures
        forall|k: int|
            0 <= k < words(s).len() ==> (#[trigger] words(s)[k]).len() > 0 && forall|j: int|
                0 <= j < words(s)[k].len() ==> printable(#[trigger] words(s)[k][j]),
    decreases s.len(),
{
    if s.len() > 0 {
        let t = s.drop_last();
        assert forall|i: int| 0 <= i < t.len() implies !control_char(#[trigger] t[i]) by {
            assert(t[i] == s[i]);
        }
        lemma_words_printable(t);
        let c = s.last();
        assert(!control_char(s[s.len() - 1]));
        let w = words(t);
        if white_space(c) {
        } else if s.len() >= 2 && !white_space(s[s.len() - 2]) {
            assert(t.last() == s[s.len() - 2]);
            lemma_words_nonempty(t);
            let w2 = w.update(w.len() - 1, w.last().push(c));
            assert(words(s) == w2);
            assert forall|k: int| 0 <= k < w2.len() implies (#[trigger] w2[k]).len() > 0
                && forall|j: int| 0 <= j < w2[k].len() ==> printable(#[trigger] w2[k][j]) by {
                if k == w.len() - 1 {
                    assert forall|j: int| 0 <= j < w2[k].len() implies printable(
                        #[trigger] w2[k][j],
                    ) by {
                        if j < w[k].len() {
                            assert(w2[k][j] == w[k][j]);
                        }
                    }
                } else {
                    assert(w2[k] == w[k]);
                }
            }
        } else {
            let w2 = w.push(seq![c]);
            assert(words(s) == w2);
            assert forall|k: int| 0 <= k < w2.len() implies (#[trigger] w2[k]).len() > 0
                && forall|j: int| 0 <= j < w2[k].len() ==> printable(#[trigger] w2[k][j]) by {
                if k < w.len() {
                    assert(w2[k] == w[k]);
                }
            }
        }
    }
}

/// Joining non-empty printable words gives plain, single-spaced text without a trailing space.
proof fn lemma_joined_shape(ws: Seq<Seq<char>>)
    requires
        forall|k: int|
            0 <= k < ws.len() ==> (#[trigger] ws[k]).len() > 0 && forall|j: int|
                0 <= j < ws[k].len() ==> printable(#[trigger] ws[k][j]),
    ensures
        plain_text(joined(ws)),
        single_spaced(joined(ws)),
        !ends_with_space(joined(ws)),
        (joined(ws).len() == 0) == (ws.len() == 0),
    decreases ws.len(),
{
    if ws.len() == 1 {
        assert(joined(ws) == ws[0]);
        assert(printable(ws[0][0]));
        assert(printable(ws[0][ws[0].len() - 1]));
        assert forall|i: int| 0 <= i < joined(ws).len() implies #[trigger] joined(ws)[i] == ' '
            || printable(joined(ws)[i]) by {
            assert(printable(ws[0][i]));
        }
    } else if ws.len() > 1 {
        let a = ws.drop_last();
        assert forall|k: int| 0 <= k < a.len() implies (#[trigger] a[k]).len() > 0 && forall|
            j: int,
        |
            0 <= j < a[k].len() ==> printable(#[trigger] a[k][j]) by {
            assert(a[k] == ws[k]);
        }
        lemma_joined_shape(a);
        let x = joined(a);
        let l = ws.last();
        assert(l == ws[ws.len() - 1]);
        let t = joined(ws);
        assert(t == x + seq![' '] + l);
        assert(x.len() > 0);
        assert(printable(l[0]));
        assert(printable(l[l.len() - 1]));
        assert forall|i: int| 0 <= i < t.len() implies #[trigger] t[i] == ' ' || printable(t[i]) by {
            if i < x.len() {
                assert(t[i] == x[i]);
            } else if i > x.len() {
                assert(t[i] == l[i - x.len() - 1]);
                assert(printable(l[i - x.len() - 1]));
            }
        }
        assert(t[0] == x[0]);
        assert forall|i: int| 0 < i < t.len() && #[trigger] t[i] == ' ' implies t[i - 1] != ' ' by {
            if i < x.len() {
                assert(t[i] == x[i]);
                assert(t[i - 1] == x[i - 1]);
            } else if i == x.len() {
                assert(t[i - 1] == x[x.len() - 1]);
            } else {
                assert(t[i] == l[i - x.len() - 1]);
                assert(printable(l[i - x.len() - 1]));
            }
        }
        assert(t.last() == l[l.len() - 1]);
    }
}

/// The collapsed form of text without control characters is plain, single-spaced and has no trailing space.
proof fn lemma_collapsed_shape(s: Seq<char>)
    requires
        forall|i: int| 0 <= i < s.len() ==> !control_char(#[trigger] s[i]),
    ensures
        plain_text(collapsed(s)),
        single_spaced(collapsed(s)),
        !ends_with_space(collapsed(s)),
        (collapsed(s).len() == 0) == (words(s).len() == 0),
{
    lemma_words_printable(s);
    lemma_joined_shape(words(s));
}

/// A text has no words exactly when all of its characters are whitespace.
proof fn lemma_no_words(s: Seq<char>)
    ensures
        (words(s).len() == 0) == (forall|i: int| 0 <= i < s.len() ==> white_space(#[trigger] s[i])),
    decreases s.len(),
{
    if s.len() > 0 {
        let t = s.drop_last();
        lemma_no_words(t);
        assert(s.last() == s[s.len() - 1]);
        if !white_space(s.last()) {
            lemma_words_nonempty(s);
        } else {
            if forall|i: int| 0 <= i < t.len() ==> white_space(#[trigger] t[i]) {
                assert forall|i: int| 0 <= i < s.len() implies white_space(#[trigger] s[i]) by {
                    if i < t.len() {
                        assert(s[i] == t[i]);
                    }
                }
            } else {
                let j = choose|j: int| 0 <= j < t.len() && !white_space(#[trigger] t[j]);
                assert(s[j] == t[j]);
            }
        }
    }
}

/// Cleaning leaves only whitespace exactly when the message held nothing but control and whitespace characters.
proof fn lemma_cleaned_blank(s: Seq<char>)
    ensures
        (forall|i: int| 0 <= i < cleaned(s).len() ==> white_space(#[trigger] cleaned(s)[i])) == (
        forall|i: int| 0 <= i < s.len() ==> !printable(#[trigger] s[i])),
    decreases s.len(),
{
    if s.len() > 0 {
        let t = s.drop_last();
        lemma_cleaned_blank(t);
        let a = cleaned(t);
        let b = cleaned_char(s.last());
        let c = cleaned(s);
        assert(c == a + b);
        assert(s.last() == s[s.len() - 1]);
        if forall|i: int| 0 <= i < c.len() ==> white_space(#[trigger] c[i]) {
            assert forall|i: int| 0 <= i < a.len() implies white_space(#[trigger] a[i]) by {
                assert(c[i] == a[i]);
            }
            if b.len() > 0 {
                assert(c[a.len() as int] == b[0]);
            }
            assert forall|i: int| 0 <= i < s.len() implies !printable(#[trigger] s[i]) by {
                if i < t.len() {
                    assert(s[i] == t[i]);
                }
            }
        } else {
            let j = choose|j: int| 0 <= j < c.len() && !white_space(#[trigger] c[j]);
            if j < a.len() {
                assert(c[j] == a[j]);
                let k = choose|k: int| 0 <= k < t.len() && printable(#[trigger] t[k]);
                assert(s[k] == t[k]);
            } else {
                assert(c[j] == b[j - a.len()]);
            }
        }
    }
}

/// Plain, single-spaced text is its own collapsed form, but for one trailing space.
proof fn lemma_collapsed_identity(t: Seq<char>)
    requires
        plain_text(t),
        single_spaced(t),
    ensures
        collapsed(t) == if ends_with_space(t) {
            t.drop_last()
        } else {
            t
        },
    decreases t.len(),
{
    if t.len() > 0 {
        let u = t.drop_last();
        assert forall|i: int| 0 <= i < u.len() implies #[trigger] u[i] == ' ' || printable(u[i]) by {
            assert(u[i] == t[i]);
        }
        assert forall|i: int| 0 < i < u.len() && #[trigger] u[i] == ' ' implies u[i - 1] != ' ' by {
            assert(u[i] == t[i]);
            assert(u[i - 1] == t[i - 1]);
        }
        if u.len() > 0 {
            assert(u[0] == t[0]);
        }
        lemma_collapsed_identity(u);
        let c = t.last();
        assert(c == t[t.len() - 1]);
        if c == ' ' {
            assert(t.len() >= 2);
            assert(u.last() == t[t.len() - 2]);
        } else {
            assert(printable(c));
            if t.len() == 1 {
                assert(words(t) =~= seq![seq![c]]);
                assert(collapsed(t) =~= t);
            } else if !white_space(t[t.len() - 2]) {
                assert(u.last() == t[t.len() - 2]);
                assert(u.last() != ' ');
                lemma_words_nonempty(u);
                lemma_joined_extend_last(words(u), c);
                assert(collapsed(t) =~= t);
            } else {
                assert(u.last() == t[t.len() - 2]);
                assert(t[t.len() - 2] == ' ');
                assert(u.len() >= 2);
                let v = u.drop_last();
                assert(v.last() == t[t.len() - 3]);
                assert(v.last() != ' ');
                assert(printable(v.last()));
                lemma_words_nonempty(v);
                assert(words(u) == words(v));
                lemma_joined_push(words(u), seq![c]);
                assert(collapsed(t) =~= t);
            }
        }
    }
}

/// Law: an announcement never holds more than 512 characters.
pub proof fn lemma_sanitized_bounded(s: Seq<char>)
    ensures
        sanitized(s).len() <= MAX_ANNOUNCEMENT_CHARS,
{
}

/// Law: every character of an announcement is a plain space or a printable character,
/// no announcement starts with a space or holds two spaces in a row, and one ends
/// with a space only where the 512-character cap cut the text.
pub proof fn lemma_sanitized_shape(s: Seq<char>)
    ensures
        plain_text(sanitized(s)),
        single_spaced(sanitized(s)),
        ends_with_space(sanitized(s)) ==> sanitized(s).len() == MAX_ANNOUNCEMENT_CHARS,
{
    lemma_cleaned_no_control(s);
    lemma_collapsed_shape(cleaned(s));
    let t = collapsed(cleaned(s));
    let r = sanitized(s);
    if t.len() > MAX_ANNOUNCEMENT_CHARS {
        assert forall|i: int| 0 <= i < r.len() implies #[trigger] r[i] == ' ' || printable(r[i]) by {
            assert(r[i] == t[i]);
        }
        assert forall|i: int| 0 < i < r.len() && #[trigger] r[i] == ' ' implies r[i - 1] != ' ' by {
            assert(r[i] == t[i]);
            assert(r[i - 1] == t[i - 1]);
        }
        assert(r[0] == t[0]);
    }
}

/// Law: a message yields no announcement exactly when it holds nothing but
/// control characters and whitespace.
pub proof fn lemma_sanitized_empty(s: Seq<char>)
    ensures
        (sanitized(s).len() == 0) == (forall|i: int| 0 <= i < s.len() ==> !printable(#[trigger] s[i])),
{
    lemma_cleaned_no_control(s);
    lemma_collapsed_shape(cleaned(s));
    lemma_no_words(cleaned(s));
    lemma_cleaned_blank(s);
}

/// Law: cleaning an announcement again gives it back unchanged, but for the one
/// trailing space that the 512-character cap can leave, which goes.
pub proof fn lemma_sanitized_idempotent(s: Seq<char>)
    ensures
        sanitized(sanitized(s)) == if ends_with_space(sanitized(s)) {
            sanitized(s).drop_last()
        } else {
            sanitized(s)
        },
{
    let r = sanitized(s);
    lemma_sanitized_shape(s);
    assert forall|i: int| 0 <= i < r.len() implies !control_char(#[trigger] r[i]) by {
        assert(r[i] == ' ' || printable(r[i]));
    }
    lemma_cleaned_identity(r);
    lemma_collapsed_identity(r);
}


/// Law: the first `n` characters of `s`: all of `s` when it has at most `n`
/// characters, else exactly `n`, each equal to the character of `s` at its place.
pub proof fn lemma_truncated_prefix(s: Seq<char>, n: nat)
    ensures
        truncated(s, n).len() == if s.len() <= n {
            s.len()
        } else {
            n
        },
        forall|i: int| 0 <= i < truncated(s, n).len() ==> #[trigger] truncated(s, n)[i] == s[i],
{
}

/// Law: an announcement is the start of the collapsed, control-free message: all of it
/// when that has at most 512 characters, else its first 512 characters.
pub proof fn lemma_sanitized_prefix(s: Seq<char>)
    ensures
        sanitized(s).len() == if collapsed(cleaned(s)).len() <= MAX_ANNOUNCEMENT_CHARS {
            collapsed(cleaned(s)).len()
        } else {
            MAX_ANNOUNCEMENT_CHARS as nat
        },
        forall|i: int|
            0 <= i < sanitized(s).len() ==> #[trigger] sanitized(s)[i] == collapsed(cleaned(s))[i],
        collapsed(cleaned(s)).len() <= MAX_ANNOUNCEMENT_CHARS ==> sanitized(s) == collapsed(
            cleaned(s),
        ),
{
    lemma_truncated_prefix(collapsed(cleaned(s)), MAX_ANNOUNCEMENT_CHARS as nat);
}

/// Law: a message that is already clean (plain characters, single spaces, no space at
/// either end) and at most 512 characters long is announced exactly as it is.
pub proof fn lemma_clean_message_unchanged(s: Seq<char>)
    requires
        plain_text(s),
        single_spaced(s),
        !ends_with_space(s),
        s.len() <= MAX_ANNOUNCEMENT_CHARS,
    ensures
        sanitized(s) == s,
{
    assert forall|i: int| 0 <= i < s.len() implies !control_char(#[trigger] s[i]) by {
        assert(s[i] == ' ' || printable(s[i]));
    }
    lemma_cleaned_identity(s);
    lemma_collapsed_identity(s);
}

} // verus!
