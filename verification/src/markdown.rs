//! Escaping text for Telegram's MarkdownV2 message style.
use vstd::prelude::*;

use crate::text::{collect_chars, string_from_chars};

verus! {

/// The characters that the canteen texts have to escape for MarkdownV2.
pub open spec fn is_markdown_special(c: char) -> bool {
    c == '.' || c == '!' || c == '+' || c == '-' || c == '<' || c == '>' || c == '(' || c == ')'
        || c == '='
}

/// What one input character becomes: a backslash is put before a special character.
pub open spec fn escaped_char(c: char) -> Seq<char> {
    if is_markdown_special(c) {
        seq!['\\', c]
    } else {
        seq![c]
    }
}

/// Every special character of `s` preceded by a backslash.
pub open spec fn escape_specials(s: Seq<char>) -> Seq<char>
    decreases s.len(),
{
    if s.len() == 0 {
        Seq::empty()
    } else {
        escape_specials(s.drop_last()) + escaped_char(s.last())
    }
}

/// The HTML entity `&amp;`.
pub open spec fn amp_entity() -> Seq<char> {
    seq!['&', 'a', 'm', 'p', ';']
}

/// Whether `s` holds the entity `&amp;` at position `i`.
pub open spec fn amp_at(s: Seq<char>, i: int) -> bool {
    0 <= i && i + 5 <= s.len() && s.subrange(i, i + 5) == amp_entity()
}

/// Every `&amp;` of `s`, found from left to right without overlap, replaced by `&`.
pub open spec fn decode_amp(s: Seq<char>) -> Seq<char>
    decreases s.len(),
{
    if s.len() == 0 {
        s
    } else if amp_at(s, 0) {
        seq!['&'] + decode_amp(s.skip(5))
    } else {
        seq![s[0]] + decode_amp(s.skip(1))
    }
}

/// The MarkdownV2 text of `s`: the special characters escaped, then `&amp;` decoded.
pub open spec fn markdown_v2_text(s: Seq<char>) -> Seq<char> {
    decode_amp(escape_specials(s))
}

/// Every special character of `s`, but one in front, comes right after a backslash.
pub open spec fn specials_escaped_after_first(s: Seq<char>) -> bool {
    forall|i: int| 1 <= i < s.len() && is_markdown_special(#[trigger] s[i]) ==> s[i - 1] == '\\'
}

/// Every special character of `s` comes right after a backslash.
pub open spec fn specials_escaped(s: Seq<char>) -> bool {
    forall|i: int|
        0 <= i < s.len() && is_markdown_special(#[trigger] s[i]) ==> i > 0 && s[i - 1] == '\\'
}

fn is_special_char(c: char) -> (res: bool)
    ensures
        res == is_markdown_special(c),
{
    c == '.' || c == '!' || c == '+' || c == '-' || c == '<' || c == '>' || c == '(' || c == ')'
        || c == '='
}

fn escape_special_chars(s: &Vec<char>) -> (res: Vec<char>)
    ensures
        res@ == escape_specials(s@),
{
    let mut out: Vec<char> = Vec::new();
    let mut i: usize = 0;
    while i < s.len()
        invariant
            i <= s.len(),
            out@ == escape_specials(s@.take(i as int)),
        decreases s.len() - i,
    {
        let c = s[i];
        if is_special_char(c) {
            out.push('\\');
        }
        out.push(c);
        assert(s@.take(i + 1).drop_last() =~= s@.take(i as int));
        assert(out@ =~= escape_specials(s@.take(i + 1)));
        i = i + 1;
    }
    assert(s@.take(s.len() as int) =~= s@);
    out
}

fn amp_entity_at(s: &Vec<char>, i: usize) -> (res: bool)
    requires
        i <= s.len(),
    ensures
        res == amp_at(s@, i as int),
{
    if s.len() - i < 5 {
        return false;
    }
    let r = s[i] == '&' && s[i + 1] == 'a' && s[i + 2] == 'm' && s[i + 3] == 'p' && s[i + 4] == ';';
    assert(r ==> s@.subrange(i as int, i + 5) =~= amp_entity());
    assert(s@.subrange(i as int, i + 5) == amp_entity() ==> {
        &&& s@.subrange(i as int, i + 5)[0] == '&'
        &&& s@.subrange(i as int, i + 5)[1] == 'a'
        &&& s@.subrange(i as int, i + 5)[2] == 'm'
        &&& s@.subrange(i as int, i + 5)[3] == 'p'
        &&& s@.subrange(i as int, i + 5)[4] == ';'
    });
    r
}

fn decode_amp_entities(s: &Vec<char>) -> (res: Vec<char>)
    ensures
        res@ == decode_amp(s@),
{
    let mut out: Vec<char> = Vec::new();
    let mut i: usize = 0;
    assert(s@.skip(0) =~= s@);
    while i < s.len()
        invariant
            i <= s.len(),
            out@ + decode_amp(s@.skip(i as int)) == decode_amp(s@),
        decreases s.len() - i,
    {
        let ghost rest = s@.skip(i as int);
        if amp_entity_at(s, i) {
            assert(rest.subrange(0, 5) =~= s@.subrange(i as int, i + 5));
            assert(rest.skip(5) =~= s@.skip(i + 5));
            out.push('&');
            i = i + 5;
        } else {
            if s.len() - i >= 5 {
                assert(rest.subrange(0, 5) =~= s@.subrange(i as int, i + 5));
            }
            assert(rest.skip(1) =~= s@.skip(i + 1));
            out.push(s[i]);
            i = i + 1;
        }
        assert(out@ + decode_amp(s@.skip(i as int)) =~= decode_amp(s@));
    }
    assert(s@.skip(s.len() as int) =~= Seq::<char>::empty());
    assert(out@ + Seq::<char>::empty() =~= out@);
    out
}

/// Escapes `input` for Telegram's MarkdownV2 style: a backslash goes before each of
/// `. ! + - < > ( ) =`, and then each `&amp;` (which the HTML decoding leaves behind) becomes `&`.
pub fn escape_markdown_v2(input: &str) -> (res: String)
    ensures
        res@ == markdown_v2_text(input@),
{
    let chars = collect_chars(input);
    let escaped = escape_special_chars(&chars);
    let decoded = decode_amp_entities(&escaped);
    string_from_chars(decoded)
}

proof fn lemma_escape_specials_shape(s: Seq<char>)
    ensures
        specials_escaped_after_first(escape_specials(s)),
        escape_specials(s).len() > 0 ==> !is_markdown_special(escape_specials(s)[0]),
    decreases s.len(),
{
    if s.len() > 0 {
        let prev = escape_specials(s.drop_last());
        let piece = escaped_char(s.last());
        lemma_escape_specials_shape(s.drop_last());
        let e = escape_specials(s);
        assert(e == prev + piece);
        assert forall|i: int| 1 <= i < e.len() && is_markdown_special(#[trigger] e[i]) implies e[i
            - 1] == '\\' by {
            if i < prev.len() {
                assert(e[i] == prev[i] && e[i - 1] == prev[i - 1]);
            } else if i == prev.len() {
                assert(e[i] == piece[0]);
            } else {
                assert(e[i] == piece[1]);
                assert(e[i - 1] == piece[0]);
            }
        }
        if prev.len() == 0 {
            assert(e[0] == piece[0]);
        } else {
            assert(e[0] == prev[0]);
        }
    }
}

proof fn lemma_decode_amp_shape(t: Seq<char>)
    requires
        specials_escaped_after_first(t),
    ensures
        specials_escaped_after_first(decode_amp(t)),
        t.len() > 0 ==> decode_amp(t).len() > 0 && decode_amp(t)[0] == t[0],
    decreases t.len(),
{
    if t.len() > 0 {
        let d = decode_amp(t);
        if amp_at(t, 0) {
            let u = t.skip(5);
            assert forall|j: int| 1 <= j < u.len() && is_markdown_special(#[trigger] u[j]) implies u[j
                - 1] == '\\' by {
                assert(u[j] == t[j + 5] && u[j - 1] == t[j + 4]);
            }
            lemma_decode_amp_shape(u);
            let du = decode_amp(u);
            assert(d == seq!['&'] + du);
            assert(t.subrange(0, 5)[0] == '&' && t.subrange(0, 5)[4] == ';');
            if u.len() > 0 {
                assert(u[0] == t[5]);
                assert(t[4] == ';');
                assert(!is_markdown_special(u[0]));
            }
            assert forall|i: int| 1 <= i < d.len() && is_markdown_special(#[trigger] d[i]) implies d[i
                - 1] == '\\' by {
                assert(d[i] == du[i - 1]);
                if i >= 2 {
                    assert(d[i - 1] == du[i - 2]);
                }
            }
        } else {
            let u = t.skip(1);
            assert forall|j: int| 1 <= j < u.len() && is_markdown_special(#[trigger] u[j]) implies u[j
                - 1] == '\\' by {
                assert(u[j] == t[j + 1] && u[j - 1] == t[j]);
            }
            lemma_decode_amp_shape(u);
            let du = decode_amp(u);
            assert(d == seq![t[0]] + du);
            assert forall|i: int| 1 <= i < d.len() && is_markdown_special(#[trigger] d[i]) implies d[i
                - 1] == '\\' by {
                assert(d[i] == du[i - 1]);
                if i >= 2 {
                    assert(d[i - 1] == du[i - 2]);
                } else {
                    assert(du[0] == u[0] && u[0] == t[1]);
                    assert(d[0] == t[0]);
                }
            }
        }
    }
}

/// Every special character of an escaped text comes right after a backslash:
/// the escaping leaves no special character unescaped, whatever the input.
pub proof fn lemma_escape_markdown_v2_escapes_all_specials(s: Seq<char>)
    ensures
        specials_escaped(markdown_v2_text(s)),
{
    let e = escape_specials(s);
    lemma_escape_specials_shape(s);
    lemma_decode_amp_shape(e);
    let r = decode_amp(e);
    if r.len() > 0 {
        assert(e.len() > 0);
        assert(r[0] == e[0]);
    }
}

proof fn lemma_escape_specials_plain(s: Seq<char>)
    requires
        forall|i: int| 0 <= i < s.len() ==> !is_markdown_special(#[trigger] s[i]),
    ensures
        escape_specials(s) == s,
    decreases s.len(),
{
    if s.len() > 0 {
        lemma_escape_specials_plain(s.drop_last());
        assert(escape_specials(s) =~= s.drop_last() + seq![s.last()]);
        assert(s.drop_last() + seq![s.last()] =~= s);
    }
}

proof fn lemma_decode_amp_without_entity(t: Seq<char>)
    requires
        forall|i: int| !amp_at(t, i),
    ensures
        decode_amp(t) == t,
    decreases t.len(),
{
    if t.len() > 0 {
        assert(!amp_at(t, 0));
        let u = t.skip(1);
        assert forall|i: int| !amp_at(u, i) by {
            if amp_at(u, i) {
                assert(u.subrange(i, i + 5) =~= t.subrange(i + 1, i + 6));
                assert(amp_at(t, i + 1));
            }
        }
        lemma_decode_amp_without_entity(u);
        assert(seq![t[0]] + u =~= t);
    }
}

/// A text without special characters and without the entity `&amp;` comes out of the
/// escaping unchanged.
pub proof fn lemma_escape_markdown_v2_keeps_plain_text(s: Seq<char>)
    requires
        forall|i: int| 0 <= i < s.len() ==> !is_markdown_special(#[trigger] s[i]),
        forall|i: int| !amp_at(s, i),
    ensures
        markdown_v2_text(s) == s,
{
    lemma_escape_specials_plain(s);
    lemma_decode_amp_without_entity(s);
}

/// Escaping distributes over concatenation.
proof fn lemma_escape_specials_concat(a: Seq<char>, b: Seq<char>)
    ensures
        escape_specials(a + b) == escape_specials(a) + escape_specials(b),
    decreases b.len(),
{
    if b.len() == 0 {
        assert(a + b =~= a);
        assert(escape_specials(a) + escape_specials(b) =~= escape_specials(a));
    } else {
        lemma_escape_specials_concat(a, b.drop_last());
        assert((a + b).drop_last() =~= a + b.drop_last());
        assert((a + b).last() == b.last());
        assert(escape_specials(a + b) =~= escape_specials(a) + escape_specials(b));
    }
}

/// Escaping a text is escaping its first character, then the rest.
proof fn lemma_escape_specials_front(s: Seq<char>)
    requires
        s.len() > 0,
    ensures
        escape_specials(s) == escaped_char(s[0]) + escape_specials(s.skip(1)),
{
    lemma_escape_specials_concat(seq![s[0]], s.skip(1));
    assert(seq![s[0]] + s.skip(1) =~= s);
    let one = seq![s[0]];
    assert(one.drop_last() =~= Seq::<char>::empty());
    assert(one.last() == s[0]);
    assert(escape_specials(one.drop_last()) == Seq::<char>::empty());
    assert(escape_specials(one) == escape_specials(one.drop_last()) + escaped_char(s[0]));
    assert(escape_specials(one) =~= escaped_char(s[0]));
}

/// Decoding distributes over a concatenation whose first part holds no `&`.
proof fn lemma_decode_amp_concat(x: Seq<char>, y: Seq<char>)
    requires
        forall|i: int| 0 <= i < x.len() ==> #[trigger] x[i] != '&',
    ensures
        decode_amp(x + y) == decode_amp(x) + decode_amp(y),
    decreases x.len(),
{
    if x.len() == 0 {
        assert(x + y =~= y);
        assert(decode_amp(x) + decode_amp(y) =~= decode_amp(y));
    } else {
        let xy = x + y;
        assert(xy[0] == x[0]);
        if amp_at(xy, 0) {
            assert(xy.subrange(0, 5)[0] == xy[0]);
        }
        if amp_at(x, 0) {
            assert(x.subrange(0, 5)[0] == x[0]);
        }
        let x1 = x.skip(1);
        assert forall|i: int| 0 <= i < x1.len() implies #[trigger] x1[i] != '&' by {
            assert(x1[i] == x[i + 1]);
        }
        lemma_decode_amp_concat(x1, y);
        assert(xy.skip(1) =~= x1 + y);
        assert(decode_amp(xy) =~= decode_amp(x) + decode_amp(y));
    }
}

proof fn lemma_escape_specials_has_no_ampersand(s: Seq<char>)
    requires
        forall|i: int| 0 <= i < s.len() ==> #[trigger] s[i] != '&',
    ensures
        forall|i: int|
            0 <= i < escape_specials(s).len() ==> #[trigger] escape_specials(s)[i] != '&',
    decreases s.len(),
{
    if s.len() > 0 {
        let p = s.drop_last();
        assert forall|i: int| 0 <= i < p.len() implies #[trigger] p[i] != '&' by {
            assert(p[i] == s[i]);
        }
        lemma_escape_specials_has_no_ampersand(p);
        let e = escape_specials(s);
        let ep = escape_specials(p);
        let piece = escaped_char(s.last());
        assert(e == ep + piece);
        assert forall|i: int| 0 <= i < e.len() implies #[trigger] e[i] != '&' by {
            if i < ep.len() {
                assert(e[i] == ep[i]);
            } else {
                assert(e[i] == piece[i - ep.len()]);
            }
        }
    }
}

/// The escaping of a text whose first part holds no `&` is the escaping of the first part
/// followed by the escaping of the rest.
pub proof fn lemma_escape_markdown_v2_concat(a: Seq<char>, b: Seq<char>)
    requires
        forall|i: int| 0 <= i < a.len() ==> #[trigger] a[i] != '&',
    ensures
        markdown_v2_text(a + b) == markdown_v2_text(a) + markdown_v2_text(b),
{
    lemma_escape_specials_concat(a, b);
    lemma_escape_specials_has_no_ampersand(a);
    lemma_decode_amp_concat(escape_specials(a), escape_specials(b));
}

/// `s` with every backslash that stands right before a special character removed.
pub open spec fn unescape_specials(s: Seq<char>) -> Seq<char>
    decreases s.len(),
{
    if s.len() == 0 {
        s
    } else if s.len() >= 2 && s[0] == '\\' && is_markdown_special(s[1]) {
        seq![s[1]] + unescape_specials(s.skip(2))
    } else {
        seq![s[0]] + unescape_specials(s.skip(1))
    }
}

proof fn lemma_amp_prefix_of_escaped(s: Seq<char>, p: int)
    requires
        amp_at(escape_specials(s), 0),
        0 <= p <= 5,
    ensures
        p <= s.len(),
        forall|i: int| 0 <= i < p ==> s[i] == #[trigger] amp_entity()[i],
    decreases p,
{
    if p > 0 {
        lemma_amp_prefix_of_escaped(s, p - 1);
        let e = escape_specials(s);
        assert(e.subrange(0, 5) == amp_entity());
        let head = s.take(p - 1);
        assert forall|i: int| 0 <= i < head.len() implies !is_markdown_special(#[trigger] head[i]) by {
            assert(head[i] == s[i]);
            assert(s[i] == amp_entity()[i]);
        }
        lemma_escape_specials_plain(head);
        lemma_escape_specials_concat(head, s.skip(p - 1));
        assert(head + s.skip(p - 1) =~= s);
        if s.len() == p - 1 {
            assert(s.skip(p - 1) =~= Seq::<char>::empty());
            assert(e =~= head);
            assert(false);
        }
        lemma_escape_specials_front(s.skip(p - 1));
        let c = s[p - 1];
        assert(s.skip(p - 1)[0] == c);
        assert(e[p - 1] == escaped_char(c)[0]);
        assert(e[p - 1] == e.subrange(0, 5)[p - 1]);
        if is_markdown_special(c) {
            assert(escaped_char(c)[0] == '\\');
        }
    }
}

/// A text whose escaping starts with `&amp;` starts with `&amp;` itself.
proof fn lemma_amp_at_escaped_start(s: Seq<char>)
    requires
        amp_at(escape_specials(s), 0),
    ensures
        amp_at(s, 0),
{
    lemma_amp_prefix_of_escaped(s, 5);
    assert(s.subrange(0, 5) =~= amp_entity());
}

/// Undoing the escaping gives back the input with each `&amp;` decoded: removing every
/// backslash that stands right before a special character from the escaped text yields the
/// input with `&amp;` replaced by `&`.
pub proof fn lemma_escape_markdown_v2_round_trip(s: Seq<char>)
    ensures
        unescape_specials(markdown_v2_text(s)) == decode_amp(s),
    decreases s.len(),
{
    if s.len() > 0 {
        if amp_at(s, 0) {
            let head = s.take(5);
            assert(head =~= amp_entity());
            assert forall|i: int| 0 <= i < head.len() implies !is_markdown_special(#[trigger] head[i]) by {
                assert(head[i] == amp_entity()[i]);
            }
            lemma_escape_specials_plain(head);
            lemma_escape_specials_concat(head, s.skip(5));
            assert(head + s.skip(5) =~= s);
            let x = escape_specials(s.skip(5));
            let e = escape_specials(s);
            assert(e == amp_entity() + x);
            assert(e.subrange(0, 5) =~= amp_entity());
            assert(e.skip(5) =~= x);
            let d = decode_amp(x);
            assert(decode_amp(e) == seq!['&'] + d);
            assert((seq!['&'] + d).skip(1) =~= d);
            lemma_escape_markdown_v2_round_trip(s.skip(5));
            assert(unescape_specials(seq!['&'] + d) == seq!['&'] + unescape_specials(d));
        } else {
            let c = s[0];
            let rest = s.skip(1);
            let x = escape_specials(rest);
            lemma_escape_specials_front(s);
            lemma_escape_specials_shape(rest);
            lemma_decode_amp_shape(x);
            lemma_escape_markdown_v2_round_trip(rest);
            let d = decode_amp(x);
            let e = escape_specials(s);
            if is_markdown_special(c) {
                assert(e == seq!['\\', c] + x);
                let cx = seq![c] + x;
                assert(e.skip(1) =~= cx);
                if amp_at(e, 0) {
                    assert(e.subrange(0, 5)[0] == e[0]);
                }
                if amp_at(cx, 0) {
                    assert(cx.subrange(0, 5)[0] == cx[0]);
                }
                assert(cx.skip(1) =~= x);
                assert(decode_amp(cx) == seq![c] + d);
                assert(decode_amp(e) == seq!['\\'] + (seq![c] + d));
                let de = seq!['\\'] + (seq![c] + d);
                assert(de[0] == '\\' && de[1] == c);
                assert(de.skip(2) =~= d);
            } else {
                assert(e == seq![c] + x);
                if amp_at(e, 0) {
                    lemma_amp_at_escaped_start(s);
                }
                assert(e.skip(1) =~= x);
                assert(decode_amp(e) == seq![c] + d);
                let de = seq![c] + d;
                if de.len() >= 2 {
                    assert(de[1] == d[0]);
                    assert(d[0] == x[0]);
                }
                assert(de.skip(1) =~= d);
            }
        }
    }
}

/// The number of special characters of `s`.
pub open spec fn special_count(s: Seq<char>) -> nat
    decreases s.len(),
{
    if s.len() == 0 {
        0
    } else {
        special_count(s.drop_last()) + if is_markdown_special(s.last()) {
            1nat
        } else {
            0nat
        }
    }
}

proof fn lemma_escape_specials_len(s: Seq<char>)
    ensures
        escape_specials(s).len() == s.len() + special_count(s),
    decreases s.len(),
{
    if s.len() > 0 {
        lemma_escape_specials_len(s.drop_last());
    }
}

/// Escaping a text without `&` makes it longer by one backslash per special character.
pub proof fn lemma_escape_markdown_v2_length(s: Seq<char>)
    requires
        forall|i: int| 0 <= i < s.len() ==> #[trigger] s[i] != '&',
    ensures
        markdown_v2_text(s).len() == s.len() + special_count(s),
{
    lemma_escape_specials_len(s);
    lemma_escape_specials_has_no_ampersand(s);
    let e = escape_specials(s);
    assert forall|i: int| !amp_at(e, i) by {
        if amp_at(e, i) {
            assert(e.subrange(i, i + 5)[0] == e[i]);
        }
    }
    lemma_decode_amp_without_entity(e);
}

} // verus!
