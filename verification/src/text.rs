//! Text helpers: joining, trimming, prefixes and lookups.
//!
//! A text is modelled by its sequence of characters.

use vstd::prelude::*;
use vstd::utf8::encode_utf8;
use vstd::utf8::encode_utf8_decode_utf8;

verus! {

/// The parts one after the other, with `sep` between each two.
pub open spec fn joined(parts: Seq<Seq<char>>, sep: Seq<char>) -> Seq<char>
    decreases parts.len(),
{
    if parts.len() == 0 {
        Seq::empty()
    } else if parts.len() == 1 {
        parts[0]
    } else {
        joined(parts.drop_last(), sep) + sep + parts.last()
    }
}

/// The number of bytes that a text takes in UTF-8.
pub open spec fn byte_len(text: Seq<char>) -> nat {
    encode_utf8(text).len()
}

/// Whether a character has the Unicode property White_Space.
pub open spec fn is_white(c: char) -> bool {
    ||| '\u{9}' <= c <= '\u{d}'
    ||| c == '\u{20}'
    ||| c == '\u{85}'
    ||| c == '\u{a0}'
    ||| c == '\u{1680}'
    ||| '\u{2000}' <= c <= '\u{200a}'
    ||| c == '\u{2028}'
    ||| c == '\u{2029}'
    ||| c == '\u{202f}'
    ||| c == '\u{205f}'
    ||| c == '\u{3000}'
}

/// The text without its leading white space.
pub open spec fn trimmed_start(text: Seq<char>) -> Seq<char>
    decreases text.len(),
{
    if text.len() > 0 && is_white(text[0]) {
        trimmed_start(text.drop_first())
    } else {
        text
    }
}

/// The text without its trailing white space.
pub open spec fn trimmed_end(text: Seq<char>) -> Seq<char>
    decreases text.len(),
{
    if text.len() > 0 && is_white(text.last()) {
        trimmed_end(text.drop_last())
    } else {
        text
    }
}

/// The text without white space at either end.
pub open spec fn trimmed(text: Seq<char>) -> Seq<char> {
    trimmed_end(trimmed_start(text))
}

/// The first `n` characters, or the whole text where it has fewer.
pub open spec fn first(text: Seq<char>, n: nat) -> Seq<char> {
    if text.len() <= n {
        text
    } else {
        text.take(n as int)
    }
}

/// What follows `prefix` in a text that starts with it.
pub open spec fn after_prefix(text: Seq<char>, prefix: Seq<char>) -> Option<Seq<char>> {
    if prefix.is_prefix_of(text) {
        Some(text.skip(prefix.len() as int))
    } else {
        None
    }
}

/// An optional text by its characters.
pub open spec fn opt(text: Option<&str>) -> Option<Seq<char>> {
    match text {
        Some(t) => Some(t@),
        None => None,
    }
}

/// Whether two texts hold the same characters.
pub fn same(a: &str, b: &str) -> (r: bool)
    ensures
        r == (a@ == b@),
{
    let x = a.as_bytes();
    let y = b.as_bytes();
    proof {
        encode_utf8_decode_utf8(a@);
        encode_utf8_decode_utf8(b@);
    }
    if x.len() != y.len() {
        return false;
    }
    let mut i: usize = 0;
    while i < x.len()
        invariant
            i <= x@.len(),
            x@.len() == y@.len(),
            x@ == encode_utf8(a@),
            y@ == encode_utf8(b@),
            forall|k: int| 0 <= k < i ==> x@[k] == y@[k],
        decreases x@.len() - i,
    {
        if x[i] != y[i] {
            return false;
        }
        i += 1;
    }
    assert(x@ =~= y@);
    true
}

/// The characters of a text, in order.
pub fn chars_of(text: &str) -> (chars: Vec<char>)
    ensures
        chars@ == text@,
{
    let mut chars: Vec<char> = Vec::new();
    for c in it: text.chars()
        invariant
            it.seq() == text@,
            chars@ == text@.take(it.index() as int),
    {
        proof {
            assert(text@.take(it.index() as int + 1) =~= text@.take(it.index() as int).push(c));
        }
        chars.push(c);
    }
    assert(text@.take(text@.len() as int) =~= text@);
    chars
}

/// Joins the parts with `sep` between each two.
pub fn join(parts: &Vec<String>, sep: &str) -> (text: String)
    ensures
        text@ == joined(parts.deep_view(), sep@),
{
    let mut text = String::new();
    let mut i: usize = 0;
    let ghost all = parts.deep_view();
    while i < parts.len()
        invariant
            i <= parts.len(),
            all == parts.deep_view(),
            text@ == joined(all.take(i as int), sep@),
        decreases parts.len() - i,
    {
        proof {
            assert(all.take(i + 1).drop_last() =~= all.take(i as int));
            assert(all.take(i + 1).last() == parts@[i as int]@);
            if i == 0 {
                assert(text@ + parts@[0]@ =~= parts@[0]@);
            }
        }
        if i > 0 {
            text.append(sep);
        }
        text.append(parts[i].as_str());
        i += 1;
    }
    assert(all.take(i as int) =~= all);
    text
}

/// Whether a character is white space.
pub fn white(c: char) -> (r: bool)
    ensures
        r == is_white(c),
{
    ('\u{9}' <= c && c <= '\u{d}') || c == '\u{20}' || c == '\u{85}' || c == '\u{a0}' || c
        == '\u{1680}' || ('\u{2000}' <= c && c <= '\u{200a}') || c == '\u{2028}' || c == '\u{2029}'
        || c == '\u{202f}' || c == '\u{205f}' || c == '\u{3000}'
}

/// Cuts the white space off both ends of a text.
pub fn trim(text: &str) -> (r: &str)
    ensures
        r@ == trimmed(text@),
{
    let chars = chars_of(text);
    let n: usize = chars.len();
    let mut i: usize = 0;
    assert(text@.subrange(0, n as int) =~= text@);
    while i < n && white(chars[i])
        invariant
            i <= n,
            n == chars@.len(),
            chars@ == text@,
            trimmed_start(text@) == trimmed_start(text@.subrange(i as int, n as int)),
        decreases n - i,
    {
        proof {
            assert(text@.subrange(i as int, n as int).drop_first() =~= text@.subrange(
                i + 1,
                n as int,
            ));
        }
        i += 1;
    }
    let mut j: usize = n;
    let ghost rest = text@.subrange(i as int, n as int);
    while i < j && white(chars[j - 1])
        invariant
            i <= j <= n,
            n == chars@.len(),
            chars@ == text@,
            trimmed_end(rest) == trimmed_end(text@.subrange(i as int, j as int)),
        decreases j,
    {
        proof {
            assert(text@.subrange(i as int, j as int).drop_last() =~= text@.subrange(
                i as int,
                j - 1,
            ));
        }
        j -= 1;
    }
    text.substring_char(i, j)
}

/// The first `n` characters of a text.
pub fn first_chars(text: &str, n: usize) -> (r: &str)
    ensures
        r@ == first(text@, n as nat),
{
    let len: usize = text.unicode_len();
    if len <= n {
        text
    } else {
        text.substring_char(0, n)
    }
}

/// Whether a text starts with `prefix`.
pub fn has_prefix(text: &str, prefix: &str) -> (r: bool)
    ensures
        r == prefix@.is_prefix_of(text@),
{
    strip_prefix(text, prefix).is_some()
}

/// What follows `prefix`, where the text starts with it.
pub fn strip_prefix<'a>(text: &'a str, prefix: &str) -> (r: Option<&'a str>)
    ensures
        opt(r) == after_prefix(text@, prefix@),
{
    let k: usize = prefix.unicode_len();
    let n: usize = text.unicode_len();
    if n < k {
        return None;
    }
    let head = text.substring_char(0, k);
    if same(head, prefix) {
        assert(text@.skip(k as int) =~= text@.subrange(k as int, n as int));
        Some(text.substring_char(k, n))
    } else {
        None
    }
}

/// Whether `name` is one of `names`.
pub fn contains(names: &Vec<String>, name: &str) -> (r: bool)
    ensures
        r == names.deep_view().contains(name@),
{
    let mut i: usize = 0;
    while i < names.len()
        invariant
            i <= names.len(),
            forall|k: int| 0 <= k < i ==> names@[k]@ != name@,
        decreases names.len() - i,
    {
        if same(names[i].as_str(), name) {
            assert(names.deep_view()[i as int] == name@);
            return true;
        }
        i += 1;
    }
    assert forall|k: int| 0 <= k < names.deep_view().len() implies names.deep_view()[k]
        != name@ by {}
    false
}

/// A copy of an optional text.
pub fn copy_option(text: &Option<String>) -> (r: Option<String>)
    ensures
        r == *text,
{
    match text {
        Some(t) => Some(t.clone()),
        None => None,
    }
}

/// A copy of a list of texts.
pub fn copy_list(texts: &Vec<String>) -> (r: Vec<String>)
    ensures
        r@ == texts@,
{
    let mut r: Vec<String> = Vec::new();
    let mut i: usize = 0;
    while i < texts.len()
        invariant
            i <= texts.len(),
            r@ == texts@.take(i as int),
        decreases texts.len() - i,
    {
        r.push(texts[i].clone());
        assert(texts@.take(i + 1) =~= texts@.take(i as int).push(texts@[i as int]));
        i += 1;
    }
    assert(texts@.take(i as int) =~= texts@);
    r
}

/// Joining nothing gives nothing, joining one text gives that text, and joining two
/// lists gives what joining each does, with the separator between. So nothing that is
/// joined is lost, added to or moved, and the separator stands between each two.
pub proof fn joining_keeps_every_part(
    a: Seq<Seq<char>>,
    b: Seq<Seq<char>>,
    one: Seq<char>,
    sep: Seq<char>,
)
    ensures
        joined(Seq::empty(), sep) == Seq::<char>::empty(),
        joined(seq![one], sep) == one,
        a.len() > 0 && b.len() > 0 ==> joined(a + b, sep) == joined(a, sep) + sep + joined(b, sep),
    decreases b.len(),
{
    if a.len() > 0 && b.len() > 0 {
        assert((a + b).drop_last() =~= a + b.drop_last());
        assert((a + b).last() == b.last());
        if b.len() == 1 {
            assert(a + b.drop_last() =~= a);
            assert(joined(a + b, sep) == joined(a, sep) + sep + b[0]);
        } else {
            joining_keeps_every_part(a, b.drop_last(), one, sep);
            assert(joined(a, sep) + sep + joined(b.drop_last(), sep) + sep + b.last() =~= joined(
                a,
                sep,
            ) + sep + (joined(b.drop_last(), sep) + sep + b.last()));
        }
    }
}

/// Blanks, tabs and line ends are white space, and nothing else that ASCII prints is.
pub proof fn blanks_are_white(c: char)
    ensures
        c == ' ' || '\t' <= c <= '\r' ==> is_white(c),
        '!' <= c <= '~' ==> !is_white(c),
{
}

/// Trimming cuts white space alone, off both ends, and all of it: the text is what was
/// cut at its start, what is left, and what was cut at its end.
pub proof fn trimming_cuts_white_space_alone(text: Seq<char>) -> (r: (Seq<char>, Seq<char>))
    ensures
        text == r.0 + trimmed(text) + r.1,
        forall|i: int| 0 <= i < r.0.len() ==> is_white(#[trigger] r.0[i]),
        forall|i: int| 0 <= i < r.1.len() ==> is_white(#[trigger] r.1[i]),
        trimmed(text).len() > 0 ==> !is_white(trimmed(text)[0]) && !is_white(trimmed(text).last()),
{
    let head = lemma_trimmed_start(text);
    let rest = trimmed_start(text);
    let tail = lemma_trimmed_end(rest);
    assert(text =~= head + trimmed(text) + tail);
    if trimmed(text).len() > 0 {
        assert(rest[0] == trimmed(text)[0]);
    }
    (head, tail)
}

proof fn lemma_trimmed_start(text: Seq<char>) -> (head: Seq<char>)
    ensures
        text == head + trimmed_start(text),
        forall|i: int| 0 <= i < head.len() ==> is_white(#[trigger] head[i]),
        trimmed_start(text).len() > 0 ==> !is_white(trimmed_start(text)[0]),
    decreases text.len(),
{
    if text.len() > 0 && is_white(text[0]) {
        let head = lemma_trimmed_start(text.drop_first());
        let more = seq![text[0]] + head;
        assert(text =~= seq![text[0]] + text.drop_first());
        assert(text =~= more + trimmed_start(text.drop_first()));
        assert forall|i: int| 0 <= i < more.len() implies is_white(#[trigger] more[i]) by {
            if i > 0 {
                assert(more[i] == head[i - 1]);
            }
        }
        more
    } else {
        assert(text =~= Seq::<char>::empty() + text);
        Seq::empty()
    }
}

proof fn lemma_trimmed_end(text: Seq<char>) -> (tail: Seq<char>)
    ensures
        text == trimmed_end(text) + tail,
        forall|i: int| 0 <= i < tail.len() ==> is_white(#[trigger] tail[i]),
        trimmed_end(text).len() > 0 ==> !is_white(trimmed_end(text).last()),
    decreases text.len(),
{
    if text.len() > 0 && is_white(text.last()) {
        let tail = lemma_trimmed_end(text.drop_last());
        let more = tail.push(text.last());
        assert(text =~= text.drop_last().push(text.last()));
        assert(text =~= trimmed_end(text.drop_last()) + more);
        more
    } else {
        assert(text =~= text + Seq::<char>::empty());
        Seq::empty()
    }
}

/// The start of a text is a prefix of it, as long as was asked for, and shorter only
/// where the text is.
pub proof fn starts_are_prefixes(text: Seq<char>, n: nat, i: int)
    ensures
        first(text, n).len() == if text.len() < n {
            text.len()
        } else {
            n
        },
        0 <= i < first(text, n).len() ==> first(text, n)[i] == text[i],
{
}

/// A prefix is cut off exactly where the text is the prefix and something behind it,
/// which is then what is left.
pub proof fn prefixes_are_cut_whole(text: Seq<char>, prefix: Seq<char>, rest: Seq<char>)
    ensures
        after_prefix(text, prefix) == Some(rest) <==> text == prefix + rest,
        after_prefix(text, prefix) is None ==> text != prefix + rest,
{
    if text == prefix + rest {
        assert(text.subrange(0, prefix.len() as int) =~= prefix);
        assert(text.skip(prefix.len() as int) =~= rest);
    }
    if after_prefix(text, prefix) == Some(rest) {
        assert(text =~= prefix + rest);
    }
}

/// The characters that are white space are those to which Unicode gives that property:
/// these twenty-five code points.
pub proof fn white_space_is_that_of_unicode(c: char, r: bool)
    requires
        call_ensures(white, (c,), r),
    ensures
        ({
            let n = c as int;
            r <==> 9 <= n <= 13 || n == 32 || n == 133 || n == 160 || n == 5760 || 8192 <= n
                <= 8202 || n == 8232 || n == 8233 || n == 8239 || n == 8287 || n == 12288
        }),
        r == is_white(c),
{
}

/// Two texts are the same exactly where they are as long and have the same character at
/// every place.
pub proof fn same_texts_agree_everywhere(a: &str, b: &str, r: bool, i: int)
    requires
        call_ensures(same, (a, b), r),
    ensures
        r ==> a@.len() == b@.len() && (0 <= i < a@.len() ==> a@[i] == b@[i]),
        a@.len() == b@.len() && (forall|k: int| 0 <= k < a@.len() ==> #[trigger] a@[k] == b@[k])
            ==> r,
{
    if a@.len() == b@.len() && (forall|k: int| 0 <= k < a@.len() ==> #[trigger] a@[k] == b@[k]) {
        assert(a@ =~= b@);
    }
}

/// Trimming a text gives what is left between the white space at its ends, the start of
/// it is its first characters, and what follows a prefix is the rest of it.
pub proof fn texts_are_cut_where_asked(
    text: &str,
    trimmed_text: &str,
    n: usize,
    start: &str,
    prefix: &str,
    rest: Option<&str>,
    has: bool,
    chars: Vec<char>,
) -> (w: (Seq<char>, Seq<char>))
    requires
        call_ensures(trim, (text,), trimmed_text),
        call_ensures(first_chars, (text, n), start),
        call_ensures(strip_prefix, (text, prefix), rest),
        call_ensures(has_prefix, (text, prefix), has),
        call_ensures(chars_of, (text,), chars),
    ensures
        text@ == w.0 + trimmed_text@ + w.1,
        forall|i: int| 0 <= i < w.0.len() ==> is_white(#[trigger] w.0[i]),
        forall|i: int| 0 <= i < w.1.len() ==> is_white(#[trigger] w.1[i]),
        trimmed_text@.len() > 0 ==> !is_white(trimmed_text@[0]) && !is_white(trimmed_text@.last()),
        start@.len() == if text@.len() < n {
            text@.len()
        } else {
            n as nat
        },
        forall|i: int| 0 <= i < start@.len() ==> #[trigger] start@[i] == text@[i],
        has <==> rest is Some,
        has <==> prefix@.len() <= text@.len() && (forall|i: int|
            0 <= i < prefix@.len() ==> #[trigger] prefix@[i] == text@[i]),
        rest is Some ==> text@ == prefix@ + rest.unwrap()@,
        chars@ == text@,
{
    starts_are_prefixes(text@, n as nat, 0);
    if rest is Some {
        prefixes_are_cut_whole(text@, prefix@, rest.unwrap()@);
    }
    if prefix@.len() <= text@.len() && (forall|i: int|
        0 <= i < prefix@.len() ==> #[trigger] prefix@[i] == text@[i]) {
        assert(text@.subrange(0, prefix@.len() as int) =~= prefix@);
    }
    if has {
        assert forall|i: int| 0 <= i < prefix@.len() implies #[trigger] prefix@[i] == text@[i] by {
            assert(text@.subrange(0, prefix@.len() as int)[i] == text@[i]);
        }
    }
    trimming_cuts_white_space_alone(text@)
}

/// Joining a list gives what its two halves give, with the separator between; a list of
/// one gives its text, and an empty one nothing.
pub proof fn lists_are_joined_whole(
    a: Vec<String>,
    b: Vec<String>,
    both: Vec<String>,
    sep: &str,
    x: String,
    y: String,
    z: String,
)
    requires
        both@ == a@ + b@,
        call_ensures(join, (&a, sep), x),
        call_ensures(join, (&b, sep), y),
        call_ensures(join, (&both, sep), z),
    ensures
        a.len() == 0 ==> x@.len() == 0,
        a.len() == 1 ==> x@ == a@[0]@,
        a.len() > 0 && b.len() > 0 ==> z@ == x@ + sep@ + y@,
{
    assert(a.deep_view().len() == a.len());
    assert(b.deep_view().len() == b.len());
    assert(both.deep_view() =~= a.deep_view() + b.deep_view());
    joining_keeps_every_part(a.deep_view(), b.deep_view(), Seq::empty(), sep@);
    if a.len() == 1 {
        assert(a.deep_view()[0] == a@[0]@);
    }
}

/// A name is among names exactly where it is one of them, and copies hold what they
/// were made from.
pub proof fn names_are_found_among_names(
    names: Vec<String>,
    name: &str,
    r: bool,
    copied: Vec<String>,
    text: Option<String>,
    same_text: Option<String>,
)
    requires
        call_ensures(contains, (&names, name), r),
        call_ensures(copy_list, (&names,), copied),
        call_ensures(copy_option, (&text,), same_text),
    ensures
        r <==> exists|i: int| 0 <= i < names.len() && (#[trigger] names@[i])@ == name@,
        copied@ == names@,
        same_text == text,
{
    let all = names.deep_view();
    assert(all.len() == names.len());
    if r {
        let i = choose|i: int| 0 <= i < all.len() && all[i] == name@;
        assert(names@[i]@ == name@);
    }
    assert forall|i: int| 0 <= i < names.len() && (#[trigger] names@[i])@ == name@ implies r by {
        assert(all[i] == name@);
    }
}

} // verus!
