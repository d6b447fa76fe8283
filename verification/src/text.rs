//! Text: comparison, ordering and splitting of strings.
use vstd::prelude::*;
use vstd::string::*;
use vstd::utf8::*;

verus! {

/// Whether `a` comes no later than `b` when byte strings are ordered byte by byte, a proper
/// prefix before what it is a prefix of.
pub open spec fn bytes_le(a: Seq<u8>, b: Seq<u8>) -> bool
    decreases a.len(),
{
    if a.len() == 0 {
        true
    } else if b.len() == 0 {
        false
    } else if a[0] == b[0] {
        bytes_le(a.drop_first(), b.drop_first())
    } else {
        a[0] < b[0]
    }
}

/// The order on text: that of the UTF-8 bytes, which is the order of `str` itself.
pub open spec fn text_le(a: Seq<char>, b: Seq<char>) -> bool {
    bytes_le(encode_utf8(a), encode_utf8(b))
}

proof fn lemma_bytes_le_reflexive(a: Seq<u8>)
    ensures
        bytes_le(a, a),
    decreases a.len(),
{
    if a.len() > 0 {
        lemma_bytes_le_reflexive(a.drop_first());
    }
}

proof fn lemma_bytes_le_total(a: Seq<u8>, b: Seq<u8>)
    ensures
        bytes_le(a, b) || bytes_le(b, a),
    decreases a.len(),
{
    if a.len() > 0 && b.len() > 0 {
        lemma_bytes_le_total(a.drop_first(), b.drop_first());
    }
}

proof fn lemma_bytes_le_transitive(a: Seq<u8>, b: Seq<u8>, c: Seq<u8>)
    requires
        bytes_le(a, b),
        bytes_le(b, c),
    ensures
        bytes_le(a, c),
    decreases a.len(),
{
    if a.len() > 0 && b.len() > 0 && c.len() > 0 && a[0] == b[0] && b[0] == c[0] {
        lemma_bytes_le_transitive(a.drop_first(), b.drop_first(), c.drop_first());
    }
}

proof fn lemma_bytes_le_antisymmetric(a: Seq<u8>, b: Seq<u8>)
    requires
        bytes_le(a, b),
        bytes_le(b, a),
    ensures
        a == b,
    decreases a.len(),
{
    if a.len() > 0 && b.len() > 0 {
        lemma_bytes_le_antisymmetric(a.drop_first(), b.drop_first());
        assert(a =~= seq![a[0]] + a.drop_first());
        assert(b =~= seq![b[0]] + b.drop_first());
    }
    assert(a =~= b);
}

/// Two texts with the same UTF-8 bytes are the same text.
pub proof fn lemma_encoding_injective(a: Seq<char>, b: Seq<char>)
    requires
        encode_utf8(a) == encode_utf8(b),
    ensures
        a == b,
{
    encode_utf8_decode_utf8(a);
    encode_utf8_decode_utf8(b);
}

/// The order on text is a total order: every text is no later than itself, of two texts one is
/// no later than the other, each no later than the other makes them equal, and no-later-than
/// carries over a third text.
pub proof fn law_text_le_is_a_total_order(a: Seq<char>, b: Seq<char>, c: Seq<char>)
    ensures
        text_le(a, a),
        text_le(a, b) || text_le(b, a),
        text_le(a, b) && text_le(b, a) ==> a == b,
        text_le(a, b) && text_le(b, c) ==> text_le(a, c),
{
    lemma_bytes_le_reflexive(encode_utf8(a));
    lemma_bytes_le_total(encode_utf8(a), encode_utf8(b));
    if text_le(a, b) && text_le(b, a) {
        lemma_bytes_le_antisymmetric(encode_utf8(a), encode_utf8(b));
        lemma_encoding_injective(a, b);
    }
    if text_le(a, b) && text_le(b, c) {
        lemma_bytes_le_transitive(encode_utf8(a), encode_utf8(b), encode_utf8(c));
    }
}

/// Whether `a` comes no later than `b`.
pub fn text_at_most(a: &str, b: &str) -> (r: bool)
    ensures
        r == text_le(a@, b@),
{
    let x = a.as_bytes();
    let y = b.as_bytes();
    let mut i: usize = 0;
    proof {
        assert(x@.skip(0) =~= x@);
        assert(y@.skip(0) =~= y@);
    }
    while i < x.len() && i < y.len()
        invariant
            i <= x.len(),
            i <= y.len(),
            x@ == encode_utf8(a@),
            y@ == encode_utf8(b@),
            text_le(a@, b@) == bytes_le(x@.skip(i as int), y@.skip(i as int)),
        decreases x.len() - i,
    {
        if x[i] != y[i] {
            return x[i] < y[i];
        }
        proof {
            assert(x@.skip(i as int).drop_first() =~= x@.skip(i + 1));
            assert(y@.skip(i as int).drop_first() =~= y@.skip(i + 1));
        }
        i = i + 1;
    }
    i == x.len()
}

/// Whether `a` and `b` are the same text.
pub fn same_text(a: &str, b: &str) -> (r: bool)
    ensures
        r == (a@ == b@),
{
    let x = a.as_bytes();
    let y = b.as_bytes();
    if x.len() != y.len() {
        return false;
    }
    let mut i: usize = 0;
    while i < x.len()
        invariant
            i <= x.len(),
            x.len() == y.len(),
            x@ == encode_utf8(a@),
            y@ == encode_utf8(b@),
            forall|j: int| 0 <= j < i ==> x@[j] == y@[j],
        decreases x.len() - i,
    {
        if x[i] != y[i] {
            return false;
        }
        i = i + 1;
    }
    proof {
        assert(x@ =~= y@);
        lemma_encoding_injective(a@, b@);
    }
    true
}

/// The characters of `s`, in order.
pub fn chars_of(s: &str) -> (chars: Vec<char>)
    ensures
        chars@ == s@,
{
    let mut chars: Vec<char> = Vec::new();
    for c in it: s.chars()
        invariant
            chars@ == s@.take(it.index()),
            it.seq() == s@,
    {
        chars.push(c);
    }
    chars
}

/// What follows `prefix` in `s`, where `s` starts with it.
pub open spec fn after_prefix(s: Seq<char>, prefix: Seq<char>) -> Option<Seq<char>> {
    if prefix.is_prefix_of(s) {
        Some(s.skip(prefix.len() as int))
    } else {
        None
    }
}

/// What follows `prefix` in `s`, where `s` starts with it.
pub fn strip_text_prefix<'a>(s: &'a str, prefix: &str) -> (rest: Option<&'a str>)
    ensures
        match rest {
            Some(rest) => after_prefix(s@, prefix@) == Some(rest@),
            None => after_prefix(s@, prefix@) is None,
        },
{
    let x = chars_of(s);
    let p = chars_of(prefix);
    if p.len() > x.len() {
        return None;
    }
    let mut i: usize = 0;
    while i < p.len()
        invariant
            i <= p.len() <= x.len(),
            x@ == s@,
            p@ == prefix@,
            forall|j: int| 0 <= j < i ==> x@[j] == p@[j],
        decreases p.len() - i,
    {
        if x[i] != p[i] {
            return None;
        }
        i = i + 1;
    }
    assert(p@ =~= x@.take(p@.len() as int));
    assert(x@.skip(p@.len() as int) =~= x@.subrange(p@.len() as int, x@.len() as int));
    Some(s.substring_char(p.len(), x.len()))
}

/// The index of the first `sep` in `s` at or after `start`.
fn find_char(s: &Vec<char>, start: usize, sep: char) -> (found: Option<usize>)
    requires
        start <= s.len(),
    ensures
        match found {
            Some(i) => {
                &&& start <= i < s.len()
                &&& s@[i as int] == sep
                &&& forall|j: int| start <= j < i ==> s@[j] != sep
            },
            None => forall|j: int| start <= j < s.len() ==> s@[j] != sep,
        },
{
    let mut i: usize = start;
    while i < s.len()
        invariant
            start <= i <= s.len(),
            forall|j: int| start <= j < i ==> s@[j] != sep,
        decreases s.len() - i,
    {
        if s[i] == sep {
            return Some(i);
        }
        i = i + 1;
    }
    None
}

/// The index of the first `sep` in `s`, or the length of `s`.
pub open spec fn first_of(s: Seq<char>, sep: char) -> int
    decreases s.len(),
{
    if s.len() == 0 || s[0] == sep {
        0
    } else {
        1 + first_of(s.drop_first(), sep)
    }
}

proof fn lemma_first_of(s: Seq<char>, sep: char)
    ensures
        0 <= first_of(s, sep) <= s.len(),
        first_of(s, sep) < s.len() ==> s[first_of(s, sep)] == sep,
        forall|j: int| 0 <= j < first_of(s, sep) ==> s[j] != sep,
    decreases s.len(),
{
    if s.len() > 0 && s[0] != sep {
        let t = s.drop_first();
        lemma_first_of(t, sep);
        assert forall|j: int| 0 <= j < first_of(s, sep) implies s[j] != sep by {
            if j > 0 {
                assert(s[j] == t[j - 1]);
            }
        }
    }
}

/// The first `sep` stands at the one place that no other `sep` comes before.
pub proof fn lemma_first_of_is(s: Seq<char>, sep: char, i: int)
    requires
        0 <= i <= s.len(),
        i < s.len() ==> s[i] == sep,
        forall|j: int| 0 <= j < i ==> s[j] != sep,
    ensures
        first_of(s, sep) == i,
{
    lemma_first_of(s, sep);
    let f = first_of(s, sep);
    if f < i {
        assert(s[f] == sep);
    }
}

/// What stands before and after the first `sep` in `s`, where there is one.
pub open spec fn split_first(s: Seq<char>, sep: char) -> Option<(Seq<char>, Seq<char>)> {
    let i = first_of(s, sep);
    if i < s.len() {
        Some((s.take(i), s.skip(i + 1)))
    } else {
        None
    }
}

/// What stands before and after the first `sep` in `s`, where there is one.
pub fn split_text_once<'a>(s: &'a str, sep: char) -> (parts: Option<(&'a str, &'a str)>)
    ensures
        match parts {
            Some(parts) => split_first(s@, sep) == Some((parts.0@, parts.1@)),
            None => split_first(s@, sep) is None,
        },
{
    let x = chars_of(s);
    match find_char(&x, 0, sep) {
        Some(i) => {
            proof {
                lemma_first_of_is(x@, sep, i as int);
                assert(x@.take(i as int) =~= x@.subrange(0, i as int));
                assert(x@.skip(i + 1) =~= x@.subrange(i + 1, x@.len() as int));
            }
            Some((s.substring_char(0, i), s.substring_char(i + 1, x.len())))
        },
        None => {
            proof {
                lemma_first_of_is(x@, sep, x@.len() as int);
            }
            None
        },
    }
}

/// The parts of `s` between its separators, empty ones included.
pub open spec fn split_all(s: Seq<char>, sep: char) -> Seq<Seq<char>>
    decreases s.len(),
    via split_all_decreases
{
    match split_first(s, sep) {
        Some((part, rest)) => seq![part] + split_all(rest, sep),
        None => seq![s],
    }
}

#[via_fn]
proof fn split_all_decreases(s: Seq<char>, sep: char) {
    lemma_first_of(s, sep);
}

/// The parts of `s` between its separators, empty ones included.
pub fn split_text<'a>(s: &'a str, sep: char) -> (parts: Vec<&'a str>)
    ensures
        parts@.map_values(|part: &'a str| part@) == split_all(s@, sep),
{
    let x = chars_of(s);
    let mut parts: Vec<&'a str> = Vec::new();
    let mut start: usize = 0;
    let ghost done = Seq::<Seq<char>>::empty();
    proof {
        assert(x@.skip(0) =~= x@);
        assert(done + split_all(x@, sep) =~= split_all(x@, sep));
    }
    loop
        invariant_except_break
            start <= x.len(),
            done == parts@.map_values(|part: &'a str| part@),
            done + split_all(x@.skip(start as int), sep) == split_all(s@, sep),
        invariant
            x@ == s@,
        ensures
            parts@.map_values(|part: &'a str| part@) == split_all(s@, sep),
        decreases x.len() - start,
    {
        let ghost rest = x@.skip(start as int);
        match find_char(&x, start, sep) {
            Some(i) => {
                proof {
                    lemma_first_of_is(rest, sep, i - start);
                    assert(rest.take(i - start) =~= x@.subrange(start as int, i as int));
                    assert(rest.skip(i - start + 1) =~= x@.skip(i + 1));
                }
                let part = s.substring_char(start, i);
                parts.push(part);
                proof {
                    let before = done;
                    done = done.push(part@);
                    assert(done =~= parts@.map_values(|part: &'a str| part@));
                    assert(before + (seq![part@] + split_all(x@.skip(i + 1), sep)) =~= done
                        + split_all(x@.skip(i + 1), sep));
                }
                start = i + 1;
            },
            None => {
                proof {
                    lemma_first_of_is(rest, sep, rest.len() as int);
                    assert(rest =~= x@.subrange(start as int, x@.len() as int));
                }
                let part = s.substring_char(start, x.len());
                parts.push(part);
                assert(parts@.map_values(|part: &'a str| part@) =~= done + seq![part@]);
                break;
            },
        }
    }
    parts
}

/// The text of an optional string.
pub open spec fn opt_view(s: Option<String>) -> Option<Seq<char>> {
    match s {
        Some(s) => Some(s@),
        None => None,
    }
}

/// The texts of strings.
pub open spec fn texts_view(strings: Seq<String>) -> Seq<Seq<char>> {
    Seq::new(strings.len(), |i: int| strings[i]@)
}

/// The texts of an optional list of strings.
pub open spec fn opt_texts_view(strings: Option<Vec<String>>) -> Option<Seq<Seq<char>>> {
    match strings {
        Some(strings) => Some(texts_view(strings@)),
        None => None,
    }
}

/// A copy of an optional string.
pub fn copy_opt_text(s: &Option<String>) -> (copy: Option<String>)
    ensures
        opt_view(copy) == opt_view(*s),
{
    match s {
        Some(s) => Some(s.clone()),
        None => None,
    }
}

/// A copy of a list of strings.
pub fn copy_texts(strings: &Vec<String>) -> (copy: Vec<String>)
    ensures
        texts_view(copy@) == texts_view(strings@),
{
    let mut copy: Vec<String> = Vec::new();
    let mut i: usize = 0;
    while i < strings.len()
        invariant
            copy.len() == i <= strings.len(),
            forall|j: int| 0 <= j < i ==> (#[trigger] copy@[j])@ == strings@[j]@,
        decreases strings.len() - i,
    {
        copy.push(strings[i].clone());
        i = i + 1;
    }
    assert(texts_view(copy@) =~= texts_view(strings@));
    copy
}

/// A copy of an optional list of strings.
pub fn copy_opt_texts(strings: &Option<Vec<String>>) -> (copy: Option<Vec<String>>)
    ensures
        opt_texts_view(copy) == opt_texts_view(*strings),
{
    match strings {
        Some(strings) => Some(copy_texts(strings)),
        None => None,
    }
}

/// `first`, `second` and `third` one after another.
pub fn joined(first: &str, second: &str, third: &str) -> (text: String)
    ensures
        text@ == first@ + second@ + third@,
{
    let mut text = String::new();
    text.append(first);
    text.append(second);
    text.append(third);
    assert(Seq::<char>::empty() + first@ =~= first@);
    text
}

/// The text `s` as it is quoted in a message.
pub uninterp spec fn quoted_text(s: Seq<char>) -> Seq<char>;

/// The text `s` as it is quoted in a message: the `Debug` form of `str`, which depends on the
/// text alone. Nothing is said here of how it quotes and escapes.
#[verifier::external_body]
pub(crate) fn quoted(s: &str) -> (text: String)
    ensures
        text@ == quoted_text(s@),
{
    format!("{s:?}")
}

/// Of two texts with the same UTF-8 bytes up to some place, the one with the smaller byte there
/// comes first; and a text comes no later than what it is the beginning of, and later than its own
/// beginnings.
pub proof fn law_text_order_is_that_of_the_first_difference(
    a: Seq<char>,
    b: Seq<char>,
    place: int,
)
    requires
        0 <= place <= encode_utf8(a).len(),
        place <= encode_utf8(b).len(),
        forall|i: int| 0 <= i < place ==> encode_utf8(a)[i] == encode_utf8(b)[i],
    ensures
        ({
            let x = encode_utf8(a);
            let y = encode_utf8(b);
            &&& place < x.len() && place < y.len() && x[place] != y[place] ==> (text_le(a, b)
                <==> x[place] < y[place])
            &&& place == x.len() ==> text_le(a, b)
            &&& place == y.len() && place < x.len() ==> !text_le(a, b)
        }),
{
    lemma_bytes_le_at(encode_utf8(a), encode_utf8(b), place);
}

proof fn lemma_bytes_le_at(x: Seq<u8>, y: Seq<u8>, place: int)
    requires
        0 <= place <= x.len(),
        place <= y.len(),
        forall|i: int| 0 <= i < place ==> x[i] == y[i],
    ensures
        place < x.len() && place < y.len() && x[place] != y[place] ==> (bytes_le(x, y) <==> x[place]
            < y[place]),
        place == x.len() ==> bytes_le(x, y),
        place == y.len() && place < x.len() ==> !bytes_le(x, y),
    decreases place,
{
    if place > 0 {
        let u = x.drop_first();
        let v = y.drop_first();
        assert forall|i: int| 0 <= i < place - 1 implies u[i] == v[i] by {
            assert(u[i] == x[i + 1] && v[i] == y[i + 1]);
        }
        lemma_bytes_le_at(u, v, place - 1);
        assert(x[0] == y[0]);
        if place < x.len() {
            assert(u[place - 1] == x[place]);
        }
        if place < y.len() {
            assert(v[place - 1] == y[place]);
        }
    }
}

/// What follows a prefix is all that was put behind it, and a text that does not start with the
/// prefix has nothing behind it.
pub proof fn law_prefix_is_taken_off(s: Seq<char>, prefix: Seq<char>, rest: Seq<char>)
    ensures
        after_prefix(prefix + rest, prefix) == Some(rest),
        after_prefix(s, prefix) == Some(rest) ==> s == prefix + rest,
        after_prefix(s, prefix) is None <==> forall|r: Seq<char>| s != #[trigger] (prefix + r),
{
    let n = prefix.len() as int;
    assert(prefix =~= (prefix + rest).take(n));
    assert((prefix + rest).skip(n) =~= rest);
    if prefix.is_prefix_of(s) {
        assert(s =~= prefix + s.skip(n));
    } else {
        assert forall|r: Seq<char>| s != #[trigger] (prefix + r) by {
            if s == prefix + r {
                assert(prefix =~= s.take(n));
            }
        }
    }
}

/// A text is split at its first separator: put together again the parts are the text, and the
/// first part holds no separator. One without a separator is not split.
pub proof fn law_parts_make_up_the_text(s: Seq<char>, sep: char)
    ensures
        match split_first(s, sep) {
            Some((before, behind)) => {
                &&& s == before + seq![sep] + behind
                &&& !before.contains(sep)
            },
            None => !s.contains(sep),
        },
{
    lemma_first_of(s, sep);
    let i = first_of(s, sep);
    if i < s.len() {
        assert(s =~= s.take(i) + seq![sep] + s.skip(i + 1));
        assert forall|j: int| 0 <= j < i implies s.take(i)[j] != sep by {
            assert(s[j] != sep);
        }
    }
}

/// A text without a separator is one part, and a part in front of a separator is the first of the
/// parts, whatever follows.
pub proof fn law_parts_are_those_between_separators(part: Seq<char>, rest: Seq<char>, sep: char)
    requires
        !part.contains(sep),
    ensures
        split_all(part, sep) == seq![part],
        split_all(part + seq![sep] + rest, sep) == seq![part] + split_all(rest, sep),
{
    let whole = part + seq![sep] + rest;
    assert forall|j: int| 0 <= j < part.len() implies part[j] != sep by {
        assert(part.contains(part[j]));
    }
    assert forall|j: int| 0 <= j < part.len() implies whole[j] != sep by {
        assert(whole[j] == part[j]);
    }
    lemma_first_of_is(part, sep, part.len() as int);
    lemma_first_of_is(whole, sep, part.len() as int);
    assert(whole.take(part.len() as int) =~= part);
    assert(whole.skip(part.len() as int + 1) =~= rest);
}

} // verus!
