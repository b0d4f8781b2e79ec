//! Unicode text: what is taken on trust about characters and strings, and the
//! verified helpers that work on grapheme clusters.
//!
//! A row of text is addressed by grapheme cluster, the unit that a reader sees
//! as one character. Where the clusters of a string begin and end is decided
//! by the `unicode-segmentation` crate; this module gives that decision a
//! name, [`grapheme_clusters`], and everything else in the library is stated
//! and proved over that name.

use unicode_segmentation::UnicodeSegmentation;
use vstd::prelude::*;
use vstd::string::StringExecFns;

verus! {

/// The grapheme clusters of `s`, in order, by the extended rules of Unicode
/// Standard Annex #29.
pub uninterp spec fn grapheme_clusters(s: Seq<char>) -> Seq<Seq<char>>;

/// The number of words in `s` by the word-boundary rules of Unicode Standard
/// Annex #29, counting only the pieces that hold a letter or a digit.
pub uninterp spec fn unicode_word_count(s: Seq<char>) -> nat;

/// Whether `c` has the Unicode property `White_Space`.
pub uninterp spec fn is_whitespace_char(c: char) -> bool;

/// Whether `c` has the Unicode property `Alphabetic`.
pub uninterp spec fn is_alphabetic_char(c: char) -> bool;

/// Whether `c` is alphabetic or numeric in the sense of Unicode.
pub uninterp spec fn is_alphanumeric_char(c: char) -> bool;

/// Whether `c` is one of the ASCII punctuation characters:
/// `! " # $ % & ' ( ) * + , - . /`, `: ; < = > ? @`, `` [ \ ] ^ _ ` `` or
/// `{ | } ~`.
pub open spec fn is_ascii_punctuation_char(c: char) -> bool {
    let n = c as u32;
    (0x21 <= n <= 0x2F) || (0x3A <= n <= 0x40) || (0x5B <= n <= 0x60) || (0x7B <= n <= 0x7E)
}

/// The texts that a vector of strings holds.
pub open spec fn texts(v: Seq<String>) -> Seq<Seq<char>> {
    Seq::new(v.len(), |i: int| v[i]@)
}

/// Whether `pattern` stands in `s` from character `i` on.
pub open spec fn occurs_at(s: Seq<char>, pattern: Seq<char>, i: int) -> bool {
    0 <= i && i + pattern.len() <= s.len() && s.subrange(i, i + pattern.len()) == pattern
}

/// Whether `pattern` stands somewhere in `s`.
pub open spec fn occurs_in(s: Seq<char>, pattern: Seq<char>) -> bool {
    exists|i: int| occurs_at(s, pattern, i)
}

/// Whether `i` is the first character position at which `pattern` stands in
/// `s`.
pub open spec fn is_first_occurrence(s: Seq<char>, pattern: Seq<char>, i: int) -> bool {
    occurs_at(s, pattern, i) && forall|j: int| 0 <= j < i ==> !occurs_at(s, pattern, j)
}

/// Whether `offset` is the byte offset in `s` of the first place where
/// `pattern` stands: the length of the UTF-8 encoding of what stands before
/// that place.
pub open spec fn is_first_byte_offset(s: Seq<char>, pattern: Seq<char>, offset: nat) -> bool {
    exists|i: int|
        is_first_occurrence(s, pattern, i) && offset == vstd::utf8::encode_utf8(s.take(i)).len()
}

/// The byte offset in `s` of the first place where `pattern` stands.
pub open spec fn first_byte_offset(s: Seq<char>, pattern: Seq<char>) -> nat {
    choose|offset: nat| is_first_byte_offset(s, pattern, offset)
}

/// The first place where a pattern stands has one byte offset only.
pub proof fn lemma_first_byte_offset(s: Seq<char>, pattern: Seq<char>, offset: nat)
    requires
        is_first_byte_offset(s, pattern, offset),
    ensures
        offset == first_byte_offset(s, pattern),
{
    let other = first_byte_offset(s, pattern);
    let i = choose|i: int|
        is_first_occurrence(s, pattern, i) && offset == vstd::utf8::encode_utf8(s.take(i)).len();
    let j = choose|j: int|
        is_first_occurrence(s, pattern, j) && other == vstd::utf8::encode_utf8(s.take(j)).len();
    assert(is_first_byte_offset(s, pattern, other));
    if i < j {
        assert(!occurs_at(s, pattern, i));
    } else if j < i {
        assert(!occurs_at(s, pattern, j));
    }
}

/// `s` without the whitespace at its start.
pub open spec fn trimmed_start(s: Seq<char>) -> Seq<char>
    decreases s.len(),
{
    if s.len() > 0 && is_whitespace_char(s[0]) {
        trimmed_start(s.drop_first())
    } else {
        s
    }
}

/// `s` without the whitespace at its start and at its end.
pub open spec fn trimmed(s: Seq<char>) -> Seq<char> {
    trimmed_start(trimmed_end(s))
}

/// `s` without the whitespace at its end.
pub open spec fn trimmed_end(s: Seq<char>) -> Seq<char>
    decreases s.len(),
{
    if s.len() > 0 && is_whitespace_char(s.last()) {
        trimmed_end(s.drop_last())
    } else {
        s
    }
}

/// Trusted: `UnicodeSegmentation::graphemes` with extended clusters, each
/// cluster copied into a `String`. The clusters are those that
/// [`grapheme_clusters`] names. The iterator hands out consecutive slices of
/// the string from its start to its end, each up to the next boundary behind
/// its start: so their concatenation is the string itself, and none of them
/// is empty.
#[verifier::external_body]
pub(crate) fn split_graphemes(s: &str) -> (r: Vec<String>)
    ensures
        texts(r@) == grapheme_clusters(s@),
        texts(r@).flatten() == s@,
        forall|i: int| 0 <= i < r@.len() ==> (#[trigger] texts(r@)[i]).len() > 0,
{
    s.graphemes(true).map(String::from).collect()
}

/// Trusted: the number of items that `UnicodeSegmentation::unicode_words`
/// yields, which is what [`unicode_word_count`] names.
#[verifier::external_body]
pub(crate) fn count_unicode_words(s: &str) -> (r: usize)
    ensures
        r == unicode_word_count(s@),
{
    s.unicode_words().count()
}

/// Trusted: `char::is_whitespace` tests the property `White_Space`.
pub assume_specification[ char::is_whitespace ](c: char) -> (r: bool)
    ensures
        r == is_whitespace_char(c),
;

/// Trusted: `char::is_alphabetic` tests the property `Alphabetic`.
pub assume_specification[ char::is_alphabetic ](c: char) -> (r: bool)
    ensures
        r == is_alphabetic_char(c),
;

/// Trusted: `char::is_alphanumeric` tests whether the character is alphabetic
/// or numeric.
pub assume_specification[ char::is_alphanumeric ](c: char) -> (r: bool)
    ensures
        r == is_alphanumeric_char(c),
;

/// Whether `c` is an ASCII punctuation character.
pub fn is_ascii_punctuation(c: char) -> (r: bool)
    ensures
        r == is_ascii_punctuation_char(c),
{
    let n = c as u32;
    (0x21 <= n && n <= 0x2F) || (0x3A <= n && n <= 0x40) || (0x5B <= n && n <= 0x60) || (0x7B <= n
        && n <= 0x7E)
}

/// Trusted: `String::push` appends one character.
pub assume_specification[ String::push ](s: &mut String, c: char)
    ensures
        final(s)@ == old(s)@.push(c),
;

/// Parts of which none is empty make up a text of at least as many characters
/// as there are parts.
pub proof fn lemma_flatten_len(parts: Seq<Seq<char>>)
    requires
        forall|i: int| 0 <= i < parts.len() ==> (#[trigger] parts[i]).len() > 0,
    ensures
        parts.flatten().len() >= parts.len(),
    decreases parts.len(),
{
    if parts.len() > 0 {
        let rest = parts.drop_first();
        assert forall|i: int| 0 <= i < rest.len() implies (#[trigger] rest[i]).len() > 0 by {
            assert(rest[i] == parts[i + 1]);
        }
        lemma_flatten_len(rest);
        assert(parts.flatten() =~= parts[0] + rest.flatten());
    }
}

/// The clusters `from..to` of `clusters`, joined into one string.
pub fn concat_clusters(clusters: &Vec<String>, from: usize, to: usize) -> (r: String)
    requires
        from <= to <= clusters.len(),
    ensures
        r@ == texts(clusters@).subrange(from as int, to as int).flatten(),
{
    let mut out = String::new();
    let mut i: usize = from;
    while i < to
        invariant
            from <= i <= to <= clusters.len(),
            out@ == texts(clusters@).subrange(from as int, i as int).flatten(),
        decreases to - i,
    {
        proof {
            let g = texts(clusters@);
            assert(g.subrange(from as int, i + 1) =~= g.subrange(from as int, i as int).push(
                g[i as int],
            ));
            g.subrange(from as int, i as int).lemma_flatten_push(g[i as int]);
        }
        out.append(clusters[i].as_str());
        i += 1;
    }
    out
}

/// The one character that `s` consists of, if it consists of exactly one.
pub fn single_char(s: &str) -> (r: Option<char>)
    ensures
        r == single_char_spec(s@),
{
    if s.unicode_len() == 1 {
        Some(s.get_char(0))
    } else {
        None
    }
}

/// The one character that `s` consists of, if it consists of exactly one.
pub open spec fn single_char_spec(s: Seq<char>) -> Option<char> {
    if s.len() == 1 {
        Some(s[0])
    } else {
        None
    }
}

/// Whether the cluster `s` is a line feed.
pub open spec fn is_newline(s: Seq<char>) -> bool {
    s == seq!['\n']
}

/// Whether the cluster `s` is a line feed.
pub fn is_newline_cluster(s: &str) -> (r: bool)
    ensures
        r == is_newline(s@),
{
    let r = match single_char(s) {
        Some(c) => c == '\n',
        None => false,
    };
    assert(r == (s@ =~= seq!['\n']));
    r
}

/// The characters of `s`, in a vector.
pub fn collect_chars(s: &str) -> (r: Vec<char>)
    ensures
        r@ == s@,
{
    let mut out: Vec<char> = Vec::new();
    for c in iter: s.chars()
        invariant
            iter.seq() == s@,
            out@ == s@.take(iter.index() as int),
    {
        assert(s@.take(iter.index() + 1) =~= s@.take(iter.index() as int).push(c));
        out.push(c);
    }
    assert(s@.take(s@.len() as int) =~= s@);
    out
}

/// The characters `from..to` of `chars`, as a string.
pub fn string_from_chars(chars: &Vec<char>, from: usize, to: usize) -> (r: String)
    requires
        from <= to <= chars.len(),
    ensures
        r@ == chars@.subrange(from as int, to as int),
{
    let mut out = String::new();
    let mut i: usize = from;
    while i < to
        invariant
            from <= i <= to <= chars.len(),
            out@ == chars@.subrange(from as int, i as int),
        decreases to - i,
    {
        out.push(chars[i]);
        assert(chars@.subrange(from as int, i + 1) =~= chars@.subrange(from as int, i as int).push(
            chars@[i as int],
        ));
        i += 1;
    }
    out
}

/// Whether `pattern` stands in `s` from character `at` on.
fn stands_at(s: &Vec<char>, pattern: &Vec<char>, at: usize) -> (r: bool)
    requires
        at + pattern.len() <= s.len(),
    ensures
        r == occurs_at(s@, pattern@, at as int),
{
    let mut k: usize = 0;
    while k < pattern.len()
        invariant
            k <= pattern.len(),
            at + pattern.len() <= s.len(),
            forall|j: int| 0 <= j < k ==> s@[at + j] == pattern@[j],
        decreases pattern.len() - k,
    {
        if s[at + k] != pattern[k] {
            assert(s@.subrange(at as int, at + pattern@.len())[k as int] != pattern@[k as int]);
            return false;
        }
        k += 1;
    }
    assert(s@.subrange(at as int, at + pattern@.len()) =~= pattern@);
    true
}

/// The first character position at which `pattern` stands in `s`.
pub fn first_occurrence(s: &Vec<char>, pattern: &Vec<char>) -> (r: Option<usize>)
    ensures
        r is None ==> !occurs_in(s@, pattern@),
        r is Some ==> is_first_occurrence(s@, pattern@, r->0 as int),
{
    if pattern.len() > s.len() {
        return None;
    }
    let last = s.len() - pattern.len();
    let mut at: usize = 0;
    while at < last
        invariant
            at <= last,
            last == s.len() - pattern.len(),
            pattern.len() <= s.len(),
            forall|j: int| 0 <= j < at ==> !occurs_at(s@, pattern@, j),
        decreases last - at,
    {
        if stands_at(s, pattern, at) {
            return Some(at);
        }
        at += 1;
    }
    if stands_at(s, pattern, last) {
        Some(last)
    } else {
        None
    }
}

/// The byte offset of the first place where `pattern` stands in `s`: the
/// length of the UTF-8 encoding of what stands before that place.
pub fn find(s: &str, pattern: &str) -> (r: Option<usize>)
    ensures
        r is None ==> !occurs_in(s@, pattern@),
        r is Some ==> is_first_byte_offset(s@, pattern@, r->0 as nat),
{
    let chars = collect_chars(s);
    let sought = collect_chars(pattern);
    match first_occurrence(&chars, &sought) {
        None => None,
        Some(at) => {
            let before = string_from_chars(&chars, 0, at);
            assert(before@ =~= s@.take(at as int));
            Some(before.as_str().as_bytes().len())
        },
    }
}

/// `s` without the whitespace at its end.
pub fn trim_end(s: &str) -> (r: String)
    ensures
        r@ == trimmed_end(s@),
{
    let chars = collect_chars(s);
    let mut end: usize = chars.len();
    assert(chars@.take(end as int) =~= chars@);
    while end > 0 && chars[end - 1].is_whitespace()
        invariant
            end <= chars.len(),
            trimmed_end(chars@.take(end as int)) == trimmed_end(chars@),
        decreases end,
    {
        assert(chars@.take(end as int).drop_last() =~= chars@.take(end - 1));
        end -= 1;
    }
    assert(trimmed_end(chars@.take(end as int)) == chars@.take(end as int)) by {
        if end > 0 {
            assert(chars@.take(end as int).last() == chars@[end - 1]);
        }
    }
    let r = string_from_chars(&chars, 0, end);
    assert(r@ =~= chars@.take(end as int));
    r
}

/// `s` without the whitespace at its start and at its end.
pub fn trim(s: &str) -> (r: String)
    ensures
        r@ == trimmed(s@),
{
    let kept = trim_end(s);
    let chars = collect_chars(kept.as_str());
    let mut start: usize = 0;
    assert(chars@.skip(0) =~= chars@);
    while start < chars.len() && chars[start].is_whitespace()
        invariant
            start <= chars.len(),
            trimmed_start(chars@.skip(start as int)) == trimmed_start(chars@),
        decreases chars.len() - start,
    {
        assert(chars@.skip(start as int).drop_first() =~= chars@.skip(start + 1));
        assert(chars@.skip(start as int)[0] == chars@[start as int]);
        start += 1;
    }
    assert(trimmed_start(chars@.skip(start as int)) == chars@.skip(start as int)) by {
        if start < chars.len() {
            assert(chars@.skip(start as int)[0] == chars@[start as int]);
        }
    }
    let r = string_from_chars(&chars, start, chars.len());
    assert(r@ =~= chars@.skip(start as int));
    r
}

} // verus!
