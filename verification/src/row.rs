//! A single line of text, addressed by grapheme cluster.

use crate::text::{
    collect_chars, concat_clusters, count_unicode_words, find, first_occurrence,
    grapheme_clusters, lemma_flatten_len, is_first_byte_offset, is_whitespace_char, occurs_in, split_graphemes,
    texts, trim_end, trimmed_end, unicode_word_count,
};
use crate::utils::{decimal_digits, decimal_string, zfill, zfill_spec};
use std::str::Chars;
use vstd::prelude::*;
use vstd::std_specs::convert::FromSpecImpl;
use vstd::string::StringExecFns;
use vstd::string::StrSliceExecFns;

verus! {

/// The number of grapheme clusters of `s`.
pub open spec fn cluster_count(s: Seq<char>) -> nat {
    grapheme_clusters(s).len()
}

/// The cluster of `s` at `index`, or the empty text where `s` has no such
/// cluster.
pub open spec fn cluster_at(s: Seq<char>, index: int) -> Seq<char> {
    if 0 <= index < cluster_count(s) {
        grapheme_clusters(s)[index]
    } else {
        Seq::empty()
    }
}

/// The character of `s` at `index`, or the null character where `s` has no
/// such character.
pub open spec fn char_at(s: Seq<char>, index: int) -> char {
    if 0 <= index < s.len() {
        s[index]
    } else {
        '\0'
    }
}

/// The text of the first `at` clusters of `s`; all of them where `s` has fewer.
pub open spec fn head(s: Seq<char>, at: int) -> Seq<char> {
    let g = grapheme_clusters(s);
    if at >= g.len() {
        g.flatten()
    } else {
        g.subrange(0, at).flatten()
    }
}

/// The text of the clusters of `s` from `at` on; empty where `s` has no more
/// than `at`.
pub open spec fn tail(s: Seq<char>, at: int) -> Seq<char> {
    let g = grapheme_clusters(s);
    if at >= g.len() {
        Seq::empty()
    } else {
        g.subrange(at, g.len() as int).flatten()
    }
}

/// `s` with `c` put in before its cluster `index`, or at its end where it has
/// no such cluster.
pub open spec fn inserted(s: Seq<char>, index: int, c: char) -> Seq<char> {
    if index >= cluster_count(s) {
        s.push(c)
    } else {
        head(s, index).push(c) + tail(s, index)
    }
}

/// `s` with `text` put in before its cluster `index`, or at its end where it
/// has no such cluster.
pub open spec fn inserted_text(s: Seq<char>, index: int, text: Seq<char>) -> Seq<char> {
    if index >= cluster_count(s) {
        s + text
    } else {
        head(s, index) + text + tail(s, index)
    }
}

/// `s` without its cluster `index`; `s` itself where it has no such cluster.
pub open spec fn deleted(s: Seq<char>, index: int) -> Seq<char> {
    if index >= cluster_count(s) {
        s
    } else {
        head(s, index) + tail(s, index + 1)
    }
}

/// The clusters `start..end` of `s`, cut to the clusters that `s` has.
pub open spec fn visible(s: Seq<char>, start: int, end: int) -> Seq<char> {
    let g = grapheme_clusters(s);
    let e = if end <= g.len() {
        end
    } else {
        g.len() as int
    };
    let b = if start <= e {
        start
    } else {
        e
    };
    g.subrange(b, e).flatten()
}

/// What stands before a rendered row: nothing where `prefix_width` is zero,
/// else the line number, padded with spaces on the left to `prefix_width`
/// characters, and one space.
pub open spec fn line_prefix(line_number: nat, prefix_width: nat) -> Seq<char> {
    if prefix_width == 0 {
        Seq::empty()
    } else {
        zfill_spec(decimal_digits(line_number), seq![' '], prefix_width).push(' ')
    }
}

/// Whether every character of `s` is whitespace.
pub open spec fn all_whitespace(s: Seq<char>) -> bool {
    forall|i: int| 0 <= i < s.len() ==> is_whitespace_char(#[trigger] s[i])
}

/// One line of a document.
#[derive(Debug, Hash)]
pub struct Row {
    pub string: String,
}

impl View for Row {
    type V = Seq<char>;

    open spec fn view(&self) -> Seq<char> {
        self.string@
    }
}

impl Default for Row {
    fn default() -> (r: Self)
        ensures
            r@ == Seq::<char>::empty(),
    {
        Self { string: String::new() }
    }
}

impl From<&str> for Row {
    fn from(s: &str) -> (r: Self)
        ensures
            r@ == s@,
    {
        Self { string: String::from_str(s) }
    }
}

impl FromSpecImpl<&str> for Row {
    open spec fn obeys_from_spec() -> bool {
        false
    }

    open spec fn from_spec(s: &str) -> Self {
        arbitrary()
    }
}

impl Row {
    /// The row as it shows on screen: the clusters `start..end`, after the
    /// line number where `x_offset` leaves room for one.
    #[must_use]
    pub fn render(&self, start: usize, end: usize, line_number: usize, x_offset: usize) -> (r:
        String)
        ensures
            r@ == line_prefix(line_number as nat, x_offset as nat) + visible(
                self@,
                start as int,
                end as int,
            ),
    {
        let clusters = split_graphemes(self.string.as_str());
        let end = if end <= clusters.len() {
            end
        } else {
            clusters.len()
        };
        let start = if start <= end {
            start
        } else {
            end
        };
        let shown = concat_clusters(&clusters, start, end);
        let mut out = String::new();
        if x_offset != 0 {
            let number = decimal_string(line_number);
            out = zfill(number.as_str(), " ", x_offset);
            proof {
                reveal_strlit(" ");
                assert(" "@ =~= seq![' ']);
            }
            out.push(' ');
        }
        out.append(shown.as_str());
        out
    }

    /// An iterator over the characters of the row, from the first on.
    pub fn chars(&self) -> (r: Chars<'_>)
        ensures
            vstd::std_specs::iter::IteratorSpec::remaining(&r) == self@,
    {
        self.string.as_str().chars()
    }

    /// The grapheme clusters of the row, in order.
    #[must_use]
    pub fn graphemes(&self) -> (r: Vec<String>)
        ensures
            texts(r@) == grapheme_clusters(self@),
            texts(r@).flatten() == self@,
            forall|i: int| 0 <= i < r@.len() ==> (#[trigger] texts(r@)[i]).len() > 0,
    {
        split_graphemes(self.string.as_str())
    }

    /// Whether the row holds nothing but whitespace; an empty row does.
    #[must_use]
    pub fn is_whitespace(&self) -> (r: bool)
        ensures
            r == all_whitespace(self@),
    {
        let s = self.string.as_str();
        for c in iter: s.chars()
            invariant
                iter.seq() == s@,
                s@ == self@,
                forall|i: int| 0 <= i < iter.index() ==> is_whitespace_char(#[trigger] s@[i]),
        {
            if !c.is_whitespace() {
                return false;
            }
        }
        true
    }

    /// The number of grapheme clusters.
    #[must_use]
    pub fn len(&self) -> (r: usize)
        ensures
            r == cluster_count(self@),
            r <= self@.len(),
    {
        let clusters = split_graphemes(self.string.as_str());
        proof {
            lemma_flatten_len(texts(clusters@));
        }
        clusters.len()
    }

    /// Whether the row has no cluster.
    #[must_use]
    pub fn is_empty(&self) -> (r: bool)
        ensures
            r == (cluster_count(self@) == 0),
            r == (self@.len() == 0),
    {
        let clusters = split_graphemes(self.string.as_str());
        proof {
            lemma_flatten_len(texts(clusters@));
            if clusters@.len() == 0 {
                assert(texts(clusters@) =~= Seq::<Seq<char>>::empty());
            }
        }
        clusters.len() == 0
    }

    /// The cluster at `index`, or the empty string where there is none.
    #[must_use]
    pub fn nth_grapheme(&self, index: usize) -> (r: String)
        ensures
            r@ == cluster_at(self@, index as int),
    {
        let clusters = split_graphemes(self.string.as_str());
        if index < clusters.len() {
            clusters[index].clone()
        } else {
            String::new()
        }
    }

    /// The character at `index`, or the null character where there is none.
    #[must_use]
    pub fn nth_char(&self, index: usize) -> (r: char)
        ensures
            r == char_at(self@, index as int),
    {
        let s = self.string.as_str();
        if index < s.unicode_len() {
            s.get_char(index)
        } else {
            '\0'
        }
    }

    /// The number of words of the row.
    #[must_use]
    pub fn num_words(&self) -> (r: usize)
        ensures
            r == unicode_word_count(self@),
    {
        count_unicode_words(self.string.as_str())
    }

    /// Whether `pattern` stands somewhere in the row.
    #[must_use]
    pub fn contains(&self, pattern: &str) -> (r: bool)
        ensures
            r == occurs_in(self@, pattern@),
    {
        let chars = collect_chars(self.string.as_str());
        let sought = collect_chars(pattern);
        first_occurrence(&chars, &sought).is_some()
    }

    /// The byte offset of the first place where `pattern` stands in the row.
    #[must_use]
    pub fn find(&self, pattern: &str) -> (r: Option<usize>)
        ensures
            r is None ==> !occurs_in(self@, pattern@),
            r is Some ==> is_first_byte_offset(self@, pattern@, r->0 as nat),
    {
        find(self.string.as_str(), pattern)
    }

    /// The UTF-8 encoding of the row.
    #[must_use]
    pub fn as_bytes(&self) -> (r: &[u8])
        ensures
            r@ == vstd::utf8::encode_utf8(self@),
    {
        self.string.as_str().as_bytes()
    }

    /// Removes the whitespace at the end of the row.
    pub fn trim_end_inplace(&mut self)
        ensures
            final(self)@ == trimmed_end(old(self)@),
    {
        self.string = trim_end(self.string.as_str());
    }

    /// Puts `c` in before the cluster at `index`, or at the end of the row
    /// where there is no such cluster.
    pub fn insert(&mut self, index: usize, c: char)
        ensures
            final(self)@ == inserted(old(self)@, index as int, c),
    {
        let clusters = split_graphemes(self.string.as_str());
        if index >= clusters.len() {
            self.string.push(c);
        } else {
            let mut before = concat_clusters(&clusters, 0, index);
            let after = concat_clusters(&clusters, index, clusters.len());
            before.push(c);
            before.append(after.as_str());
            self.string = before;
        }
    }

    /// Puts `text` in before the cluster at `index`, or at the end of the row
    /// where there is no such cluster.
    pub fn insert_str(&mut self, index: usize, text: &str)
        ensures
            final(self)@ == inserted_text(old(self)@, index as int, text@),
    {
        let clusters = split_graphemes(self.string.as_str());
        if index >= clusters.len() {
            self.string.append(text);
        } else {
            let mut before = concat_clusters(&clusters, 0, index);
            let after = concat_clusters(&clusters, index, clusters.len());
            before.append(text);
            before.append(after.as_str());
            self.string = before;
        }
    }

    /// Removes the cluster at `index`; does nothing where there is none.
    pub fn delete(&mut self, index: usize)
        ensures
            final(self)@ == deleted(old(self)@, index as int),
    {
        let clusters = split_graphemes(self.string.as_str());
        if index >= clusters.len() {
            return ;
        }
        let mut before = concat_clusters(&clusters, 0, index);
        let after = concat_clusters(&clusters, index + 1, clusters.len());
        before.append(after.as_str());
        self.string = before;
    }

    /// Puts the text of `other` at the end of the row.
    pub fn append(&mut self, other: &Self)
        ensures
            final(self)@ == old(self)@ + other@,
    {
        self.string.append(other.string.as_str());
    }

    /// Cuts the row before the cluster at `at`: the row keeps what stands
    /// before it, and what stands from it on is returned as a new row.
    #[must_use]
    pub fn split(&mut self, at: usize) -> (r: Self)
        ensures
            final(self)@ == head(old(self)@, at as int),
            r@ == tail(old(self)@, at as int),
    {
        let clusters = split_graphemes(self.string.as_str());
        let at = if at <= clusters.len() {
            at
        } else {
            clusters.len()
        };
        let before = concat_clusters(&clusters, 0, at);
        let after = concat_clusters(&clusters, at, clusters.len());
        proof {
            let g = texts(clusters@);
            assert(g.subrange(0, g.len() as int) =~= g);
            assert(g.subrange(g.len() as int, g.len() as int).flatten() =~= Seq::<char>::empty());
        }
        self.string = before;
        Self { string: after }
    }
}

/// Inserting a character into a row and deleting at the same place gives the
/// row back. This holds where the place is not behind the end of the row and
/// the character comes to stand as the cluster at that place, behind the text
/// that stood before it; a combining mark, which joins the cluster before it,
/// does not. The clusters of a text make up the text, as those of every
/// string do.
pub proof fn lemma_insert_then_delete(s: Seq<char>, index: int, c: char)
    requires
        grapheme_clusters(s).flatten() == s,
        grapheme_clusters(inserted(s, index, c)).flatten() == inserted(s, index, c),
        0 <= index <= cluster_count(s),
        index < cluster_count(inserted(s, index, c)),
        grapheme_clusters(inserted(s, index, c)).subrange(0, index).flatten() == head(s, index),
        grapheme_clusters(inserted(s, index, c))[index] == seq![c],
    ensures
        deleted(inserted(s, index, c), index) == s,
{
    let g = grapheme_clusters(s);
    let n = g.len() as int;
    let before = head(s, index);
    let after = tail(s, index);
    assert(before + after == s) by {
        if index >= n {
            assert(after =~= Seq::<char>::empty());
            assert(before + after =~= before);
        } else {
            assert(g.subrange(0, index) + g.subrange(index, n) =~= g);
            vstd::seq_lib::lemma_flatten_concat(g.subrange(0, index), g.subrange(index, n));
        }
    }
    let s2 = inserted(s, index, c);
    assert(s2 =~= before.push(c) + after) by {
        if index >= n {
            assert(after =~= Seq::<char>::empty());
            assert(before == s);
        }
    }
    let g2 = grapheme_clusters(s2);
    let m = g2.len() as int;
    let rest = g2.subrange(index + 1, m);
    assert(g2 =~= g2.subrange(0, index).push(g2[index]) + rest);
    g2.subrange(0, index).lemma_flatten_push(g2[index]);
    vstd::seq_lib::lemma_flatten_concat(g2.subrange(0, index).push(g2[index]), rest);
    assert(s2 =~= before.push(c) + rest.flatten());
    assert(rest.flatten() =~= after) by {
        assert(rest.flatten() =~= s2.skip(before.len() as int + 1));
        assert(after =~= s2.skip(before.len() as int + 1));
    }
    assert(tail(s2, index + 1) =~= rest.flatten()) by {
        if index + 1 >= m {
            assert(rest =~= Seq::<Seq<char>>::empty());
        }
    }
    assert(head(s2, index) == before);
}

} // verus!
