//! Texts as lines and words.
use vstd::prelude::*;

use crate::text::{chars_of, text_of};

verus! {

/// The character is white space: it has the Unicode property `White_Space`.
pub open spec fn white(c: char) -> bool {
    ||| 9 <= c as u32 <= 13
    ||| c as u32 == 32
    ||| c as u32 == 0x85
    ||| c as u32 == 0xA0
    ||| c as u32 == 0x1680
    ||| 0x2000 <= c as u32 <= 0x200A
    ||| c as u32 == 0x2028
    ||| c as u32 == 0x2029
    ||| c as u32 == 0x202F
    ||| c as u32 == 0x205F
    ||| c as u32 == 0x3000
}

/// `char::is_whitespace`: tells whether a character has the Unicode property `White_Space`, which
/// the characters of [`white`] have and no others.
pub assume_specification[ char::is_whitespace ](c: char) -> (r: bool)
    ensures
        r == white(c),
;

/// What `String::from_utf8_lossy` makes of some bytes.
pub uninterp spec fn lossy(bytes: Seq<u8>) -> Seq<char>;

/// `String::from_utf8_lossy`: reads bytes as text, with replacement characters where they are not
/// valid UTF-8; valid UTF-8 reads as what it encodes.
#[verifier::external_body]
pub(crate) fn lossy_text(bytes: &[u8]) -> (r: String)
    ensures
        r@ == lossy(bytes@),
        vstd::utf8::valid_utf8(bytes@) ==> r@ == vstd::utf8::decode_utf8(bytes@),
{
    String::from_utf8_lossy(bytes).into_owned()
}

/// What the given texts are.
pub open spec fn views(texts: Seq<String>) -> Seq<Seq<char>> {
    Seq::new(texts.len(), |i: int| texts[i]@)
}

/// A longer list of texts has a longer list of views.
pub proof fn lemma_views_push(texts: Seq<String>, more: String)
    ensures
        views(texts.push(more)) == views(texts).push(more@),
{
    assert(views(texts.push(more)) =~= views(texts).push(more@));
}

/// The text from the first character that is not white space.
pub open spec fn trimmed_start(s: Seq<char>) -> Seq<char>
    decreases s.len(),
{
    if s.len() > 0 && white(s[0]) {
        trimmed_start(s.skip(1))
    } else {
        s
    }
}

/// The text up to the last character that is not white space.
pub open spec fn trimmed_end(s: Seq<char>) -> Seq<char>
    decreases s.len(),
{
    if s.len() > 0 && white(s.last()) {
        trimmed_end(s.drop_last())
    } else {
        s
    }
}

/// The text without white space at its ends.
pub open spec fn trimmed(s: Seq<char>) -> Seq<char> {
    trimmed_end(trimmed_start(s))
}

/// The text without white space at its end.
pub fn trim_end(s: &str) -> (r: String)
    ensures
        r@ == trimmed_end(s@),
{
    let v = chars_of(s);
    let mut end: usize = v.len();
    assert(v@.take(v@.len() as int) =~= v@);
    while end > 0 && v[end - 1].is_whitespace()
        invariant
            end <= v@.len(),
            v@ == s@,
            trimmed_end(s@) == trimmed_end(v@.take(end as int)),
        decreases end,
    {
        assert(v@.take(end as int).drop_last() =~= v@.take(end - 1));
        end = end - 1;
    }
    let ghost t = v@.take(end as int);
    assert(t.len() > 0 ==> t.last() == v@[end - 1]);
    let r = text_of(vstd::slice::slice_subrange(v.as_slice(), 0, end));
    assert(r@ =~= t);
    r
}

/// The text without white space at its ends.
pub fn trim(s: &str) -> (r: String)
    ensures
        r@ == trimmed(s@),
{
    let v = chars_of(s);
    let mut start: usize = 0;
    assert(v@.skip(0) =~= v@);
    while start < v.len() && v[start].is_whitespace()
        invariant
            start <= v@.len(),
            v@ == s@,
            trimmed_start(s@) == trimmed_start(v@.skip(start as int)),
        decreases v@.len() - start,
    {
        assert(v@.skip(start as int)[0] == v@[start as int]);
        assert(v@.skip(start as int).skip(1) =~= v@.skip(start + 1));
        start = start + 1;
    }
    let ghost t = v@.skip(start as int);
    assert(t.len() > 0 ==> t[0] == v@[start as int]);
    let rest = text_of(vstd::slice::slice_subrange(v.as_slice(), start, v.len()));
    assert(rest@ =~= t);
    trim_end(rest.as_str())
}

/// The needle stands at a place in the text.
pub open spec fn stands_at(s: Seq<char>, needle: Seq<char>, i: int) -> bool {
    0 <= i && i + needle.len() <= s.len() && s.subrange(i, i + needle.len()) == needle
}

/// The needle occurs in the text.
pub open spec fn occurs(s: Seq<char>, needle: Seq<char>) -> bool {
    exists|i: int| stands_at(s, needle, i)
}

/// Tells whether the needle stands at a place.
fn matches_at(s: &Vec<char>, needle: &Vec<char>, at: usize) -> (r: bool)
    requires
        at + needle@.len() <= s@.len(),
    ensures
        r == stands_at(s@, needle@, at as int),
{
    let total: usize = s.len();
    let mut k: usize = 0;
    while k < needle.len()
        invariant
            k <= needle@.len(),
            total == s@.len(),
            at + needle@.len() <= total,
            forall|q: int| 0 <= q < k ==> s@[at + q] == needle@[q],
        decreases needle@.len() - k,
    {
        if s[at + k] != needle[k] {
            assert(s@.subrange(at as int, at + needle@.len())[k as int] != needle@[k as int]);
            return false;
        }
        k = k + 1;
    }
    assert(s@.subrange(at as int, at + needle@.len()) =~= needle@);
    true
}

/// Tells whether a text occurs in another.
pub fn contains_text(s: &str, needle: &str) -> (r: bool)
    ensures
        r == occurs(s@, needle@),
{
    let v = chars_of(s);
    let n = chars_of(needle);
    if n.len() > v.len() {
        return false;
    }
    let mut i: usize = 0;
    while i <= v.len() - n.len()
        invariant
            v@ == s@,
            n@ == needle@,
            n@.len() <= v@.len(),
            i <= v@.len() - n@.len() + 1,
            v@.len() <= usize::MAX,
            forall|q: int| 0 <= q < i ==> !stands_at(s@, needle@, q),
        decreases v@.len() + 1 - i,
    {
        if matches_at(&v, &n, i) {
            return true;
        }
        if i == v.len() - n.len() {
            return false;
        }
        i = i + 1;
    }
    false
}

/// Tells whether a text starts with another.
pub fn starts_with(s: &str, prefix: &str) -> (r: bool)
    ensures
        r == prefix@.is_prefix_of(s@),
{
    let v = chars_of(s);
    let p = chars_of(prefix);
    if p.len() > v.len() {
        return false;
    }
    let r = matches_at(&v, &p, 0);
    assert(s@.subrange(0, prefix@.len() as int) =~= s@.take(prefix@.len() as int));
    r
}

/// The place of the first such character, or the length of the text.
pub open spec fn first_of(s: Seq<char>, c: char) -> int
    decreases s.len(),
{
    if s.len() == 0 || s[0] == c {
        0
    } else {
        1 + first_of(s.skip(1), c)
    }
}

/// The first such character is the one that no earlier one equals.
pub proof fn lemma_first_of(s: Seq<char>, c: char, n: int)
    requires
        0 <= n <= s.len(),
        forall|q: int| 0 <= q < n ==> s[q] != c,
        n < s.len() ==> s[n] == c,
    ensures
        first_of(s, c) == n,
    decreases s.len(),
{
    if n > 0 {
        let t = s.skip(1);
        assert forall|q: int| 0 <= q < n - 1 implies t[q] != c by {
            assert(t[q] == s[q + 1]);
        }
        lemma_first_of(t, c, n - 1);
    }
}

/// The place of the first such character from a place on, or the length.
pub(crate) fn find_char(v: &Vec<char>, from: usize, c: char) -> (r: usize)
    requires
        from <= v@.len(),
    ensures
        from <= r <= v@.len(),
        r - from == first_of(v@.skip(from as int), c),
        r < v@.len() ==> v@[r as int] == c,
{
    let mut i: usize = from;
    while i < v.len() && v[i] != c
        invariant
            from <= i <= v@.len(),
            forall|q: int| from <= q < i ==> v@[q] != c,
        decreases v@.len() - i,
    {
        i = i + 1;
    }
    proof {
        let t = v@.skip(from as int);
        assert forall|q: int| 0 <= q < i - from implies t[q] != c by {
            assert(t[q] == v@[from + q]);
        }
        lemma_first_of(t, c, i - from);
    }
    i
}

/// A line without the carriage return of its line ending.
pub open spec fn without_return(line: Seq<char>) -> Seq<char> {
    if line.len() > 0 && line.last() == '\r' {
        line.drop_last()
    } else {
        line
    }
}

/// The lines of a text. A line ends at a line feed, or at a carriage return with a line feed; the
/// last line needs no ending.
pub open spec fn lines_of(s: Seq<char>) -> Seq<Seq<char>>
    decreases s.len(),
{
    let end = first_of(s, '\n');
    if s.len() == 0 {
        Seq::empty()
    } else if end < 0 || end >= s.len() {
        seq![s]
    } else {
        seq![without_return(s.take(end))] + lines_of(s.skip(end + 1))
    }
}

/// The lines of a text.
pub fn lines(s: &str) -> (r: Vec<String>)
    ensures
        views(r@) == lines_of(s@),
{
    let v = chars_of(s);
    let mut out: Vec<String> = Vec::new();
    let mut i: usize = 0;
    assert(v@.skip(0) =~= v@);
    assert(views(out@) + lines_of(s@) =~= lines_of(s@));
    while i < v.len()
        invariant
            i <= v@.len(),
            v@ == s@,
            views(out@) + lines_of(v@.skip(i as int)) == lines_of(s@),
        decreases v@.len() - i,
    {
        let end = find_char(&v, i, '\n');
        let ghost rest = v@.skip(i as int);
        if end >= v.len() {
            let line = text_of(vstd::slice::slice_subrange(v.as_slice(), i, v.len()));
            proof {
                assert(line@ =~= rest);
                lemma_views_push(out@, line);
                assert(views(out@).push(line@) =~= views(out@) + seq![rest]);
            }
            out.push(line);
            return out;
        }
        let stop: usize = if end > i && v[end - 1] == '\r' {
            end - 1
        } else {
            end
        };
        let line = text_of(vstd::slice::slice_subrange(v.as_slice(), i, stop));
        proof {
            let head = rest.take(end - i);
            assert(head.len() > 0 ==> head.last() == v@[end - 1]);
            assert(line@ =~= without_return(head));
            lemma_views_push(out@, line);
            assert(rest.skip(end - i + 1) =~= v@.skip(end + 1));
            assert(views(out@) + (seq![line@] + lines_of(v@.skip(end + 1))) =~= views(out@).push(
                line@,
            ) + lines_of(v@.skip(end + 1)));
        }
        out.push(line);
        i = end + 1;
    }
    assert(v@.skip(i as int).len() == 0);
    assert(views(out@) =~= views(out@) + lines_of(v@.skip(i as int)));
    out
}

/// The last of some texts, at most a number of them.
pub open spec fn last_of(texts: Seq<Seq<char>>, most: nat) -> Seq<Seq<char>> {
    if texts.len() > most {
        texts.skip(texts.len() - most)
    } else {
        texts
    }
}

/// The length of the run of characters from the start that are not white space.
pub open spec fn word_len(s: Seq<char>) -> int
    decreases s.len(),
{
    if s.len() == 0 || white(s[0]) {
        0
    } else {
        1 + word_len(s.skip(1))
    }
}

/// A word is no longer than the text.
pub proof fn lemma_word_len(s: Seq<char>)
    ensures
        0 <= word_len(s) <= s.len(),
    decreases s.len(),
{
    if s.len() > 0 && !white(s[0]) {
        lemma_word_len(s.skip(1));
    }
}

/// Where the first white space stands.
proof fn lemma_word_ends(s: Seq<char>, n: int)
    requires
        0 <= n <= s.len(),
        forall|q: int| 0 <= q < n ==> !white(#[trigger] s[q]),
        n < s.len() ==> white(s[n]),
    ensures
        word_len(s) == n,
    decreases s.len(),
{
    if n > 0 {
        assert(!white(s[0]));
        let t = s.skip(1);
        assert forall|q: int| 0 <= q < n - 1 implies !white(#[trigger] t[q]) by {
            assert(t[q] == s[q + 1]);
        }
        lemma_word_ends(t, n - 1);
    }
}

/// The place of the first white space, or the length.
pub(crate) fn first_white(v: &Vec<char>) -> (r: usize)
    ensures
        r == word_len(v@),
        r <= v@.len(),
{
    let mut i: usize = 0;
    while i < v.len() && !v[i].is_whitespace()
        invariant
            i <= v@.len(),
            forall|q: int| 0 <= q < i ==> !white(#[trigger] v@[q]),
        decreases v@.len() - i,
    {
        i = i + 1;
    }
    proof {
        lemma_word_ends(v@, i as int);
    }
    i
}

/// The words of a text: its runs of characters that are not white space.
pub open spec fn words_of(s: Seq<char>) -> Seq<Seq<char>>
    decreases s.len(),
{
    if s.len() == 0 {
        Seq::empty()
    } else if white(s[0]) {
        words_of(s.skip(1))
    } else {
        let n = word_len(s);
        if n <= 0 || n > s.len() {
            Seq::empty()
        } else {
            seq![s.take(n)] + words_of(s.skip(n))
        }
    }
}

/// The words joined by single spaces.
pub open spec fn spaced(words: Seq<Seq<char>>) -> Seq<char>
    decreases words.len(),
{
    if words.len() == 0 {
        Seq::empty()
    } else if words.len() == 1 {
        words[0]
    } else {
        spaced(words.drop_last()).push(' ') + words.last()
    }
}

/// The text is a word: it is not empty and has no white space.
pub open spec fn is_word(s: Seq<char>) -> bool {
    s.len() > 0 && forall|i: int| 0 <= i < s.len() ==> !white(#[trigger] s[i])
}

/// A word ends before white space.
proof fn lemma_word_stops(s: Seq<char>)
    ensures
        0 <= word_len(s) <= s.len(),
        forall|q: int| 0 <= q < word_len(s) ==> !white(#[trigger] s[q]),
        word_len(s) < s.len() ==> white(s[word_len(s)]),
    decreases s.len(),
{
    if s.len() > 0 && !white(s[0]) {
        let t = s.skip(1);
        lemma_word_stops(t);
        assert forall|q: int| 0 <= q < word_len(s) implies !white(#[trigger] s[q]) by {
            if q > 0 {
                assert(s[q] == t[q - 1]);
            }
        }
        if word_len(s) < s.len() {
            assert(s[word_len(s)] == t[word_len(t)]);
        }
    }
}

/// The words of a text are words, made of characters of the text.
pub proof fn lemma_words_are_words(s: Seq<char>)
    ensures
        forall|i: int| 0 <= i < words_of(s).len() ==> is_word(#[trigger] words_of(s)[i]),
        forall|i: int, k: int|
            0 <= i < words_of(s).len() && 0 <= k < words_of(s)[i].len() ==> s.contains(
                #[trigger] words_of(s)[i][k],
            ),
    decreases s.len(),
{
    if s.len() > 0 {
        lemma_word_stops(s);
        let n = if white(s[0]) {
            1
        } else {
            word_len(s)
        };
        assert(n > 0);
        let rest = s.skip(n);
        lemma_words_are_words(rest);
        let words = words_of(s);
        assert forall|i: int| 0 <= i < words.len() implies is_word(#[trigger] words[i]) by {
            if !white(s[0]) {
                if i == 0 {
                    assert(words[0] == s.take(n));
                    assert forall|k: int| 0 <= k < n implies !white(#[trigger] words[0][k]) by {
                        assert(words[0][k] == s[k]);
                    }
                } else {
                    assert(words[i] == words_of(rest)[i - 1]);
                }
            } else {
                assert(words[i] == words_of(rest)[i]);
            }
        }
        assert forall|i: int, k: int|
            0 <= i < words.len() && 0 <= k < words[i].len() implies s.contains(
            #[trigger] words[i][k],
        ) by {
            if !white(s[0]) && i == 0 {
                assert(words[0][k] == s[k]);
            } else {
                let j = if white(s[0]) {
                    i
                } else {
                    i - 1
                };
                assert(words[i] == words_of(rest)[j]);
                let c = words_of(rest)[j][k];
                assert(rest.contains(c));
                let at = choose|at: int| 0 <= at < rest.len() && rest[at] == c;
                assert(s[at + n] == c);
            }
        }
    }
}

/// White space parts the words before it from those after it.
proof fn lemma_words_part(a: Seq<char>, c: char, b: Seq<char>)
    requires
        white(c),
    ensures
        words_of(a.push(c) + b) == words_of(a) + words_of(b),
    decreases a.len(),
{
    let s = a.push(c) + b;
    if a.len() == 0 {
        assert(s[0] == c);
        assert(s.skip(1) =~= b);
        assert(words_of(a) + words_of(b) =~= words_of(b));
    } else if white(a[0]) {
        assert(s[0] == a[0]);
        assert(s.skip(1) =~= a.skip(1).push(c) + b);
        lemma_words_part(a.skip(1), c, b);
    } else {
        let n = word_len(a);
        lemma_word_stops(a);
        assert(s[0] == a[0]);
        assert forall|q: int| 0 <= q < n implies !white(#[trigger] s[q]) by {
            assert(s[q] == a[q]);
        }
        if n < a.len() {
            assert(s[n] == a[n]);
        } else {
            assert(s[n] == c);
        }
        lemma_word_ends(s, n);
        assert(s.take(n) =~= a.take(n));
        assert(s.skip(n) =~= a.skip(n).push(c) + b);
        lemma_words_part(a.skip(n), c, b);
        assert(seq![a.take(n)] + (words_of(a.skip(n)) + words_of(b)) =~= (seq![a.take(n)]
            + words_of(a.skip(n))) + words_of(b));
    }
}

/// A word has one word: itself.
proof fn lemma_word_is_its_word(s: Seq<char>)
    requires
        is_word(s),
    ensures
        words_of(s) == seq![s],
{
    assert(!white(s[0]));
    lemma_word_ends(s, s.len() as int);
    assert(s.take(s.len() as int) =~= s);
    assert(s.skip(s.len() as int).len() == 0);
    assert(seq![s] + words_of(s.skip(s.len() as int)) =~= seq![s]);
}

/// The words of words that were joined by spaces are those words.
pub proof fn lemma_words_of_spaced(words: Seq<Seq<char>>)
    requires
        forall|i: int| 0 <= i < words.len() ==> is_word(#[trigger] words[i]),
    ensures
        words_of(spaced(words)) == words,
    decreases words.len(),
{
    if words.len() == 0 {
        assert(words =~= Seq::<Seq<char>>::empty());
    } else if words.len() == 1 {
        lemma_word_is_its_word(words[0]);
        assert(seq![words[0]] =~= words);
    } else {
        let head = words.drop_last();
        assert forall|i: int| 0 <= i < head.len() implies is_word(#[trigger] head[i]) by {
            assert(head[i] == words[i]);
        }
        lemma_words_of_spaced(head);
        assert(is_word(words.last()));
        lemma_word_is_its_word(words.last());
        lemma_words_part(spaced(head), ' ', words.last());
        assert(head + seq![words.last()] =~= words);
    }
}

/// Law: joining the words of a text by single spaces keeps its words, so that doing it again
/// changes nothing.
pub proof fn law_single_spaces_keep_the_words(s: Seq<char>)
    ensures
        words_of(spaced(words_of(s))) == words_of(s),
        spaced(words_of(spaced(words_of(s)))) == spaced(words_of(s)),
{
    lemma_words_are_words(s);
    lemma_words_of_spaced(words_of(s));
}

/// The words of a text, joined by single spaces.
pub fn single_spaced(s: &str) -> (r: String)
    ensures
        r@ == spaced(words_of(s@)),
{
    let v = chars_of(s);
    let mut out: Vec<char> = Vec::new();
    let ghost mut done: Seq<Seq<char>> = Seq::empty();
    let mut i: usize = 0;
    assert(v@.skip(0) =~= v@);
    assert(done + words_of(s@) =~= words_of(s@));
    while i < v.len()
        invariant
            i <= v@.len(),
            v@ == s@,
            done + words_of(v@.skip(i as int)) == words_of(s@),
            out@ == spaced(done),
            out@.len() == 0 <==> done.len() == 0,
        decreases v@.len() - i,
    {
        let ghost rest = v@.skip(i as int);
        assert(rest[0] == v@[i as int]);
        if v[i].is_whitespace() {
            assert(rest.skip(1) =~= v@.skip(i + 1));
            i = i + 1;
        } else {
            let start: usize = i;
            let ghost before = out@;
            if out.len() > 0 {
                out.push(' ');
            }
            let ghost base = out@;
            while i < v.len() && !v[i].is_whitespace()
                invariant
                    start <= i <= v@.len(),
                    forall|q: int| start <= q < i ==> !white(#[trigger] v@[q]),
                    out@ == base + v@.subrange(start as int, i as int),
                decreases v@.len() - i,
            {
                out.push(v[i]);
                assert(v@.subrange(start as int, i + 1) =~= v@.subrange(
                    start as int,
                    i as int,
                ).push(v@[i as int]));
                i = i + 1;
            }
            proof {
                let n = i - start;
                assert forall|q: int| 0 <= q < n implies !white(#[trigger] rest[q]) by {
                    assert(rest[q] == v@[start + q]);
                }
                if n < rest.len() {
                    assert(rest[n] == v@[i as int]);
                }
                lemma_word_ends(rest, n);
                assert(n > 0) by {
                    assert(!white(v@[start as int]));
                }
                let word = rest.take(n);
                assert(word =~= v@.subrange(start as int, i as int));
                assert(rest.skip(n) =~= v@.skip(i as int));
                let more = done.push(word);
                assert(more.drop_last() =~= done);
                assert(done + (seq![word] + words_of(v@.skip(i as int))) =~= more + words_of(
                    v@.skip(i as int),
                ));
                if done.len() == 0 {
                    assert(base =~= Seq::<char>::empty());
                    assert(out@ =~= word);
                } else {
                    assert(out@ =~= spaced(done).push(' ') + word);
                }
                done = more;
            }
        }
    }
    assert(v@.skip(i as int).len() == 0);
    assert(done + words_of(v@.skip(i as int)) =~= done);
    text_of(out.as_slice())
}

/// The texts joined by line feeds.
pub open spec fn joined_lines(texts: Seq<Seq<char>>) -> Seq<char>
    decreases texts.len(),
{
    if texts.len() == 0 {
        Seq::empty()
    } else if texts.len() == 1 {
        texts[0]
    } else {
        joined_lines(texts.drop_last()).push('\n') + texts.last()
    }
}

/// Joins texts by line feeds.
pub fn join_lines(texts: &[String]) -> (r: String)
    ensures
        r@ == joined_lines(views(texts@)),
{
    let mut r = String::new();
    let mut i: usize = 0;
    while i < texts.len()
        invariant
            i <= texts@.len(),
            r@ == joined_lines(views(texts@).take(i as int)),
        decreases texts@.len() - i,
    {
        if i > 0 {
            r.push('\n');
        }
        r.append(texts[i].as_str());
        proof {
            let all = views(texts@);
            let next = all.take(i + 1);
            assert(next.drop_last() =~= all.take(i as int));
            assert(next.last() == texts@[i as int]@);
            if i == 0 {
                assert(r@ =~= next[0]);
            }
        }
        i = i + 1;
    }
    assert(views(texts@).take(texts@.len() as int) =~= views(texts@));
    r
}

/// Law: the last of some texts are as many as may be, in their order, up to the very last.
pub proof fn law_the_last_texts_are_kept(texts: Seq<Seq<char>>, most: nat)
    ensures
        last_of(texts, most).len() == (if texts.len() < most {
            texts.len()
        } else {
            most
        }),
        forall|i: int|
            1 <= i <= last_of(texts, most).len() ==> #[trigger] last_of(texts, most)[last_of(
                texts,
                most,
            ).len() - i] == texts[texts.len() - i],
{
}

} // verus!
