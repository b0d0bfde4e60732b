//! Character-level text operations and their mathematical models.
//!
//! Every model is a function on `Seq<char>`, the view of `str` and `String`.
//! The executable functions work on a [`Line`], which pairs a string slice
//! with its characters so that positions can be inspected in constant time.

use vstd::prelude::*;
use vstd::string::*;

verus! {

/// The characters with the Unicode property `White_Space`.
pub open spec fn is_whitespace(c: char) -> bool {
    ||| ('\u{9}' <= c && c <= '\u{d}')
    ||| c == ' '
    ||| c == '\u{85}'
    ||| c == '\u{a0}'
    ||| c == '\u{1680}'
    ||| ('\u{2000}' <= c && c <= '\u{200a}')
    ||| c == '\u{2028}'
    ||| c == '\u{2029}'
    ||| c == '\u{202f}'
    ||| c == '\u{205f}'
    ||| c == '\u{3000}'
}

/// `s` without its leading whitespace.
pub open spec fn trim_start(s: Seq<char>) -> Seq<char>
    decreases s.len(),
{
    if s.len() > 0 && is_whitespace(s[0]) {
        trim_start(s.drop_first())
    } else {
        s
    }
}

/// `s` without its trailing whitespace.
pub open spec fn trim_end(s: Seq<char>) -> Seq<char>
    decreases s.len(),
{
    if s.len() > 0 && is_whitespace(s.last()) {
        trim_end(s.drop_last())
    } else {
        s
    }
}

/// `s` without the whitespace that surrounds it.
pub open spec fn trim(s: Seq<char>) -> Seq<char> {
    trim_end(trim_start(s))
}

/// A string is blank when it holds nothing but whitespace.
pub open spec fn is_blank(s: Seq<char>) -> bool {
    forall|i: int| 0 <= i < s.len() ==> is_whitespace(#[trigger] s[i])
}

/// The number of characters of `s` that stand before the first `c`;
/// the whole length when `c` does not occur.
pub open spec fn span_before(s: Seq<char>, c: char) -> nat
    decreases s.len(),
{
    if s.len() == 0 || s[0] == c {
        0
    } else {
        1 + span_before(s.drop_first(), c)
    }
}

/// `n` is the position of the first `c` in `s`, or the length of `s` when
/// there is none.
pub open spec fn is_span_before(s: Seq<char>, c: char, n: int) -> bool {
    &&& 0 <= n <= s.len()
    &&& forall|i: int| 0 <= i < n ==> #[trigger] s[i] != c
    &&& n < s.len() ==> s[n] == c
}

/// The pieces of `s` between occurrences of `sep`, in order. There is
/// always at least one piece, and pieces may be empty.
pub open spec fn split(s: Seq<char>, sep: char) -> Seq<Seq<char>>
    decreases s.len(),
{
    let n = span_before(s, sep);
    if n >= s.len() {
        seq![s]
    } else {
        seq![s.take(n as int)] + split(s.skip(n as int + 1), sep)
    }
}

/// The part of `s` before its first `c`; all of `s` when `c` does not occur.
pub open spec fn before_first(s: Seq<char>, c: char) -> Seq<char> {
    s.take(span_before(s, c) as int)
}

/// The part of `s` after its first `c`, if `c` occurs.
pub open spec fn after_first(s: Seq<char>, c: char) -> Option<Seq<char>> {
    let n = span_before(s, c);
    if n < s.len() {
        Some(s.skip(n as int + 1))
    } else {
        None
    }
}

/// `span_before` is the one position that `is_span_before` describes.
pub proof fn lemma_span_before(s: Seq<char>, c: char)
    ensures
        is_span_before(s, c, span_before(s, c) as int),
    decreases s.len(),
{
    if s.len() == 0 || s[0] == c {
    } else {
        let t = s.drop_first();
        lemma_span_before(t, c);
        let n = span_before(t, c) as int;
        assert forall|i: int| 0 <= i < n + 1 implies #[trigger] s[i] != c by {
            if i > 0 {
                assert(s[i] == t[i - 1]);
            }
        }
        if n + 1 < s.len() {
            assert(s[n + 1] == t[n]);
        }
    }
}

/// A position with the defining property is the value of `span_before`.
pub proof fn lemma_span_before_unique(s: Seq<char>, c: char, n: int)
    requires
        is_span_before(s, c, n),
    ensures
        span_before(s, c) == n,
    decreases s.len(),
{
    if s.len() == 0 {
    } else if s[0] == c {
        if n > 0 {
            assert(s[0] != c);
        }
    } else {
        let t = s.drop_first();
        assert(n > 0);
        assert forall|i: int| 0 <= i < n - 1 implies #[trigger] t[i] != c by {
            assert(t[i] == s[i + 1]);
        }
        if n - 1 < t.len() {
            assert(t[n - 1] == s[n]);
        }
        lemma_span_before_unique(t, c, n - 1);
    }
}

/// The character `c` does not occur in `s`.
pub open spec fn free_of(s: Seq<char>, c: char) -> bool {
    forall|i: int| 0 <= i < s.len() ==> #[trigger] s[i] != c
}

/// In text free of `c`, nothing stands after a first `c`.
pub proof fn lemma_span_absent(s: Seq<char>, c: char)
    requires
        free_of(s, c),
    ensures
        span_before(s, c) == s.len(),
        before_first(s, c) == s,
        after_first(s, c) is None,
{
    lemma_span_before_unique(s, c, s.len() as int);
    assert(s.take(s.len() as int) =~= s);
}

/// In `head + c + tail` with `head` free of `c`, the first `c` is the one
/// in the middle.
pub proof fn lemma_span_joined(head: Seq<char>, c: char, tail: Seq<char>)
    requires
        free_of(head, c),
    ensures
        span_before(head + seq![c] + tail, c) == head.len(),
        before_first(head + seq![c] + tail, c) == head,
        after_first(head + seq![c] + tail, c) == Some(tail),
{
    let s = head + seq![c] + tail;
    assert forall|i: int| 0 <= i < head.len() implies #[trigger] s[i] != c by {
        assert(s[i] == head[i]);
    }
    assert(s[head.len() as int] == c);
    lemma_span_before_unique(s, c, head.len() as int);
    assert(s.take(head.len() as int) =~= head);
    assert(s.skip(head.len() as int + 1) =~= tail);
}

/// Text free of the separator is a single piece.
pub proof fn lemma_split_single(s: Seq<char>, sep: char)
    requires
        free_of(s, sep),
    ensures
        split(s, sep) == seq![s],
{
    lemma_span_absent(s, sep);
}

/// Splitting `head + sep + tail`, where `head` is free of the separator,
/// gives `head` and then the pieces of `tail`.
pub proof fn lemma_split_joined(head: Seq<char>, sep: char, tail: Seq<char>)
    requires
        free_of(head, sep),
    ensures
        split(head + seq![sep] + tail, sep) == seq![head] + split(tail, sep),
{
    lemma_span_joined(head, sep, tail);
}

/// What `trim_start` removes is whitespace, and what it leaves does not
/// begin with whitespace.
pub proof fn lemma_trim_start(s: Seq<char>) -> (n: int)
    ensures
        0 <= n <= s.len(),
        trim_start(s) == s.skip(n),
        forall|i: int| 0 <= i < n ==> is_whitespace(#[trigger] s[i]),
        n < s.len() ==> !is_whitespace(s[n]),
    decreases s.len(),
{
    if s.len() > 0 && is_whitespace(s[0]) {
        let t = s.drop_first();
        let m = lemma_trim_start(t);
        assert(t.skip(m) =~= s.skip(m + 1));
        assert forall|i: int| 0 <= i < m + 1 implies is_whitespace(#[trigger] s[i]) by {
            if i > 0 {
                assert(s[i] == t[i - 1]);
            }
        }
        if m + 1 < s.len() {
            assert(s[m + 1] == t[m]);
        }
        m + 1
    } else {
        assert(s.skip(0) =~= s);
        0
    }
}

/// What `trim_end` removes is whitespace, and what it leaves does not end
/// with whitespace.
pub proof fn lemma_trim_end(s: Seq<char>) -> (n: int)
    ensures
        0 <= n <= s.len(),
        trim_end(s) == s.take(n),
        forall|i: int| n <= i < s.len() ==> is_whitespace(#[trigger] s[i]),
        n > 0 ==> !is_whitespace(s[n - 1]),
    decreases s.len(),
{
    if s.len() > 0 && is_whitespace(s.last()) {
        let t = s.drop_last();
        let m = lemma_trim_end(t);
        assert(t.take(m) =~= s.take(m));
        assert forall|i: int| m <= i < s.len() implies is_whitespace(#[trigger] s[i]) by {
            if i < s.len() - 1 {
                assert(s[i] == t[i]);
            }
        }
        if m > 0 {
            assert(s[m - 1] == t[m - 1]);
        }
        m
    } else {
        assert(s.take(s.len() as int) =~= s);
        s.len() as int
    }
}

/// The bounds of `trim(s)` inside `s`: the text between `a` and `b` is
/// `trim(s)`, everything outside is whitespace, and a non-empty result
/// begins and ends with a character that is not whitespace.
pub open spec fn is_trim_bounds(s: Seq<char>, a: int, b: int) -> bool {
    &&& 0 <= a <= b <= s.len()
    &&& forall|i: int| 0 <= i < a ==> is_whitespace(#[trigger] s[i])
    &&& forall|i: int| b <= i < s.len() ==> is_whitespace(#[trigger] s[i])
    &&& a < b ==> !is_whitespace(s[a]) && !is_whitespace(s[b - 1])
}

/// Bounds with the defining property cut out exactly `trim(s)`.
pub proof fn lemma_trim_bounds(s: Seq<char>, a: int, b: int)
    requires
        is_trim_bounds(s, a, b),
    ensures
        trim(s) == s.subrange(a, b),
{
    let n = lemma_trim_start(s);
    if a < b {
        // The first character that is kept is the same on both sides.
        if n < a {
            assert(is_whitespace(s[n]));
        }
        if a < n {
            assert(is_whitespace(s[a]));
        }
        assert(n == a);
        let t = s.skip(a);
        let m = lemma_trim_end(t);
        if m < b - a {
            assert(t[b - a - 1] == s[b - 1]);
            assert(is_whitespace(t[b - a - 1]));
        }
        if m > b - a {
            assert(t[m - 1] == s[a + m - 1]);
            assert(is_whitespace(s[a + m - 1]));
        }
        assert(t.take(m) =~= s.subrange(a, b));
    } else {
        // Everything is whitespace.
        assert forall|i: int| 0 <= i < s.len() implies is_whitespace(#[trigger] s[i]) by {
            if i < a {
            } else {
            }
        }
        if n < s.len() {
            assert(is_whitespace(s[n]));
        }
        assert(n == s.len());
        let t = s.skip(n);
        assert(t.len() == 0);
        assert(trim_end(t) == t);
        assert(t =~= s.subrange(a, b));
    }
}

/// Trimming leaves nothing exactly when the text is blank.
pub proof fn lemma_trim_blank(s: Seq<char>)
    ensures
        trim(s).len() == 0 <==> is_blank(s),
{
    let n = lemma_trim_start(s);
    let t = s.skip(n);
    let m = lemma_trim_end(t);
    assert(trim(s) == t.take(m));
    if is_blank(s) {
        if n < s.len() {
            assert(is_whitespace(s[n]));
        }
        assert(t.len() == 0);
    }
    if trim(s).len() == 0 {
        assert(m == 0);
        assert forall|i: int| 0 <= i < s.len() implies is_whitespace(#[trigger] s[i]) by {
            if i >= n {
                assert(t[i - n] == s[i]);
            }
        }
    }
}

/// Text that neither begins nor ends with whitespace is its own trimming.
pub proof fn lemma_trim_identity(s: Seq<char>)
    requires
        s.len() > 0 ==> !is_whitespace(s[0]) && !is_whitespace(s.last()),
    ensures
        trim(s) == s,
{
    assert(is_trim_bounds(s, 0, s.len() as int));
    lemma_trim_bounds(s, 0, s.len() as int);
    assert(s.subrange(0, s.len() as int) =~= s);
}

/// The views of a sequence of strings.
pub open spec fn texts(strings: Seq<String>) -> Seq<Seq<char>> {
    Seq::new(strings.len(), |i: int| strings[i]@)
}

/// The view of an optional string.
pub open spec fn opt_text(s: Option<String>) -> Option<Seq<char>> {
    match s {
        Some(s) => Some(s@),
        None => None,
    }
}

/// A copy of a list of strings.
pub fn clone_strings(strings: &Vec<String>) -> (copy: Vec<String>)
    ensures
        texts(copy@) == texts(strings@),
{
    let mut copy: Vec<String> = Vec::new();
    let mut i: usize = 0;
    while i < strings.len()
        invariant
            i <= strings@.len(),
            copy@.len() == i,
            forall|j: int| 0 <= j < i ==> (#[trigger] copy@[j])@ == strings@[j]@,
        decreases strings@.len() - i,
    {
        copy.push(strings[i].clone());
        i += 1;
    }
    proof {
        assert(texts(copy@) =~= texts(strings@));
    }
    copy
}

/// A copy of an optional string.
pub fn clone_opt(s: &Option<String>) -> (copy: Option<String>)
    ensures
        opt_text(copy) == opt_text(*s),
{
    match s {
        Some(s) => Some(s.clone()),
        None => None,
    }
}

/// Tells whether a character is whitespace.
pub fn is_whitespace_char(c: char) -> (b: bool)
    ensures
        b == is_whitespace(c),
{
    (c >= '\u{9}' && c <= '\u{d}') || c == ' ' || c == '\u{85}' || c == '\u{a0}' || c
        == '\u{1680}' || (c >= '\u{2000}' && c <= '\u{200a}') || c == '\u{2028}' || c
        == '\u{2029}' || c == '\u{202f}' || c == '\u{205f}' || c == '\u{3000}'
}

/// A string slice together with its characters.
pub struct Line<'a> {
    text: &'a str,
    chars: Vec<char>,
}

impl<'a> View for Line<'a> {
    type V = Seq<char>;

    closed spec fn view(&self) -> Seq<char> {
        self.text@
    }
}

impl<'a> Line<'a> {
    #[verifier::type_invariant]
    closed spec fn inv(&self) -> bool {
        self.chars@ == self.text@
    }

    /// Reads the characters of `text`.
    pub fn new(text: &'a str) -> (line: Self)
        ensures
            line@ == text@,
    {
        let mut chars: Vec<char> = Vec::new();
        for c in it: text.chars()
            invariant
                chars@ == it.seq().take(it.index() as int),
                it.seq() == text@,
        {
            chars.push(c);
        }
        assert(chars@ =~= text@);
        Line { text, chars }
    }

    /// The number of characters.
    pub fn len(&self) -> (n: usize)
        ensures
            n == self@.len(),
    {
        proof {
            use_type_invariant(self);
        }
        self.chars.len()
    }

    /// The character at position `i`.
    pub fn at(&self, i: usize) -> (c: char)
        requires
            i < self@.len(),
        ensures
            c == self@[i as int],
    {
        proof {
            use_type_invariant(self);
        }
        self.chars[i]
    }

    /// The characters from `from` up to `to`.
    pub fn slice(&self, from: usize, to: usize) -> (s: &'a str)
        requires
            from <= to <= self@.len(),
        ensures
            s@ == self@.subrange(from as int, to as int),
    {
        self.text.substring_char(from, to)
    }

    /// The characters from `from` up to `to`, as an owned string.
    pub fn cut(&self, from: usize, to: usize) -> (s: String)
        requires
            from <= to <= self@.len(),
        ensures
            s@ == self@.subrange(from as int, to as int),
    {
        self.slice(from, to).to_owned()
    }

    /// The position of the first `c` between `from` and `to`, or `to` when
    /// there is none.
    pub fn scan(&self, from: usize, to: usize, c: char) -> (at: usize)
        requires
            from <= to <= self@.len(),
        ensures
            from <= at <= to,
            at - from == span_before(self@.subrange(from as int, to as int), c),
    {
        proof {
            use_type_invariant(self);
        }
        let mut i: usize = from;
        while i < to && self.chars[i] != c
            invariant
                from <= i <= to <= self.chars@.len(),
                forall|j: int| from <= j < i ==> self.chars@[j] != c,
            decreases to - i,
        {
            i += 1;
        }
        proof {
            let w = self@.subrange(from as int, to as int);
            assert forall|j: int| 0 <= j < i - from implies #[trigger] w[j] != c by {
                assert(w[j] == self.chars@[from + j]);
            }
            lemma_span_before_unique(w, c, i - from);
        }
        i
    }

    /// Tells whether `pattern` stands in the line at position `at`.
    pub fn matches_at(&self, at: usize, pattern: &Line) -> (b: bool)
        requires
            at <= self@.len(),
        ensures
            b == (at + pattern@.len() <= self@.len() && self@.subrange(
                at as int,
                at + pattern@.len(),
            ) == pattern@),
    {
        let n = self.len();
        let m = pattern.len();
        if n - at < m {
            return false;
        }
        let mut i: usize = 0;
        while i < m
            invariant
                i <= m == pattern@.len(),
                at + m <= n == self@.len(),
                forall|j: int| 0 <= j < i ==> self@[at + j] == pattern@[j],
            decreases m - i,
        {
            if self.at(at + i) != pattern.at(i) {
                proof {
                    assert(self@.subrange(at as int, at + m)[i as int] != pattern@[i as int]);
                }
                return false;
            }
            i += 1;
        }
        proof {
            assert(self@.subrange(at as int, at + m) =~= pattern@);
        }
        true
    }

    /// The bounds of the pieces into which `sep` splits the text between
    /// `from` and `to`, in order.
    pub fn split_bounds(&self, from: usize, to: usize, sep: char) -> (pieces: Vec<(usize, usize)>)
        requires
            from <= to <= self@.len(),
        ensures
            pieces@.len() == split(self@.subrange(from as int, to as int), sep).len(),
            forall|i: int|
                0 <= i < pieces@.len() ==> {
                    &&& from <= (#[trigger] pieces@[i]).0 <= pieces@[i].1 <= to
                    &&& self@.subrange(pieces@[i].0 as int, pieces@[i].1 as int) == split(
                        self@.subrange(from as int, to as int),
                        sep,
                    )[i]
                },
    {
        let ghost whole = split(self@.subrange(from as int, to as int), sep);
        let mut pieces: Vec<(usize, usize)> = Vec::new();
        let mut pos: usize = from;
        loop
            invariant_except_break
                from <= pos <= to <= self@.len(),
                whole == split(self@.subrange(from as int, to as int), sep),
                whole.len() == pieces@.len() + split(
                    self@.subrange(pos as int, to as int),
                    sep,
                ).len(),
                forall|i: int|
                    0 <= i < pieces@.len() ==> {
                        &&& from <= (#[trigger] pieces@[i]).0 <= pieces@[i].1 <= to
                        &&& self@.subrange(pieces@[i].0 as int, pieces@[i].1 as int) == whole[i]
                    },
                forall|i: int|
                    pieces@.len() <= i < whole.len() ==> whole[i] == split(
                        self@.subrange(pos as int, to as int),
                        sep,
                    )[i - pieces@.len()],
            ensures
                whole.len() == pieces@.len(),
                forall|i: int|
                    0 <= i < pieces@.len() ==> {
                        &&& from <= (#[trigger] pieces@[i]).0 <= pieces@[i].1 <= to
                        &&& self@.subrange(pieces@[i].0 as int, pieces@[i].1 as int) == whole[i]
                    },
            decreases to - pos,
        {
            let at = self.scan(pos, to, sep);
            let ghost rest = self@.subrange(pos as int, to as int);
            let ghost done = pieces@.len();
            proof {
                assert(rest.take(at - pos) =~= self@.subrange(pos as int, at as int));
                assert(whole[done as int] == split(rest, sep)[0]);
                if at < to {
                    assert(rest.skip(at - pos + 1) =~= self@.subrange(at + 1, to as int));
                    let tail = split(self@.subrange(at + 1, to as int), sep);
                    assert(split(rest, sep) == seq![rest.take(at - pos)] + tail);
                    assert forall|i: int| done + 1 <= i < whole.len() implies whole[i] == tail[i
                        - (done + 1)] by {
                        assert(whole[i] == split(rest, sep)[i - done]);
                    }
                } else {
                    assert(rest.take(at - pos) =~= rest);
                }
            }
            pieces.push((pos, at));
            if at == to {
                break ;
            }
            pos = at + 1;
        }
        pieces
    }

    /// The bounds of the text between `from` and `to` once the whitespace
    /// around it is left out.
    pub fn trim_bounds(&self, from: usize, to: usize) -> (r: (usize, usize))
        requires
            from <= to <= self@.len(),
        ensures
            from <= r.0 <= r.1 <= to,
            self@.subrange(r.0 as int, r.1 as int) == trim(self@.subrange(from as int, to as int)),
    {
        proof {
            use_type_invariant(self);
        }
        let mut a: usize = from;
        while a < to && is_whitespace_char(self.chars[a])
            invariant
                from <= a <= to <= self.chars@.len(),
                forall|j: int| from <= j < a ==> is_whitespace(#[trigger] self.chars@[j]),
            decreases to - a,
        {
            a += 1;
        }
        let mut b: usize = to;
        while a < b && is_whitespace_char(self.chars[b - 1])
            invariant
                from <= a <= b <= to <= self.chars@.len(),
                forall|j: int| b <= j < to ==> is_whitespace(#[trigger] self.chars@[j]),
            decreases b - a,
        {
            b -= 1;
        }
        proof {
            let w = self@.subrange(from as int, to as int);
            assert forall|j: int| 0 <= j < a - from implies is_whitespace(#[trigger] w[j]) by {
                assert(w[j] == self.chars@[from + j]);
            }
            assert forall|j: int| b - from <= j < w.len() implies is_whitespace(
                #[trigger] w[j],
            ) by {
                assert(w[j] == self.chars@[from + j]);
            }
            if a < b {
                assert(w[a - from] == self.chars@[a as int]);
                assert(w[b - from - 1] == self.chars@[b - 1]);
            }
            lemma_trim_bounds(w, a - from, b - from);
            assert(w.subrange(a - from, b - from) =~= self@.subrange(a as int, b as int));
        }
        (a, b)
    }
}

} // verus!
