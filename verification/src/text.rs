//! Character-level text handling: conversion between strings and character
//! vectors, whitespace, trimming, splitting, prefixes and ordering.
//!
//! Every contract here speaks of a text as a `Seq<char>`, the view of a
//! `String`, of a `&str` and of a `Vec<char>` alike.

use vstd::prelude::*;

verus! {

/// `String::push` appends one character to the end of the string and leaves
/// the characters before it as they were.
pub assume_specification[ std::string::String::push ](s: &mut std::string::String, c: char)
    ensures
        final(s)@ == old(s)@.push(c),
;

/// The lower-case form of a text as `str::to_lowercase` gives it: the Unicode
/// `Lowercase` mapping, which may change the number of characters.
pub uninterp spec fn lowercase(s: Seq<char>) -> Seq<char>;

/// `str::to_lowercase` depends on its argument alone; its result is named
/// [`lowercase`], and nothing more is claimed of it.
pub assume_specification[ str::to_lowercase ](s: &str) -> (r: std::string::String)
    ensures
        r@ == lowercase(s@),
;

/// The characters of `s`, in order.
pub fn chars_of(s: &str) -> (v: Vec<char>)
    ensures
        v@ == s@,
{
    let mut v: Vec<char> = Vec::new();
    for c in it: s.chars()
        invariant
            v@ == it.seq().take(it.index()),
            it.seq() == s@,
    {
        v.push(c);
    }
    v
}

/// The string made of the characters of `v`, in order.
pub fn string_of(v: &Vec<char>) -> (s: String)
    ensures
        s@ == v@,
{
    let mut s = String::new();
    let mut i: usize = 0;
    while i < v.len()
        invariant
            i <= v.len(),
            s@ == v@.take(i as int),
        decreases v.len() - i,
    {
        s.push(v[i]);
        i += 1;
    }
    assert(v@.take(v.len() as int) == v@);
    s
}

/// The lower-case form of `v`; the empty text is its own lower-case form.
pub open spec fn folded(s: Seq<char>) -> Seq<char> {
    if s.len() == 0 {
        s
    } else {
        lowercase(s)
    }
}

/// Lower-cases a text for case-insensitive lookup.
pub fn fold_case(v: &Vec<char>) -> (r: Vec<char>)
    ensures
        r@ == folded(v@),
{
    if v.len() == 0 {
        Vec::new()
    } else {
        let s = string_of(v);
        let lower = s.as_str().to_lowercase();
        chars_of(lower.as_str())
    }
}

/// A copy of the characters of `v` from `from` up to `to`.
pub fn slice_of(v: &Vec<char>, from: usize, to: usize) -> (r: Vec<char>)
    requires
        from <= to <= v.len(),
    ensures
        r@ == v@.subrange(from as int, to as int),
{
    let mut r: Vec<char> = Vec::new();
    let mut i: usize = from;
    while i < to
        invariant
            from <= i <= to <= v.len(),
            r@ == v@.subrange(from as int, i as int),
        decreases to - i,
    {
        r.push(v[i]);
        i += 1;
    }
    r
}

/// Whether two texts hold the same characters.
pub fn same_text(a: &Vec<char>, b: &Vec<char>) -> (r: bool)
    ensures
        r == (a@ == b@),
{
    if a.len() != b.len() {
        return false;
    }
    let mut i: usize = 0;
    while i < a.len()
        invariant
            i <= a.len() == b.len(),
            a@.take(i as int) == b@.take(i as int),
        decreases a.len() - i,
    {
        if a[i] != b[i] {
            return false;
        }
        assert(a@.take(i + 1) == a@.take(i as int).push(a@[i as int]));
        assert(b@.take(i + 1) == b@.take(i as int).push(b@[i as int]));
        i += 1;
    }
    assert(a@.take(a.len() as int) == a@);
    assert(b@.take(b.len() as int) == b@);
    true
}

/// Whether `s` holds exactly the characters of the literal `lit`.
pub fn is_literal(s: &Vec<char>, lit: &str) -> (r: bool)
    ensures
        r == (s@ == lit@),
{
    let l = chars_of(lit);
    same_text(s, &l)
}

/// Whether `s` begins with `p`.
pub fn starts_with(s: &Vec<char>, p: &Vec<char>) -> (r: bool)
    ensures
        r == p@.is_prefix_of(s@),
{
    if p.len() > s.len() {
        return false;
    }
    let mut i: usize = 0;
    while i < p.len()
        invariant
            i <= p.len() <= s.len(),
            p@.take(i as int) == s@.take(i as int),
        decreases p.len() - i,
    {
        if p[i] != s[i] {
            assert(s@.subrange(0, p.len() as int)[i as int] != p@[i as int]);
            return false;
        }
        assert(p@.take(i + 1) == p@.take(i as int).push(p@[i as int]));
        assert(s@.take(i + 1) == s@.take(i as int).push(s@[i as int]));
        i += 1;
    }
    assert(p@.take(p.len() as int) == p@);
    assert(s@.take(p.len() as int) == s@.subrange(0, p.len() as int));
    true
}

/// Appends the characters of `tail` to `out`.
pub fn append_chars(out: &mut Vec<char>, tail: &Vec<char>)
    ensures
        final(out)@ == old(out)@ + tail@,
{
    let mut i: usize = 0;
    while i < tail.len()
        invariant
            i <= tail.len(),
            out@ == old(out)@ + tail@.take(i as int),
        decreases tail.len() - i,
    {
        out.push(tail[i]);
        assert(tail@.take(i + 1) == tail@.take(i as int).push(tail@[i as int]));
        i += 1;
    }
    assert(tail@.take(tail.len() as int) == tail@);
}

/// Appends the characters of the literal `lit` to `out`.
pub fn append_literal(out: &mut Vec<char>, lit: &str)
    ensures
        final(out)@ == old(out)@ + lit@,
{
    let l = chars_of(lit);
    append_chars(out, &l);
}

/// The Unicode `White_Space` characters.
pub open spec fn is_whitespace(c: char) -> bool {
    let n = c as u32;
    ||| 0x09 <= n <= 0x0d
    ||| n == 0x20
    ||| n == 0x85
    ||| n == 0xa0
    ||| n == 0x1680
    ||| 0x2000 <= n <= 0x200a
    ||| n == 0x2028
    ||| n == 0x2029
    ||| n == 0x202f
    ||| n == 0x205f
    ||| n == 0x3000
}

/// Whether `c` is a Unicode `White_Space` character.
pub fn is_space(c: char) -> (r: bool)
    ensures
        r == is_whitespace(c),
{
    let n: u32 = c as u32;
    (0x09 <= n && n <= 0x0d) || n == 0x20 || n == 0x85 || n == 0xa0 || n == 0x1680 || (0x2000 <= n
        && n <= 0x200a) || n == 0x2028 || n == 0x2029 || n == 0x202f || n == 0x205f || n == 0x3000
}

/// `s` without its leading whitespace.
pub open spec fn trim_start(s: Seq<char>) -> Seq<char>
    decreases s.len(),
{
    if s.len() > 0 && is_whitespace(s[0]) {
        trim_start(s.skip(1))
    } else {
        s
    }
}

/// `s` without its trailing whitespace.
pub open spec fn trim_end(s: Seq<char>) -> Seq<char>
    decreases s.len(),
{
    if s.len() > 0 && is_whitespace(s.last()) {
        trim_end(s.drop_last())
    } else {
        s
    }
}

/// `s` without its leading and trailing whitespace.
pub open spec fn trim(s: Seq<char>) -> Seq<char> {
    trim_end(trim_start(s))
}

/// The index at which `trim_start` of `v[from..to]` begins.
fn skip_spaces(v: &Vec<char>, from: usize, to: usize) -> (i: usize)
    requires
        from <= to <= v.len(),
    ensures
        from <= i <= to,
        v@.subrange(i as int, to as int) == trim_start(v@.subrange(from as int, to as int)),
{
    let mut i: usize = from;
    while i < to && is_space(v[i])
        invariant
            from <= i <= to <= v.len(),
            trim_start(v@.subrange(i as int, to as int)) == trim_start(
                v@.subrange(from as int, to as int),
            ),
        decreases to - i,
    {
        assert(v@.subrange(i as int, to as int).skip(1) == v@.subrange(i + 1, to as int));
        i += 1;
    }
    i
}

/// The index at which `trim_end` of `v[from..to]` ends.
fn drop_spaces(v: &Vec<char>, from: usize, to: usize) -> (j: usize)
    requires
        from <= to <= v.len(),
    ensures
        from <= j <= to,
        v@.subrange(from as int, j as int) == trim_end(v@.subrange(from as int, to as int)),
{
    let mut j: usize = to;
    while j > from && is_space(v[j - 1])
        invariant
            from <= j <= to <= v.len(),
            trim_end(v@.subrange(from as int, j as int)) == trim_end(
                v@.subrange(from as int, to as int),
            ),
        decreases j,
    {
        assert(v@.subrange(from as int, j as int).drop_last() == v@.subrange(
            from as int,
            j - 1,
        ));
        j -= 1;
    }
    j
}

/// `v` without its leading whitespace.
pub fn trimmed_start(v: &Vec<char>) -> (r: Vec<char>)
    ensures
        r@ == trim_start(v@),
{
    assert(v@.subrange(0, v.len() as int) == v@);
    let i = skip_spaces(v, 0, v.len());
    slice_of(v, i, v.len())
}

/// `v` without its leading and trailing whitespace.
pub fn trimmed(v: &Vec<char>) -> (r: Vec<char>)
    ensures
        r@ == trim(v@),
{
    assert(v@.subrange(0, v.len() as int) == v@);
    let i = skip_spaces(v, 0, v.len());
    let j = drop_spaces(v, i, v.len());
    slice_of(v, i, j)
}

/// What separates the pieces of a text: one given character, or any
/// whitespace character.
#[derive(Clone, Copy, Debug)]
pub enum Delimiter {
    Char(char),
    Whitespace,
}

impl Delimiter {
    /// Whether `c` is a separator.
    pub open spec fn matches(self, c: char) -> bool {
        match self {
            Delimiter::Char(d) => c == d,
            Delimiter::Whitespace => is_whitespace(c),
        }
    }

    /// Whether `c` is a separator.
    pub fn test(&self, c: char) -> (r: bool)
        ensures
            r == self.matches(c),
    {
        match self {
            Delimiter::Char(d) => c == *d,
            Delimiter::Whitespace => is_space(c),
        }
    }
}

/// The pieces of `s` between its separators, empty pieces included: a text
/// with n separators has n + 1 pieces, and the empty text has one empty piece.
pub open spec fn split(s: Seq<char>, d: Delimiter) -> Seq<Seq<char>>
    decreases s.len(),
{
    if s.len() == 0 {
        seq![Seq::<char>::empty()]
    } else {
        let before = split(s.drop_last(), d);
        if d.matches(s.last()) {
            before.push(Seq::<char>::empty())
        } else {
            before.drop_last().push(before.last().push(s.last()))
        }
    }
}

/// `split` never gives an empty sequence of pieces.
pub proof fn lemma_split_nonempty(s: Seq<char>, d: Delimiter)
    ensures
        split(s, d).len() >= 1,
    decreases s.len(),
{
    if s.len() > 0 {
        lemma_split_nonempty(s.drop_last(), d);
    }
}

/// No piece of `split` holds a separator.
pub proof fn lemma_split_pieces_hold_no_separator(s: Seq<char>, d: Delimiter)
    ensures
        forall|i: int, j: int|
            0 <= i < split(s, d).len() && 0 <= j < split(s, d)[i].len() ==> !d.matches(
                #[trigger] split(s, d)[i][j],
            ),
    decreases s.len(),
{
    if s.len() > 0 {
        lemma_split_nonempty(s.drop_last(), d);
        lemma_split_pieces_hold_no_separator(s.drop_last(), d);
    }
}

/// The pieces put together again, with `c` between each two of them.
pub open spec fn rejoined(pieces: Seq<Seq<char>>, c: char) -> Seq<char>
    decreases pieces.len(),
{
    if pieces.len() == 0 {
        Seq::empty()
    } else if pieces.len() == 1 {
        pieces[0]
    } else {
        rejoined(pieces.drop_last(), c) + seq![c] + pieces.last()
    }
}

/// The pieces of a text cut at a character, put together again with that
/// character between them, are the text.
pub proof fn lemma_split_rejoined(s: Seq<char>, c: char)
    ensures
        rejoined(split(s, Delimiter::Char(c)), c) == s,
    decreases s.len(),
{
    let d = Delimiter::Char(c);
    if s.len() == 0 {
        assert(rejoined(split(s, d), c) =~= s);
    } else {
        let before = split(s.drop_last(), d);
        let after = split(s, d);
        lemma_split_nonempty(s.drop_last(), d);
        lemma_split_rejoined(s.drop_last(), c);
        assert(s =~= s.drop_last().push(s.last()));
        if d.matches(s.last()) {
            assert(after.drop_last() =~= before);
            assert(rejoined(after, c) =~= s);
        } else if before.len() == 1 {
            assert(rejoined(after, c) =~= s);
        } else {
            assert(after.drop_last() =~= before.drop_last());
            assert(rejoined(after, c) =~= rejoined(before, c).push(s.last()));
        }
    }
}

/// The texts that the vectors of `v` hold.
pub open spec fn texts(v: Seq<Vec<char>>) -> Seq<Seq<char>> {
    Seq::new(v.len(), |i: int| v[i]@)
}

/// The pieces of `v` between its separators, empty pieces included.
pub fn split_text(v: &Vec<char>, d: Delimiter) -> (r: Vec<Vec<char>>)
    ensures
        texts(r@) == split(v@, d),
        r.len() >= 1,
{
    let mut done: Vec<Vec<char>> = Vec::new();
    let mut cur: Vec<char> = Vec::new();
    let mut i: usize = 0;
    assert(v@.take(0) == Seq::<char>::empty());
    assert(texts(done@).push(cur@) == seq![Seq::<char>::empty()]);
    while i < v.len()
        invariant
            i <= v.len(),
            texts(done@).push(cur@) == split(v@.take(i as int), d),
        decreases v.len() - i,
    {
        let c = v[i];
        proof {
            assert(v@.take(i + 1).drop_last() == v@.take(i as int));
            assert(v@.take(i + 1).last() == c);
            let before = split(v@.take(i as int), d);
            assert(before.drop_last() == texts(done@));
            assert(before.last() == cur@);
        }
        if d.test(c) {
            let ghost old_done = done@;
            done.push(cur);
            cur = Vec::new();
            assert(texts(done@) == texts(old_done).push(done@.last()@));
        } else {
            cur.push(c);
        }
        i += 1;
    }
    assert(v@.take(v.len() as int) == v@);
    let ghost old_done = done@;
    done.push(cur);
    assert(texts(done@) == texts(old_done).push(done@.last()@));
    done
}

/// The pieces of `s` between its separators that are not empty.
pub open spec fn fields(s: Seq<char>, d: Delimiter) -> Seq<Seq<char>> {
    split(s, d).filter(|p: Seq<char>| p.len() > 0)
}

/// The pieces of `v` between its separators that are not empty.
pub fn split_fields(v: &Vec<char>, d: Delimiter) -> (r: Vec<Vec<char>>)
    ensures
        texts(r@) == fields(v@, d),
{
    let mut pieces = split_text(v, d);
    let ghost all = texts(pieces@);
    let ghost keep = |p: Seq<char>| p.len() > 0;
    let mut out: Vec<Vec<char>> = Vec::new();
    let n = pieces.len();
    let mut i: usize = 0;
    assert(all.take(0) == Seq::<Seq<char>>::empty());
    proof {
        reveal(Seq::filter);
    }
    assert(texts(out@) == all.take(0).filter(keep));
    while i < n
        invariant
            i <= n == pieces.len(),
            all == split(v@, d),
            all.len() == n,
            keep == |p: Seq<char>| p.len() > 0,
            forall|k: int| i <= k < n ==> (#[trigger] pieces@[k])@ == all[k],
            texts(out@) == all.take(i as int).filter(keep),
        decreases n - i,
    {
        let mut piece: Vec<char> = Vec::new();
        let ghost before = pieces@;
        std::mem::swap(&mut piece, &mut pieces[i]);
        proof {
            reveal(Seq::filter);
            assert(all.take(i + 1).drop_last() == all.take(i as int));
            assert(all.take(i + 1).last() == piece@);
        }
        if piece.len() > 0 {
            let ghost old_out = out@;
            out.push(piece);
            assert(texts(out@) == texts(old_out).push(out@.last()@));
        }
        i += 1;
    }
    assert(all.take(n as int) == all);
    out
}

/// Whether `a` comes before `b` in the lexicographic order of their
/// characters' code points, in which a proper prefix comes first.
pub open spec fn lex_less(a: Seq<char>, b: Seq<char>) -> bool
    decreases a.len(),
{
    if b.len() == 0 {
        false
    } else if a.len() == 0 {
        true
    } else if a[0] != b[0] {
        a[0] < b[0]
    } else {
        lex_less(a.skip(1), b.skip(1))
    }
}

/// Whether `a` is `b` or comes before it.
pub open spec fn lex_le(a: Seq<char>, b: Seq<char>) -> bool {
    a == b || lex_less(a, b)
}

/// Of two different texts one comes before the other.
pub proof fn lemma_lex_total(a: Seq<char>, b: Seq<char>)
    ensures
        lex_le(a, b) || lex_less(b, a),
        !(lex_less(a, b) && lex_less(b, a)),
        !lex_less(a, a),
    decreases a.len(),
{
    if a.len() > 0 && b.len() > 0 && a[0] == b[0] {
        lemma_lex_total(a.skip(1), b.skip(1));
        if a.skip(1) == b.skip(1) {
            assert(a =~= seq![a[0]] + a.skip(1));
            assert(b =~= seq![b[0]] + b.skip(1));
        }
    }
    if a.len() > 0 {
        lemma_lex_total(a.skip(1), a.skip(1));
    }
    if a.len() == 0 && b.len() == 0 {
        assert(a =~= b);
    }
}

/// The order is transitive.
pub proof fn lemma_lex_transitive(a: Seq<char>, b: Seq<char>, c: Seq<char>)
    requires
        lex_le(a, b),
        lex_le(b, c),
    ensures
        lex_le(a, c),
    decreases a.len(),
{
    if a != b && b != c {
        if a.len() > 0 && a[0] == b[0] && b[0] == c[0] {
            lemma_lex_transitive(a.skip(1), b.skip(1), c.skip(1));
            if a.skip(1) == c.skip(1) {
                assert(a =~= seq![a[0]] + a.skip(1));
                assert(c =~= seq![c[0]] + c.skip(1));
            }
        }
    }
}

/// Whether `a` comes before `b`.
pub fn text_less(a: &Vec<char>, b: &Vec<char>) -> (r: bool)
    ensures
        r == lex_less(a@, b@),
{
    let mut i: usize = 0;
    assert(a@.skip(0) == a@ && b@.skip(0) == b@);
    while i < a.len() && i < b.len()
        invariant
            i <= a.len(),
            i <= b.len(),
            lex_less(a@, b@) == lex_less(a@.skip(i as int), b@.skip(i as int)),
        decreases a.len() - i,
    {
        if a[i] != b[i] {
            return a[i] < b[i];
        }
        assert(a@.skip(i as int).skip(1) == a@.skip(i + 1));
        assert(b@.skip(i as int).skip(1) == b@.skip(i + 1));
        i += 1;
    }
    i < b.len()
}

/// `n` spaces.
pub open spec fn spaces(n: int) -> Seq<char> {
    Seq::new(
        if n > 0 {
            n as nat
        } else {
            0
        },
        |i: int| ' ',
    )
}

/// `s` followed by as many spaces as bring it to `width` characters; `s`
/// itself where it is that long already.
pub open spec fn padded(s: Seq<char>, width: int) -> Seq<char> {
    s + spaces(width - s.len())
}

/// Appends `text` to `out`, padded with spaces to `width` characters.
pub fn append_padded(out: &mut Vec<char>, text: &Vec<char>, width: usize)
    ensures
        final(out)@ == old(out)@ + padded(text@, width as int),
{
    append_chars(out, text);
    let mut n: usize = text.len();
    while n < width
        invariant
            text.len() <= n,
            n <= width || n == text.len(),
            out@ == old(out)@ + text@ + spaces(n - text.len()),
        decreases width - n,
    {
        out.push(' ');
        assert(out@ =~= old(out)@ + text@ + spaces(n + 1 - text.len()));
        n += 1;
    }
    assert(out@ =~= old(out)@ + padded(text@, width as int));
}

/// `text` padded with spaces to `width` characters.
pub fn pad_right(text: &str, width: usize) -> (r: String)
    ensures
        r@ == padded(text@, width as int),
{
    let mut out: Vec<char> = Vec::new();
    append_padded(&mut out, &chars_of(text), width);
    assert(out@ =~= padded(text@, width as int));
    string_of(&out)
}

/// Where the first whitespace character of `s` at or behind `from` stands,
/// or the length of `s` where there is none.
pub open spec fn first_space(s: Seq<char>, from: int) -> int
    decreases s.len() - from,
{
    if from < 0 || from >= s.len() {
        s.len() as int
    } else if is_whitespace(s[from]) {
        from
    } else {
        first_space(s, from + 1)
    }
}

/// The first word of `s` and what follows it: `s` is trimmed, the word ends
/// before the first whitespace, and what follows loses its leading
/// whitespace. Without whitespace the whole is the word.
pub open spec fn first_word(s: Seq<char>) -> (Seq<char>, Seq<char>) {
    let t = trim(s);
    let p = first_space(t, 0);
    (t.take(p), trim_start(t.skip(p)))
}

/// The first word of `v` and what follows it.
pub fn split_first_word(v: &Vec<char>) -> (r: (Vec<char>, Vec<char>))
    ensures
        (r.0@, r.1@) == first_word(v@),
{
    let t = trimmed(v);
    let mut p: usize = 0;
    while p < t.len() && !is_space(t[p])
        invariant
            p <= t.len(),
            first_space(t@, 0) == first_space(t@, p as int),
        decreases t.len() - p,
    {
        p += 1;
    }
    let word = slice_of(&t, 0, p);
    let rest = slice_of(&t, p, t.len());
    assert(word@ =~= t@.take(p as int));
    assert(rest@ =~= t@.skip(p as int));
    let tail = trimmed_start(&rest);
    (word, tail)
}

} // verus!
