//! Operations on text, stated over sequences of characters.

use vstd::prelude::*;

verus! {

/// `<String as From<&str>>::from` copies the characters.
pub assume_specification<'b>[ <String as From<&'b str>>::from ](s: &str) -> (r: String)
    ensures
        r@ == s@,
;

/// `<T as From<T>>::from` returns its argument unchanged.
pub assume_specification<T>[ <T as From<T>>::from ](t: T) -> (r: T)
    ensures
        r == t,
;

/// The characters with the Unicode property `White_Space`.
pub open spec fn white_space(c: char) -> bool {
    let u = c as u32;
    ||| 0x09 <= u <= 0x0d
    ||| u == 0x20
    ||| u == 0x85
    ||| u == 0xa0
    ||| u == 0x1680
    ||| 0x2000 <= u <= 0x200a
    ||| u == 0x2028
    ||| u == 0x2029
    ||| u == 0x202f
    ||| u == 0x205f
    ||| u == 0x3000
}

/// Which characters are cut off the ends of a text.
#[derive(Clone, Copy)]
pub enum Pattern {
    /// One given character.
    Char(char),
    /// Every character with the Unicode property `White_Space`.
    WhiteSpace,
}

impl Pattern {
    pub open spec fn covers(self, c: char) -> bool {
        match self {
            Pattern::Char(x) => c == x,
            Pattern::WhiteSpace => white_space(c),
        }
    }

    /// Whether the pattern covers `c`.
    pub fn is_match(self, c: char) -> (found: bool)
        ensures
            found == self.covers(c),
    {
        match self {
            Pattern::Char(x) => c == x,
            Pattern::WhiteSpace => {
                let u: u32 = c as u32;
                (0x09 <= u && u <= 0x0d) || u == 0x20 || u == 0x85 || u == 0xa0 || u == 0x1680 || (
                0x2000 <= u && u <= 0x200a) || u == 0x2028 || u == 0x2029 || u == 0x202f || u
                    == 0x205f || u == 0x3000
            },
        }
    }
}

/// `s` without the longest run of covered characters at its end.
pub open spec fn trim_end(s: Seq<char>, p: Pattern) -> Seq<char>
    decreases s.len(),
{
    if s.len() > 0 && p.covers(s.last()) {
        trim_end(s.drop_last(), p)
    } else {
        s
    }
}

/// `s` without the longest run of covered characters at its start.
pub open spec fn trim_start(s: Seq<char>, p: Pattern) -> Seq<char>
    decreases s.len(),
{
    if s.len() > 0 && p.covers(s.first()) {
        trim_start(s.drop_first(), p)
    } else {
        s
    }
}

/// `s` without the covered characters at both of its ends.
pub open spec fn trim(s: Seq<char>, p: Pattern) -> Seq<char> {
    trim_start(trim_end(s, p), p)
}

/// `s` without `prefix` where it starts with it, else `s`.
pub open spec fn without_prefix(s: Seq<char>, prefix: Seq<char>) -> Seq<char> {
    if prefix.is_prefix_of(s) {
        s.skip(prefix.len() as int)
    } else {
        s
    }
}

/// What stands before and after the first `c` in `s`, if there is one.
pub open spec fn split_once(s: Seq<char>, c: char) -> Option<(Seq<char>, Seq<char>)> {
    match s.index_of_first(c) {
        Some(i) => Some((s.take(i), s.skip(i + 1))),
        None => None,
    }
}

/// The lower-case form of a text, as the standard library computes it from the Unicode
/// character database.
pub uninterp spec fn lowercase(s: Seq<char>) -> Seq<char>;

/// Calls `str::to_lowercase`. The contract says only that the result is a function of the
/// characters of the argument, named [`lowercase`]; the Unicode tables themselves are not stated.
#[verifier::external_body]
pub(crate) fn to_lowercase(s: &str) -> (r: String)
    ensures
        r@ == lowercase(s@),
{
    s.to_lowercase()
}

/// The characters of `s`.
pub fn chars_of(s: &str) -> (chars: Vec<char>)
    ensures
        chars@ == s@,
{
    let mut chars: Vec<char> = Vec::new();
    for c in it: s.chars()
        invariant
            it.seq() == s@,
            chars@ == s@.take(it.index() as int),
    {
        chars.push(c);
    }
    chars
}

/// Whether two texts have the same characters.
pub fn same_text(a: &str, b: &str) -> (same: bool)
    ensures
        same == (a@ == b@),
{
    a.to_owned() == b.to_owned()
}

/// `s` without the covered characters at its end.
pub fn trim_end_of<'a>(s: &'a str, p: Pattern) -> (r: &'a str)
    ensures
        r@ == trim_end(s@, p),
{
    let chars = chars_of(s);
    let mut end: usize = chars.len();
    assert(s@.take(end as int) =~= s@);
    while end > 0 && p.is_match(chars[end - 1])
        invariant
            end <= chars@.len(),
            chars@ == s@,
            trim_end(s@, p) == trim_end(s@.take(end as int), p),
        decreases end,
    {
        assert(s@.take(end as int).drop_last() =~= s@.take(end - 1));
        end = end - 1;
    }
    assert(s@.subrange(0, end as int) =~= s@.take(end as int));
    s.substring_char(0, end)
}

/// `s` without the covered characters at its start.
pub fn trim_start_of<'a>(s: &'a str, p: Pattern) -> (r: &'a str)
    ensures
        r@ == trim_start(s@, p),
{
    let chars = chars_of(s);
    let mut start: usize = 0;
    assert(s@.skip(start as int) =~= s@);
    while start < chars.len() && p.is_match(chars[start])
        invariant
            start <= chars@.len(),
            chars@ == s@,
            trim_start(s@, p) == trim_start(s@.skip(start as int), p),
        decreases chars@.len() - start,
    {
        assert(s@.skip(start as int).drop_first() =~= s@.skip(start + 1));
        start = start + 1;
    }
    assert(s@.subrange(start as int, s@.len() as int) =~= s@.skip(start as int));
    s.substring_char(start, chars.len())
}

/// `s` without the covered characters at both of its ends.
pub fn trim_of<'a>(s: &'a str, p: Pattern) -> (r: &'a str)
    ensures
        r@ == trim(s@, p),
{
    trim_start_of(trim_end_of(s, p), p)
}

/// `s` without `prefix` where it starts with it, else `s`.
pub fn strip_prefix_or_keep<'a>(s: &'a str, prefix: &str) -> (r: &'a str)
    ensures
        r@ == without_prefix(s@, prefix@),
{
    let chars = chars_of(s);
    let expected = chars_of(prefix);
    if expected.len() > chars.len() {
        return s;
    }
    let mut i: usize = 0;
    while i < expected.len()
        invariant
            i <= expected@.len() <= chars@.len(),
            chars@ == s@,
            expected@ == prefix@,
            forall|j: int| 0 <= j < i ==> s@[j] == prefix@[j],
        decreases expected@.len() - i,
    {
        if chars[i] != expected[i] {
            assert(s@.subrange(0, prefix@.len() as int)[i as int] != prefix@[i as int]);
            return s;
        }
        i = i + 1;
    }
    assert(prefix@ =~= s@.subrange(0, prefix@.len() as int));
    assert(s@.subrange(i as int, s@.len() as int) =~= s@.skip(i as int));
    s.substring_char(i, chars.len())
}

/// What stands before and after the first `c` in `s`, if there is one.
pub fn split_at_first<'a>(s: &'a str, c: char) -> (r: Option<(&'a str, &'a str)>)
    ensures
        match r {
            Some(parts) => split_once(s@, c) == Some((parts.0@, parts.1@)),
            None => split_once(s@, c) is None,
        },
{
    let chars = chars_of(s);
    let mut i: usize = 0;
    proof {
        s@.index_of_first_ensures(c);
    }
    while i < chars.len()
        invariant
            i <= chars@.len(),
            chars@ == s@,
            forall|j: int| 0 <= j < i ==> s@[j] != c,
            match s@.index_of_first(c) {
                Some(k) => 0 <= k < s@.len() && s@[k] == c && (forall|j: int|
                    0 <= j < k ==> s@[j] != c),
                None => !s@.contains(c),
            },
        decreases chars@.len() - i,
    {
        if chars[i] == c {
            assert(s@[i as int] == c);
            assert(s@.contains(c));
            assert(s@.index_of_first(c) == Some(i as int));
            assert(s@.subrange(0, i as int) =~= s@.take(i as int));
            assert(s@.subrange(i + 1, s@.len() as int) =~= s@.skip(i + 1));
            return Some((s.substring_char(0, i), s.substring_char(i + 1, chars.len())));
        }
        i = i + 1;
    }
    None
}

/// Trimming text that has no covered character at its ends changes nothing.
pub proof fn lemma_trim_keeps(s: Seq<char>, p: Pattern)
    requires
        s.len() > 0 ==> !p.covers(s.first()) && !p.covers(s.last()),
    ensures
        trim(s, p) == s,
        trim_end(s, p) == s,
        trim_start(s, p) == s,
{
}

/// No covered character is left at the end of a trimmed text.
pub proof fn lemma_trim_end_done(s: Seq<char>, p: Pattern)
    ensures
        trim_end(s, p).len() > 0 ==> !p.covers(trim_end(s, p).last()),
        trim_end(s, p).is_prefix_of(s),
        trim_end(trim_end(s, p), p) == trim_end(s, p),
    decreases s.len(),
{
    if s.len() > 0 && p.covers(s.last()) {
        lemma_trim_end_done(s.drop_last(), p);
    }
}

/// A covered character more at the end makes no difference to a trimmed text.
pub proof fn lemma_trim_end_push(s: Seq<char>, c: char, p: Pattern)
    requires
        p.covers(c),
    ensures
        trim_end(s.push(c), p) == trim_end(s, p),
{
    assert(s.push(c).drop_last() =~= s);
}

/// A text between two covered characters is found again by trimming, if it has none at its
/// own ends.
pub proof fn lemma_trim_enclosed(s: Seq<char>, c: char, p: Pattern)
    requires
        p.covers(c),
        s.len() > 0,
        !p.covers(s.first()),
        !p.covers(s.last()),
    ensures
        trim(seq![c] + s + seq![c], p) == s,
{
    let whole = seq![c] + s + seq![c];
    let tail = seq![c] + s;
    assert(whole.drop_last() =~= tail);
    assert(tail.last() == s.last());
    assert(trim_end(whole, p) == trim_end(tail, p));
    assert(trim_end(tail, p) == tail);
    assert(tail.drop_first() =~= s);
    assert(trim_start(tail, p) == trim_start(s, p));
}

} // verus!
