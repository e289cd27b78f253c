//! Plain text operations over strings seen as sequences of characters.

use vstd::prelude::*;
use vstd::string::*;

verus! {

/// `String::push` of the standard library: the character goes to the end of the string and
/// nothing else changes.
pub assume_specification[ String::push ](s: &mut String, c: char)
    ensures
        final(s)@ == old(s)@.push(c),
;

/// `s` with every character replaced by the text that `f` gives for it.
pub open spec fn expand(s: Seq<char>, f: spec_fn(char) -> Seq<char>) -> Seq<char>
    decreases s.len(),
{
    if s.len() == 0 {
        Seq::empty()
    } else {
        expand(s.drop_last(), f) + f(s.last())
    }
}

/// The characters of `s`, in order.
pub fn chars_of(s: &str) -> (r: Vec<char>)
    ensures
        r@ == s@,
{
    let mut out: Vec<char> = Vec::new();
    for c in it: s.chars()
        invariant
            it.seq() == s@,
            out@ == s@.take(it.index()),
    {
        out.push(c);
        assert(s@.take(it.index() + 1) =~= s@.take(it.index()).push(c));
    }
    assert(s@.take(s@.len() as int) =~= s@);
    out
}

/// The characters `from..to` of `chars` as a string.
pub fn string_from(chars: &Vec<char>, from: usize, to: usize) -> (r: String)
    requires
        from <= to <= chars@.len(),
    ensures
        r@ == chars@.subrange(from as int, to as int),
{
    let mut out = String::new();
    let mut i: usize = from;
    while i < to
        invariant
            from <= i <= to <= chars@.len(),
            out@ == chars@.subrange(from as int, i as int),
        decreases to - i,
    {
        out.push(chars[i]);
        assert(chars@.subrange(from as int, i + 1) =~= chars@.subrange(from as int, i as int).push(
            chars@[i as int],
        ));
        i += 1;
    }
    out
}

/// Whether two strings hold the same characters.
pub fn same_text(a: &str, b: &str) -> (r: bool)
    ensures
        r == (a@ == b@),
{
    let x = chars_of(a);
    let y = chars_of(b);
    if x.len() != y.len() {
        return false;
    }
    let mut i: usize = 0;
    while i < x.len()
        invariant
            x@ == a@,
            y@ == b@,
            x@.len() == y@.len(),
            i <= x@.len(),
            forall|j: int| 0 <= j < i ==> x@[j] == y@[j],
        decreases x@.len() - i,
    {
        if x[i] != y[i] {
            assert(a@[i as int] != b@[i as int]);
            return false;
        }
        i += 1;
    }
    assert(a@ =~= b@);
    true
}

/// `s` with every `from` replaced by the text `to`.
pub open spec fn replaced(s: Seq<char>, from: char, to: Seq<char>) -> Seq<char> {
    expand(s, replacement(from, to))
}

/// What `replaced` puts in the place of each character.
pub open spec fn replacement(from: char, to: Seq<char>) -> spec_fn(char) -> Seq<char> {
    |c: char| if c == from { to } else { seq![c] }
}

/// Replaces every `from` in `s` by `to`.
pub fn replace_char(s: &str, from: char, to: &str) -> (r: String)
    ensures
        r@ == replaced(s@, from, to@),
{
    let chars = chars_of(s);
    let mut out = String::new();
    let ghost f = replacement(from, to@);
    let mut i: usize = 0;
    while i < chars.len()
        invariant
            chars@ == s@,
            f == replacement(from, to@),
            i <= chars@.len(),
            out@ == expand(s@.take(i as int), f),
        decreases chars@.len() - i,
    {
        let c = chars[i];
        assert(s@.take(i + 1).drop_last() =~= s@.take(i as int));
        if c == from {
            out.append(to);
        } else {
            out.push(c);
            assert(expand(s@.take(i as int), f).push(c) =~= expand(s@.take(i as int), f) + seq![c]);
        }
        i += 1;
    }
    assert(s@.take(s@.len() as int) =~= s@);
    out
}

/// Replacing a character that does not occur changes nothing.
pub proof fn lemma_replaced_absent(s: Seq<char>, from: char, to: Seq<char>)
    requires
        !s.contains(from),
    ensures
        replaced(s, from, to) == s,
    decreases s.len(),
{
    if s.len() > 0 {
        let rest = s.drop_last();
        assert(s[s.len() - 1] != from);
        assert forall|i: int| 0 <= i < rest.len() implies rest[i] != from by {
            assert(rest[i] == s[i]);
        }
        lemma_replaced_absent(rest, from, to);
        assert(replaced(s, from, to) =~= s);
    } else {
        assert(replaced(s, from, to) =~= s);
    }
}

/// Replacing a character that occurs once puts the other text in its place.
pub proof fn lemma_replaced_once(before: Seq<char>, from: char, after: Seq<char>, to: Seq<char>)
    requires
        !before.contains(from),
        !after.contains(from),
    ensures
        replaced(before + seq![from] + after, from, to) == before + to + after,
{
    let f = replacement(from, to);
    lemma_expand_concat(before + seq![from], after, f);
    lemma_expand_concat(before, seq![from], f);
    lemma_replaced_absent(before, from, to);
    lemma_replaced_absent(after, from, to);
    assert(seq![from].drop_last() =~= Seq::<char>::empty());
    assert(expand(seq![from], f) =~= to) by {
        reveal_with_fuel(expand, 2);
    }
}

/// Expanding a concatenation expands its two parts.
pub proof fn lemma_expand_concat(a: Seq<char>, b: Seq<char>, f: spec_fn(char) -> Seq<char>)
    ensures
        expand(a + b, f) == expand(a, f) + expand(b, f),
    decreases b.len(),
{
    if b.len() == 0 {
        assert(a + b =~= a);
        assert(expand(a, f) + expand(b, f) =~= expand(a, f));
    } else {
        lemma_expand_concat(a, b.drop_last(), f);
        assert((a + b).drop_last() =~= a + b.drop_last());
        assert(expand(a + b, f) =~= expand(a, f) + expand(b, f));
    }
}

/// Expanding by `f` and then by `g` expands each character by `f` and that text by `g`.
pub proof fn lemma_expand_twice(
    s: Seq<char>,
    f: spec_fn(char) -> Seq<char>,
    g: spec_fn(char) -> Seq<char>,
    h: spec_fn(char) -> Seq<char>,
)
    requires
        forall|c: char| #[trigger] h(c) == expand(f(c), g),
    ensures
        expand(expand(s, f), g) == expand(s, h),
    decreases s.len(),
{
    if s.len() > 0 {
        lemma_expand_twice(s.drop_last(), f, g, h);
        lemma_expand_concat(expand(s.drop_last(), f), f(s.last()), g);
        assert(h(s.last()) == expand(f(s.last()), g));
    }
}

/// `c` in lowercase if it is one of the letters A to Z, else `c` itself.
pub open spec fn lower_char(c: char) -> char {
    if 'A' <= c <= 'Z' {
        ((c as u8 + 32) as u8) as char
    } else {
        c
    }
}

/// `s` with the letters A to Z in lowercase.
pub open spec fn lowered(s: Seq<char>) -> Seq<char> {
    s.map_values(|c: char| lower_char(c))
}

/// Puts the letters A to Z of `s` in lowercase.
pub fn lower_ascii(s: &str) -> (r: String)
    ensures
        r@ == lowered(s@),
{
    let chars = chars_of(s);
    let mut out = String::new();
    let mut i: usize = 0;
    while i < chars.len()
        invariant
            chars@ == s@,
            i <= chars@.len(),
            out@ == lowered(s@.take(i as int)),
        decreases chars@.len() - i,
    {
        let c = chars[i];
        let low: char = if 'A' <= c && c <= 'Z' {
            (c as u8 + 32) as char
        } else {
            c
        };
        out.push(low);
        assert(lowered(s@.take(i + 1)) =~= lowered(s@.take(i as int)).push(lower_char(c)));
        i += 1;
    }
    assert(s@.take(s@.len() as int) =~= s@);
    out
}

/// How many leading characters of `s` satisfy `p`.
pub open spec fn prefix_len(s: Seq<char>, p: spec_fn(char) -> bool) -> nat
    decreases s.len(),
{
    if s.len() > 0 && p(s[0]) {
        1 + prefix_len(s.drop_first(), p)
    } else {
        0
    }
}

/// The leading characters that `prefix_len` counts satisfy `p`, and the next one does not.
pub proof fn lemma_prefix_len(s: Seq<char>, p: spec_fn(char) -> bool)
    ensures
        prefix_len(s, p) <= s.len(),
        forall|j: int| 0 <= j < prefix_len(s, p) ==> p(#[trigger] s[j]),
        prefix_len(s, p) < s.len() ==> !p(s[prefix_len(s, p) as int]),
    decreases s.len(),
{
    if s.len() > 0 && p(s[0]) {
        lemma_prefix_len(s.drop_first(), p);
        assert forall|j: int| 0 <= j < prefix_len(s, p) implies p(#[trigger] s[j]) by {
            if j > 0 {
                assert(p(s.drop_first()[j - 1]));
            }
        }
    }
}

/// Only one number of leading characters can be the longest that satisfies `p`.
pub proof fn lemma_prefix_len_is(s: Seq<char>, p: spec_fn(char) -> bool, k: int)
    requires
        0 <= k <= s.len(),
        forall|j: int| 0 <= j < k ==> p(#[trigger] s[j]),
        k < s.len() ==> !p(s[k]),
    ensures
        prefix_len(s, p) == k,
{
    lemma_prefix_len(s, p);
    let n = prefix_len(s, p) as int;
    if n < k {
        assert(p(s[n]));
    }
    if k < n {
        assert(p(s[k]));
    }
}

/// Replacing goes character by character: each `from` becomes the other text, and every other
/// character stays.
pub proof fn replacing_goes_character_by_character(
    a: Seq<char>,
    b: Seq<char>,
    c: char,
    from: char,
    to: Seq<char>,
)
    ensures
        replaced(a + b, from, to) == replaced(a, from, to) + replaced(b, from, to),
        replaced(seq![from], from, to) == to,
        c != from ==> replaced(seq![c], from, to) == seq![c],
        replaced(Seq::empty(), from, to) == Seq::<char>::empty(),
{
    lemma_expand_concat(a, b, replacement(from, to));
    let none = Seq::<char>::empty();
    lemma_replaced_once(none, from, none, to);
    assert(none + seq![from] + none =~= seq![from]);
    assert(none + to + none =~= to);
    if c != from {
        lemma_replaced_absent(seq![c], from, to);
    }
}

/// Lowercase keeps the place of every character, moves the letters A to Z to a to z, and changes no
/// other.
pub proof fn lowercase_moves_just_the_capital_letters(s: Seq<char>, i: int)
    requires
        0 <= i < s.len(),
    ensures
        lowered(s).len() == s.len(),
        'A' <= s[i] <= 'Z' ==> lowered(s)[i] as u32 == s[i] as u32 + 32,
        !('A' <= s[i] <= 'Z') ==> lowered(s)[i] == s[i],
{
}

} // verus!
