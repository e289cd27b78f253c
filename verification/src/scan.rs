//! Splitting text into lines and whitespace-separated fields.

use vstd::prelude::*;
use vstd::string::*;
use crate::text::{chars_of, lemma_prefix_len, lemma_prefix_len_is, prefix_len, string_from};

verus! {

/// The texts that a list of strings holds.
pub open spec fn texts(v: Seq<String>) -> Seq<Seq<char>> {
    v.map_values(|s: String| s@)
}

/// Whether `c` has the Unicode property `White_Space`.
pub open spec fn is_space(c: char) -> bool {
    let n = c as u32;
    ||| 0x9 <= n <= 0xd
    ||| n == 0x20
    ||| n == 0x85
    ||| n == 0xa0
    ||| n == 0x1680
    ||| 0x2000 <= n <= 0x200a
    ||| n == 0x2028
    ||| n == 0x2029
    ||| n == 0x202f
    ||| n == 0x205f
    ||| n == 0x3000
}

/// The predicate that holds of whitespace.
pub open spec fn blank() -> spec_fn(char) -> bool {
    |c: char| is_space(c)
}

/// The predicate that holds of everything but whitespace.
pub open spec fn solid() -> spec_fn(char) -> bool {
    |c: char| !is_space(c)
}

/// The predicate that holds of everything but `stop`.
pub open spec fn other_than(stop: char) -> spec_fn(char) -> bool {
    |c: char| c != stop
}

/// Tells whether `c` is whitespace.
pub fn char_is_space(c: char) -> (r: bool)
    ensures
        r == is_space(c),
{
    let n: u32 = c as u32;
    (0x9 <= n && n <= 0xd) || n == 0x20 || n == 0x85 || n == 0xa0 || n == 0x1680 || (0x2000 <= n && n
        <= 0x200a) || n == 0x2028 || n == 0x2029 || n == 0x202f || n == 0x205f || n == 0x3000
}

/// `s` without one carriage return at its end.
pub open spec fn without_cr(s: Seq<char>) -> Seq<char> {
    if s.len() > 0 && s.last() == '\r' {
        s.drop_last()
    } else {
        s
    }
}

/// The lines of `s`. A line ends in `"\n"` or `"\r\n"`, and the ending is no part of it. The last
/// line needs no ending; without one, a carriage return at its end belongs to it.
pub open spec fn lines_of(s: Seq<char>) -> Seq<Seq<char>>
    decreases s.len(),
{
    let n = prefix_len(s, other_than('\n'));
    if s.len() == 0 {
        Seq::empty()
    } else if n < s.len() {
        seq![without_cr(s.take(n as int))] + lines_of(s.skip(n as int + 1))
    } else {
        seq![s]
    }
}

/// The lines of `s`, in order.
pub fn lines(s: &str) -> (r: Vec<String>)
    ensures
        texts(r@) == lines_of(s@),
{
    let chars = chars_of(s);
    let mut out: Vec<String> = Vec::new();
    let mut start: usize = 0;
    let mut i: usize = 0;
    assert(s@.skip(0) =~= s@);
    assert(texts(out@) + lines_of(s@) =~= lines_of(s@));
    while i < chars.len()
        invariant
            chars@ == s@,
            start <= i <= chars@.len(),
            texts(out@) + lines_of(s@.skip(start as int)) == lines_of(s@),
            forall|j: int| start <= j < i ==> chars@[j] != '\n',
        decreases chars@.len() - i,
    {
        if chars[i] == '\n' {
            let ghost rest = s@.skip(start as int);
            let ghost before = out@;
            proof {
                lemma_prefix_len_is(rest, other_than('\n'), i - start);
                assert(rest.take(i - start) =~= s@.subrange(start as int, i as int));
                assert(rest.skip(i - start + 1) =~= s@.skip(i + 1));
            }
            let end: usize = if start < i && chars[i - 1] == '\r' {
                i - 1
            } else {
                i
            };
            let line = string_from(&chars, start, end);
            assert(line@ =~= without_cr(rest.take(i - start)));
            out.push(line);
            proof {
                assert(texts(out@) =~= texts(before) + seq![line@]);
                assert(texts(out@) + lines_of(s@.skip(i + 1)) =~= texts(before) + (seq![line@]
                    + lines_of(s@.skip(i + 1))));
            }
            start = i + 1;
        }
        i += 1;
    }
    let ghost rest = s@.skip(start as int);
    if start < chars.len() {
        let ghost before = out@;
        proof {
            lemma_prefix_len_is(rest, other_than('\n'), rest.len() as int);
        }
        let line = string_from(&chars, start, chars.len());
        assert(line@ =~= rest);
        out.push(line);
        assert(texts(out@) =~= texts(before) + seq![line@]);
    } else {
        assert(texts(out@) + lines_of(rest) =~= texts(out@));
    }
    out
}

/// The runs of characters of `s` between whitespace.
pub open spec fn fields_of(s: Seq<char>) -> Seq<Seq<char>>
    decreases s.len(),
{
    let b = prefix_len(s, blank());
    if b < s.len() {
        let t = s.skip(b as int);
        let n = prefix_len(t, solid());
        proof {
            lemma_prefix_len(s, blank());
            lemma_prefix_len(t, solid());
        }
        seq![t.take(n as int)] + fields_of(t.skip(n as int))
    } else {
        Seq::empty()
    }
}

/// The fields of `s` that whitespace separates, in order.
pub fn split_whitespace(s: &str) -> (r: Vec<String>)
    ensures
        texts(r@) == fields_of(s@),
{
    let chars = chars_of(s);
    let mut out: Vec<String> = Vec::new();
    let mut at: usize = 0;
    assert(s@.skip(0) =~= s@);
    assert(texts(out@) + fields_of(s@) =~= fields_of(s@));
    loop
        invariant
            chars@ == s@,
            at <= chars@.len(),
            texts(out@) + fields_of(s@.skip(at as int)) == fields_of(s@),
        decreases chars@.len() - at,
    {
        let ghost rest = s@.skip(at as int);
        let mut from: usize = at;
        while from < chars.len() && char_is_space(chars[from])
            invariant
                chars@ == s@,
                at <= from <= chars@.len(),
                forall|j: int| at <= j < from ==> is_space(#[trigger] chars@[j]),
            decreases chars@.len() - from,
        {
            from += 1;
        }
        proof {
            lemma_prefix_len_is(rest, blank(), from - at);
        }
        if from == chars.len() {
            assert(texts(out@) + fields_of(rest) =~= texts(out@));
            return out;
        }
        let mut to: usize = from;
        while to < chars.len() && !char_is_space(chars[to])
            invariant
                chars@ == s@,
                from <= to <= chars@.len(),
                forall|j: int| from <= j < to ==> !is_space(#[trigger] chars@[j]),
            decreases chars@.len() - to,
        {
            to += 1;
        }
        let ghost t = rest.skip(from - at);
        let ghost before = out@;
        proof {
            assert(t =~= s@.skip(from as int));
            lemma_prefix_len_is(t, solid(), to - from);
            assert(t.take(to - from) =~= s@.subrange(from as int, to as int));
            assert(t.skip(to - from) =~= s@.skip(to as int));
        }
        let field = string_from(&chars, from, to);
        out.push(field);
        proof {
            assert(texts(out@) =~= texts(before) + seq![field@]);
            assert(texts(out@) + fields_of(s@.skip(to as int)) =~= texts(before) + (seq![field@]
                + fields_of(s@.skip(to as int))));
        }
        at = to;
    }
}

/// `s` without the whitespace at its start and at its end.
pub open spec fn trimmed(s: Seq<char>) -> Seq<char> {
    let t = s.skip(prefix_len(s, blank()) as int);
    t.take(t.len() - prefix_len(t.reverse(), blank()))
}

/// Takes the whitespace off both ends of `s`.
pub fn trim(s: &str) -> (r: String)
    ensures
        r@ == trimmed(s@),
{
    let chars = chars_of(s);
    let mut from: usize = 0;
    while from < chars.len() && char_is_space(chars[from])
        invariant
            chars@ == s@,
            from <= chars@.len(),
            forall|j: int| 0 <= j < from ==> is_space(#[trigger] chars@[j]),
        decreases chars@.len() - from,
    {
        from += 1;
    }
    let mut to: usize = chars.len();
    while from < to && char_is_space(chars[to - 1])
        invariant
            chars@ == s@,
            from <= to <= chars@.len(),
            forall|j: int| to <= j < chars@.len() ==> is_space(#[trigger] chars@[j]),
        decreases to - from,
    {
        to -= 1;
    }
    proof {
        lemma_prefix_len_is(s@, blank(), from as int);
        let t = s@.skip(from as int);
        let back = t.reverse();
        assert forall|j: int| 0 <= j < s@.len() - to implies is_space(#[trigger] back[j]) by {
            assert(back[j] == s@[s@.len() - 1 - j]);
        }
        lemma_prefix_len_is(back, blank(), s@.len() - to);
        assert(trimmed(s@) =~= s@.subrange(from as int, to as int));
    }
    string_from(&chars, from, to)
}

/// Whether `s` begins with `prefix`.
pub open spec fn begins_with(s: Seq<char>, prefix: Seq<char>) -> bool {
    prefix.len() <= s.len() && s.take(prefix.len() as int) == prefix
}

/// What follows `prefix` in `s`, if `s` begins with it.
pub fn strip_prefix(s: &str, prefix: &str) -> (r: Option<String>)
    ensures
        begins_with(s@, prefix@) ==> r is Some && r->0@ == s@.skip(prefix@.len() as int),
        !begins_with(s@, prefix@) ==> r is None,
{
    let chars = chars_of(s);
    let head = chars_of(prefix);
    if head.len() > chars.len() {
        return None;
    }
    let mut i: usize = 0;
    while i < head.len()
        invariant
            chars@ == s@,
            head@ == prefix@,
            i <= head@.len() <= chars@.len(),
            forall|j: int| 0 <= j < i ==> chars@[j] == head@[j],
        decreases head@.len() - i,
    {
        if chars[i] != head[i] {
            assert(s@.take(prefix@.len() as int)[i as int] != prefix@[i as int]);
            return None;
        }
        i += 1;
    }
    assert(s@.take(prefix@.len() as int) =~= prefix@);
    assert(s@.skip(prefix@.len() as int) =~= s@.subrange(prefix@.len() as int, s@.len() as int));
    Some(string_from(&chars, head.len(), chars.len()))
}

/// The parts of `s` before and after its first `sep`, if it holds one.
pub fn split_once<'a>(s: &'a str, sep: char) -> (r: Option<(&'a str, &'a str)>)
    ensures
        s@.contains(sep) <==> r is Some,
        r matches Some((before, after)) ==> s@ == before@ + seq![sep] + after@ && !before@.contains(
            sep,
        ),
{
    let chars = chars_of(s);
    let mut i: usize = 0;
    while i < chars.len()
        invariant
            chars@ == s@,
            i <= chars@.len(),
            forall|j: int| 0 <= j < i ==> chars@[j] != sep,
        decreases chars@.len() - i,
    {
        if chars[i] == sep {
            let before = s.substring_char(0, i);
            let after = s.substring_char(i + 1, chars.len());
            assert(s@ =~= before@ + seq![sep] + after@);
            assert(s@[i as int] == sep);
            return Some((before, after));
        }
        i += 1;
    }
    None
}

/// The first `limit` characters of `s`, or all of them if it has fewer.
pub open spec fn clipped(s: Seq<char>, limit: nat) -> Seq<char> {
    if s.len() <= limit {
        s
    } else {
        s.take(limit as int)
    }
}

/// Cuts `s` after its first `limit` characters.
pub fn clip(s: &str, limit: usize) -> (r: String)
    ensures
        r@ == clipped(s@, limit as nat),
{
    let chars = chars_of(s);
    let end: usize = if chars.len() <= limit {
        chars.len()
    } else {
        limit
    };
    assert(clipped(s@, limit as nat) =~= s@.subrange(0, end as int));
    string_from(&chars, 0, end)
}

/// The texts of a list of strings are theirs, one by one.
pub proof fn texts_are_those_of_the_strings(v: Seq<String>)
    ensures
        texts(v).len() == v.len(),
        forall|i: int| 0 <= i < v.len() ==> #[trigger] texts(v)[i] == v[i]@,
{
}

/// A list of lines, each with its ending, put together.
pub open spec fn put_together(lines: Seq<Seq<char>>, endings: Seq<Seq<char>>) -> Seq<char>
    decreases lines.len(),
{
    if lines.len() == 0 {
        Seq::empty()
    } else {
        lines[0] + endings[0] + put_together(lines.drop_first(), endings.drop_first())
    }
}

/// Whether each ending is a newline, with or without a carriage return before it, or nothing after a
/// last line that is not empty. A line that ends in a bare newline does not end in a carriage return.
pub open spec fn are_endings(lines: Seq<Seq<char>>, endings: Seq<Seq<char>>) -> bool {
    &&& endings.len() == lines.len()
    &&& forall|i: int|
        0 <= i < lines.len() ==> {
            let e = #[trigger] endings[i];
            ||| e == seq!['\r', '\n']
            ||| e == seq!['\n'] && !(lines[i].len() > 0 && lines[i].last() == '\r')
            ||| e.len() == 0 && i == lines.len() - 1 && lines[i].len() > 0
        }
}

/// A text is its lines with their endings, and no line holds a newline.
pub proof fn lines_make_up_the_text(s: Seq<char>) -> (endings: Seq<Seq<char>>)
    ensures
        are_endings(lines_of(s), endings),
        put_together(lines_of(s), endings) == s,
        forall|i: int| 0 <= i < lines_of(s).len() ==> !(#[trigger] lines_of(s)[i]).contains('\n'),
    decreases s.len(),
{
    let p = other_than('\n');
    let n = prefix_len(s, p) as int;
    lemma_prefix_len(s, p);
    if s.len() == 0 {
        Seq::empty()
    } else if n < s.len() {
        let rest = s.skip(n + 1);
        let more = lines_make_up_the_text(rest);
        let line = without_cr(s.take(n));
        let e = if n > 0 && s[n - 1] == '\r' {
            seq!['\r', '\n']
        } else {
            seq!['\n']
        };
        let endings = seq![e] + more;
        let all = lines_of(s);
        assert(s[n] == '\n');
        assert(all == seq![line] + lines_of(rest));
        assert(all.drop_first() =~= lines_of(rest));
        assert(endings.drop_first() =~= more);
        assert(line + e + rest =~= s);
        assert(put_together(all, endings) == all[0] + endings[0] + put_together(
            all.drop_first(),
            endings.drop_first(),
        ));
        assert forall|i: int| 0 <= i < all.len() implies {
            let e = #[trigger] endings[i];
            ||| e == seq!['\r', '\n']
            ||| e == seq!['\n'] && !(all[i].len() > 0 && all[i].last() == '\r')
            ||| e.len() == 0 && i == all.len() - 1 && all[i].len() > 0
        } by {
            if i > 0 {
                assert(endings[i] == more[i - 1]);
                assert(all[i] == lines_of(rest)[i - 1]);
            } else {
                if n > 0 && s[n - 1] != '\r' {
                    assert(line == s.take(n));
                    assert(line.last() == s[n - 1]);
                }
            }
        }
        assert forall|i: int| 0 <= i < all.len() implies !(#[trigger] all[i]).contains('\n') by {
            if i > 0 {
                assert(all[i] == lines_of(rest)[i - 1]);
            } else {
                assert forall|k: int| 0 <= k < line.len() implies line[k] != '\n' by {
                    assert(line[k] == s[k]);
                    assert(p(s[k]));
                }
            }
        }
        endings
    } else {
        let endings = seq![Seq::<char>::empty()];
        let all = lines_of(s);
        assert(all == seq![s]);
        assert(all.drop_first() =~= Seq::<Seq<char>>::empty());
        assert(put_together(all, endings) == all[0] + endings[0] + put_together(
            all.drop_first(),
            endings.drop_first(),
        ));
        assert(put_together(all, endings) =~= s);
        assert forall|k: int| 0 <= k < s.len() implies s[k] != '\n' by {
            assert(p(s[k]));
        }
        endings
    }
}

/// A text is its fields with whitespace between them: `gaps` stand before the fields, and one is left
/// over for the end. Only the first and the last gap may be empty.
pub open spec fn spaced_out(fields: Seq<Seq<char>>, gaps: Seq<Seq<char>>) -> Seq<char>
    decreases fields.len(),
{
    if fields.len() == 0 {
        gaps[0]
    } else {
        gaps[0] + fields[0] + spaced_out(fields.drop_first(), gaps.drop_first())
    }
}

/// The fields of a text are all there is in it but whitespace: they are not empty, hold no
/// whitespace, and stand in their order with some between any two.
pub proof fn fields_make_up_the_text(s: Seq<char>) -> (gaps: Seq<Seq<char>>)
    ensures
        gaps.len() == fields_of(s).len() + 1,
        spaced_out(fields_of(s), gaps) == s,
        forall|i: int, k: int|
            0 <= i < gaps.len() && 0 <= k < gaps[i].len() ==> is_space(#[trigger] gaps[i][k]),
        forall|i: int| 0 < i < gaps.len() - 1 ==> (#[trigger] gaps[i]).len() > 0,
        forall|i: int| 0 <= i < fields_of(s).len() ==> (#[trigger] fields_of(s)[i]).len() > 0,
        forall|i: int, k: int|
            0 <= i < fields_of(s).len() && 0 <= k < fields_of(s)[i].len() ==> !is_space(
                #[trigger] fields_of(s)[i][k],
            ),
    decreases s.len(),
{
    let a = prefix_len(s, blank()) as int;
    lemma_prefix_len(s, blank());
    let t = s.skip(a);
    let b = prefix_len(t, solid()) as int;
    lemma_prefix_len(t, solid());
    let lead = s.take(a);
    assert forall|k: int| 0 <= k < a implies is_space(#[trigger] lead[k]) by {
        assert(blank()(s[k]));
    }
    if t.len() == 0 {
        assert(fields_of(s).len() == 0);
        assert(lead =~= s);
        seq![s]
    } else {
        assert(t[0] == s[a]);
        assert(!blank()(s[a]));
        assert(b > 0) by {
            if b == 0 {
                assert(!solid()(t[0]));
            }
        }
        let rest = t.skip(b);
        let more = fields_make_up_the_text(rest);
        let field = t.take(b);
        let all = fields_of(s);
        let gaps = seq![lead] + more;
        assert(all == seq![field] + fields_of(rest));
        assert(all.drop_first() =~= fields_of(rest));
        assert(gaps.drop_first() =~= more);
        assert(lead + field + rest =~= s);
        assert(spaced_out(all, gaps) == gaps[0] + all[0] + spaced_out(
            all.drop_first(),
            gaps.drop_first(),
        ));
        assert forall|i: int, k: int| 0 <= i < gaps.len() && 0 <= k < gaps[i].len() implies is_space(
            #[trigger] gaps[i][k],
        ) by {
            if i > 0 {
                assert(gaps[i] == more[i - 1]);
                assert(is_space(more[i - 1][k]));
            } else {
                assert(is_space(lead[k]));
            }
        }
        assert forall|i: int| 0 < i < gaps.len() - 1 implies (#[trigger] gaps[i]).len() > 0 by {
            assert(gaps[i] == more[i - 1]);
            if i == 1 {
                lemma_gap_after_field(t, rest, more);
            }
        }
        assert forall|i: int| 0 <= i < all.len() implies (#[trigger] all[i]).len() > 0 by {
            if i > 0 {
                assert(all[i] == fields_of(rest)[i - 1]);
            }
        }
        assert forall|i: int, k: int| 0 <= i < all.len() && 0 <= k < all[i].len() implies !is_space(
            #[trigger] all[i][k],
        ) by {
            if i > 0 {
                assert(all[i] == fields_of(rest)[i - 1]);
                assert(!is_space(fields_of(rest)[i - 1][k]));
            } else {
                assert(field[k] == t[k]);
                assert(solid()(t[k]));
            }
        }
        gaps
    }
}

proof fn lemma_gap_after_field(t: Seq<char>, rest: Seq<char>, gaps: Seq<Seq<char>>)
    requires
        rest == t.skip(prefix_len(t, solid()) as int),
        gaps.len() == fields_of(rest).len() + 1,
        fields_of(rest).len() > 0,
        spaced_out(fields_of(rest), gaps) == rest,
        fields_of(rest)[0].len() > 0,
        forall|k: int| 0 <= k < fields_of(rest)[0].len() ==> !is_space(#[trigger] fields_of(rest)[0][k]),
    ensures
        gaps[0].len() > 0,
{
    lemma_prefix_len(t, solid());
    let b = prefix_len(t, solid()) as int;
    let fields = fields_of(rest);
    if gaps[0].len() == 0 {
        assert(spaced_out(fields, gaps) == gaps[0] + fields[0] + spaced_out(
            fields.drop_first(),
            gaps.drop_first(),
        ));
        assert(rest[0] == fields[0][0]);
        assert(rest[0] == t[b]);
        assert(!solid()(t[b]));
        assert(is_space(t[b]));
        assert(!is_space(fields[0][0]));
    }
}

/// Trimming takes whitespace off the ends and nothing else, and leaves none at the ends.
pub proof fn trimming_takes_off_just_the_ends(s: Seq<char>) -> (ends: (Seq<char>, Seq<char>))
    ensures
        s == ends.0 + trimmed(s) + ends.1,
        forall|i: int| 0 <= i < ends.0.len() ==> is_space(#[trigger] ends.0[i]),
        forall|i: int| 0 <= i < ends.1.len() ==> is_space(#[trigger] ends.1[i]),
        trimmed(s).len() > 0 ==> !is_space(trimmed(s)[0]) && !is_space(trimmed(s).last()),
{
    let a = prefix_len(s, blank()) as int;
    lemma_prefix_len(s, blank());
    let t = s.skip(a);
    let back = t.reverse();
    let b = prefix_len(back, blank()) as int;
    lemma_prefix_len(back, blank());
    let left = s.take(a);
    let right = t.skip(t.len() - b);
    let middle = trimmed(s);
    assert(middle == t.take(t.len() - b));
    assert(s =~= left + middle + right);
    assert forall|i: int| 0 <= i < left.len() implies is_space(#[trigger] left[i]) by {
        assert(blank()(s[i]));
    }
    assert forall|i: int| 0 <= i < right.len() implies is_space(#[trigger] right[i]) by {
        let k = b - 1 - i;
        assert(back[k] == t[t.len() - 1 - k]);
        assert(blank()(back[k]));
        assert(right[i] == t[t.len() - b + i]);
    }
    if middle.len() > 0 {
        assert(middle[0] == s[a]);
        assert(!blank()(s[a]));
        assert(back[b] == t[t.len() - 1 - b]);
        assert(!blank()(back[b]));
        assert(middle.last() == t[t.len() - b - 1]);
    }
    (left, right)
}

/// A text begins with a prefix exactly if it is the prefix and something after it.
pub proof fn beginning_is_followed_by_the_rest(s: Seq<char>, prefix: Seq<char>)
    ensures
        begins_with(s, prefix) ==> s == prefix + s.skip(prefix.len() as int),
        forall|rest: Seq<char>| s == #[trigger] (prefix + rest) ==> begins_with(s, prefix),
{
    if begins_with(s, prefix) {
        assert(s =~= prefix + s.skip(prefix.len() as int));
    }
    assert forall|rest: Seq<char>| s == #[trigger] (prefix + rest) implies begins_with(s, prefix) by {
        assert(s.take(prefix.len() as int) =~= prefix);
    }
}

/// Cutting a text keeps its start: as many characters as allowed, or all if there are no more.
pub proof fn cutting_keeps_the_start(s: Seq<char>, limit: nat)
    ensures
        clipped(s, limit).len() == if s.len() < limit {
            s.len()
        } else {
            limit
        },
        forall|i: int| 0 <= i < clipped(s, limit).len() ==> #[trigger] clipped(s, limit)[i] == s[i],
{
}

} // verus!
