//! Escaping text for JSON strings and for Python string literals.

use vstd::prelude::*;
use vstd::string::*;
use crate::text::{expand, lemma_expand_concat, lemma_expand_twice, replace_char, replacement};

verus! {

/// What stands for `c` in a JSON string.
pub open spec fn json_char(c: char) -> Seq<char> {
    if c == '\\' {
        seq!['\\', '\\']
    } else if c == '"' {
        seq!['\\', '"']
    } else if c == '\n' {
        seq!['\\', 'n']
    } else if c == '\r' {
        seq!['\\', 'r']
    } else if c == '\t' {
        seq!['\\', 't']
    } else {
        seq![c]
    }
}

/// `s` as it stands between the quotes of a JSON string.
pub open spec fn json_escaped(s: Seq<char>) -> Seq<char> {
    expand(s, |c: char| json_char(c))
}

/// What stands for `c` in a Python literal between single quotes.
pub open spec fn python_char(c: char) -> Seq<char> {
    if c == '\\' {
        seq!['\\', '\\']
    } else if c == '\'' {
        seq!['\\', '\'']
    } else if c == '\n' {
        seq!['\\', 'n']
    } else {
        seq![c]
    }
}

/// `s` as it stands in a Python literal between single quotes.
pub open spec fn python_escaped(s: Seq<char>) -> Seq<char> {
    expand(s, |c: char| python_char(c))
}

proof fn lemma_expand_short(a: char, b: char, f: spec_fn(char) -> Seq<char>)
    ensures
        expand(seq![a], f) == f(a),
        expand(seq![a, b], f) == f(a) + f(b),
{
    reveal_with_fuel(expand, 3);
    assert(seq![a].drop_last() =~= Seq::<char>::empty());
    assert(seq![a, b].drop_last() =~= seq![a]);
    assert(expand(seq![a], f) =~= f(a));
    assert(expand(seq![a, b], f) =~= f(a) + f(b));
}

/// Escapes a string for embedding in JSON: backslashes, quotes, newlines, carriage returns and
/// tabs.
pub fn json_escape(s: &str) -> (r: String)
    ensures
        r@ == json_escaped(s@),
{
    let a = replace_char(s, '\\', "\\\\");
    let b = replace_char(a.as_str(), '"', "\\\"");
    let c = replace_char(b.as_str(), '\n', "\\n");
    let d = replace_char(c.as_str(), '\r', "\\r");
    let r = replace_char(d.as_str(), '\t', "\\t");
    proof {
        reveal_strlit("\\\\");
        reveal_strlit("\\\"");
        reveal_strlit("\\n");
        reveal_strlit("\\r");
        reveal_strlit("\\t");
        assert("\\\\"@ =~= seq!['\\', '\\']);
        assert("\\\""@ =~= seq!['\\', '"']);
        assert("\\n"@ =~= seq!['\\', 'n']);
        assert("\\r"@ =~= seq!['\\', 'r']);
        assert("\\t"@ =~= seq!['\\', 't']);
        let f1 = replacement('\\', "\\\\"@);
        let f2 = replacement('"', "\\\""@);
        let f3 = replacement('\n', "\\n"@);
        let f4 = replacement('\r', "\\r"@);
        let f5 = replacement('\t', "\\t"@);
        let h2 = |c: char| if c == '\\' || c == '"' { json_char(c) } else { seq![c] };
        let h3 = |c: char| if c == '\\' || c == '"' || c == '\n' { json_char(c) } else { seq![c] };
        let h4 = |c: char|
            if c == '\\' || c == '"' || c == '\n' || c == '\r' {
                json_char(c)
            } else {
                seq![c]
            };
        let h5 = |c: char| json_char(c);
        assert forall|c: char| #[trigger] h2(c) == expand(f1(c), f2) by {
            lemma_expand_short(c, c, f2);
            lemma_expand_short('\\', '\\', f2);
        }
        lemma_expand_twice(s@, f1, f2, h2);
        assert forall|c: char| #[trigger] h3(c) == expand(h2(c), f3) by {
            lemma_expand_short(c, c, f3);
            lemma_expand_short('\\', c, f3);
        }
        lemma_expand_twice(s@, h2, f3, h3);
        assert forall|c: char| #[trigger] h4(c) == expand(h3(c), f4) by {
            lemma_expand_short(c, c, f4);
            lemma_expand_short('\\', c, f4);
            lemma_expand_short('\\', 'n', f4);
        }
        lemma_expand_twice(s@, h3, f4, h4);
        assert forall|c: char| #[trigger] h5(c) == expand(h4(c), f5) by {
            lemma_expand_short(c, c, f5);
            lemma_expand_short('\\', c, f5);
            lemma_expand_short('\\', 'n', f5);
            lemma_expand_short('\\', 'r', f5);
        }
        lemma_expand_twice(s@, h4, f5, h5);
    }
    r
}

/// Escapes a string for a Python literal between single quotes: backslashes, single quotes and
/// newlines.
pub fn python_escape(s: &str) -> (r: String)
    ensures
        r@ == python_escaped(s@),
{
    let a = replace_char(s, '\\', "\\\\");
    let b = replace_char(a.as_str(), '\'', "\\'");
    let r = replace_char(b.as_str(), '\n', "\\n");
    proof {
        reveal_strlit("\\\\");
        reveal_strlit("\\'");
        reveal_strlit("\\n");
        assert("\\\\"@ =~= seq!['\\', '\\']);
        assert("\\'"@ =~= seq!['\\', '\'']);
        assert("\\n"@ =~= seq!['\\', 'n']);
        let f1 = replacement('\\', "\\\\"@);
        let f2 = replacement('\'', "\\'"@);
        let f3 = replacement('\n', "\\n"@);
        let h2 = |c: char| if c == '\\' || c == '\'' { python_char(c) } else { seq![c] };
        let h3 = |c: char| python_char(c);
        assert forall|c: char| #[trigger] h2(c) == expand(f1(c), f2) by {
            lemma_expand_short(c, c, f2);
            lemma_expand_short('\\', '\\', f2);
        }
        lemma_expand_twice(s@, f1, f2, h2);
        assert forall|c: char| #[trigger] h3(c) == expand(h2(c), f3) by {
            lemma_expand_short(c, c, f3);
            lemma_expand_short('\\', c, f3);
        }
        lemma_expand_twice(s@, h2, f3, h3);
    }
    r
}

/// Reads an escaped text back. A backslash and the character after it stand for what `meaning`
/// gives, a character that is `plain` stands for itself, and nothing else is allowed.
pub open spec fn unescaped(
    t: Seq<char>,
    meaning: spec_fn(char) -> Option<char>,
    plain: spec_fn(char) -> bool,
) -> Option<Seq<char>>
    decreases t.len(),
{
    if t.len() == 0 {
        Some(Seq::empty())
    } else if t[0] == '\\' {
        if t.len() == 1 {
            None
        } else {
            match (meaning(t[1]), unescaped(t.skip(2), meaning, plain)) {
                (Some(c), Some(rest)) => Some(seq![c] + rest),
                _ => None,
            }
        }
    } else if plain(t[0]) {
        match unescaped(t.skip(1), meaning, plain) {
            Some(rest) => Some(seq![t[0]] + rest),
            None => None,
        }
    } else {
        None
    }
}

proof fn lemma_unescaped(
    s: Seq<char>,
    f: spec_fn(char) -> Seq<char>,
    meaning: spec_fn(char) -> Option<char>,
    plain: spec_fn(char) -> bool,
)
    requires
        forall|i: int|
            0 <= i < s.len() ==> {
                let c = #[trigger] s[i];
                ||| f(c) == seq![c] && c != '\\' && plain(c)
                ||| f(c).len() == 2 && f(c)[0] == '\\' && meaning(f(c)[1]) == Some(c)
            },
    ensures
        unescaped(expand(s, f), meaning, plain) == Some(s),
    decreases s.len(),
{
    if s.len() == 0 {
        assert(s =~= Seq::<char>::empty());
    } else {
        let c = s[0];
        let tail = s.drop_first();
        assert forall|i: int| 0 <= i < tail.len() implies {
            let c = #[trigger] tail[i];
            ||| f(c) == seq![c] && c != '\\' && plain(c)
            ||| f(c).len() == 2 && f(c)[0] == '\\' && meaning(f(c)[1]) == Some(c)
        } by {
            assert(tail[i] == s[i + 1]);
        }
        lemma_unescaped(tail, f, meaning, plain);
        assert(s =~= seq![c] + tail);
        lemma_expand_concat(seq![c], tail, f);
        lemma_expand_short(c, c, f);
        let t = expand(s, f);
        assert(t == f(c) + expand(tail, f));
        assert(f(c).len() == 1 || f(c).len() == 2);
        assert(t.skip(f(c).len() as int) =~= expand(tail, f));
    }
}

/// What a backslash and `c` stand for in a JSON string, of the escapes that `json_escape` writes.
pub open spec fn json_meaning(c: char) -> Option<char> {
    if c == '\\' || c == '"' {
        Some(c)
    } else if c == 'n' {
        Some('\n')
    } else if c == 'r' {
        Some('\r')
    } else if c == 't' {
        Some('\t')
    } else {
        None
    }
}

/// Whether `c` may stand unescaped between the quotes of a JSON string, backslashes aside: JSON
/// allows neither quotes nor control characters there.
pub open spec fn json_plain(c: char) -> bool {
    c != '"' && c as u32 >= 0x20
}

/// Whether `json_escape` makes something of `c` that JSON allows: anything but the control
/// characters that it does not escape.
pub open spec fn json_writable(c: char) -> bool {
    c as u32 >= 0x20 || c == '\n' || c == '\r' || c == '\t'
}

/// Reading a JSON string back gives what was escaped, for every text whose control characters are
/// newlines, carriage returns and tabs. In particular nothing in the escaped text ends the string
/// early or breaks its line.
pub proof fn json_escape_reads_back(s: Seq<char>)
    requires
        forall|i: int| 0 <= i < s.len() ==> json_writable(#[trigger] s[i]),
    ensures
        unescaped(json_escaped(s), |c: char| json_meaning(c), |c: char| json_plain(c)) == Some(s),
{
    let f = |c: char| json_char(c);
    lemma_unescaped(s, f, |c: char| json_meaning(c), |c: char| json_plain(c));
}

/// What a backslash and `c` stand for in a Python literal, of the escapes that `python_escape`
/// writes.
pub open spec fn python_meaning(c: char) -> Option<char> {
    if c == '\\' || c == '\'' {
        Some(c)
    } else if c == 'n' {
        Some('\n')
    } else {
        None
    }
}

/// Whether `c` may stand unescaped in a Python literal between single quotes, backslashes aside:
/// Python allows neither the quote, nor a line break, nor the null character there.
pub open spec fn python_plain(c: char) -> bool {
    c != '\'' && c != '\n' && c != '\r' && c != '\0'
}

/// Reading a Python literal back gives what was escaped, for every text without carriage returns
/// and null characters.
pub proof fn python_escape_reads_back(s: Seq<char>)
    requires
        !s.contains('\r'),
        !s.contains('\0'),
    ensures
        unescaped(python_escaped(s), |c: char| python_meaning(c), |c: char| python_plain(c))
            == Some(s),
{
    let f = |c: char| python_char(c);
    lemma_unescaped(s, f, |c: char| python_meaning(c), |c: char| python_plain(c));
}

/// Escaping for Python brings in no control characters.
pub proof fn lemma_python_escaped_writable(s: Seq<char>)
    requires
        forall|i: int| 0 <= i < s.len() ==> json_writable(#[trigger] s[i]),
    ensures
        forall|i: int|
            0 <= i < python_escaped(s).len() ==> json_writable(#[trigger] python_escaped(s)[i]),
    decreases s.len(),
{
    if s.len() > 0 {
        let rest = s.drop_last();
        assert forall|i: int| 0 <= i < rest.len() implies json_writable(#[trigger] rest[i]) by {
            assert(rest[i] == s[i]);
        }
        lemma_python_escaped_writable(rest);
        assert(json_writable(s[s.len() - 1]));
        assert(python_escaped(s) == python_escaped(rest) + python_char(s.last()));
    }
}

/// What a shell reads `t` as between double quotes, if that neither ends the quotes nor expands
/// anything. A backslash keeps the shell from seeing the next character if that one is special
/// there, takes a line break away, and is an ordinary character before any other.
pub open spec fn shell_reads(t: Seq<char>) -> Option<Seq<char>>
    decreases t.len(),
{
    if t.len() == 0 {
        Some(Seq::empty())
    } else if t[0] == '"' || t[0] == '$' || t[0] == '`' {
        None
    } else if t[0] != '\\' {
        match shell_reads(t.skip(1)) {
            Some(rest) => Some(seq![t[0]] + rest),
            None => None,
        }
    } else if t.len() == 1 {
        None
    } else {
        match shell_reads(t.skip(2)) {
            Some(rest) => if t[1] == '"' || t[1] == '$' || t[1] == '`' || t[1] == '\\' {
                Some(seq![t[1]] + rest)
            } else if t[1] == '\n' {
                Some(rest)
            } else {
                Some(seq!['\\', t[1]] + rest)
            },
            None => None,
        }
    }
}

/// Whether nothing in `t` is special to a shell between double quotes: no quote, no expansion, and
/// no backslash but before a single quote or the letter n.
pub open spec fn is_calm(t: Seq<char>) -> bool {
    forall|i: int|
        0 <= i < t.len() ==> {
            let c = #[trigger] t[i];
            &&& c != '"' && c != '$' && c != '`'
            &&& c == '\\' ==> i + 1 < t.len() && (t[i + 1] == '\'' || t[i + 1] == 'n')
        }
}

/// A text of two calm parts is calm.
pub proof fn lemma_calm_concat(a: Seq<char>, b: Seq<char>)
    requires
        is_calm(a),
        is_calm(b),
    ensures
        is_calm(a + b),
{
    let t = a + b;
    assert forall|i: int| 0 <= i < t.len() implies {
        let c = #[trigger] t[i];
        &&& c != '"' && c != '$' && c != '`'
        &&& c == '\\' ==> i + 1 < t.len() && (t[i + 1] == '\'' || t[i + 1] == 'n')
    } by {
        if i < a.len() {
            assert(t[i] == a[i]);
            if a[i] == '\\' {
                assert(t[i + 1] == a[i + 1]);
            }
        } else {
            assert(t[i] == b[i - a.len()]);
            if b[i - a.len()] == '\\' {
                assert(t[i + 1] == b[i - a.len() + 1]);
            }
        }
    }
}

/// A source with nothing special in it is calm once it is escaped for Python.
pub proof fn lemma_python_escaped_calm(s: Seq<char>)
    requires
        forall|i: int|
            0 <= i < s.len() ==> {
                let c = #[trigger] s[i];
                c != '"' && c != '$' && c != '`' && c != '\\'
            },
    ensures
        is_calm(python_escaped(s)),
    decreases s.len(),
{
    if s.len() > 0 {
        let rest = s.drop_last();
        let c = s[s.len() - 1];
        assert forall|i: int| 0 <= i < rest.len() implies {
            let c = #[trigger] rest[i];
            c != '"' && c != '$' && c != '`' && c != '\\'
        } by {
            assert(rest[i] == s[i]);
        }
        lemma_python_escaped_calm(rest);
        assert(is_calm(python_char(c)));
        lemma_calm_concat(python_escaped(rest), python_char(c));
        assert(python_escaped(s) == python_escaped(rest) + python_char(c));
    }
}

/// A shell reads a calm text between double quotes as it stands.
pub proof fn lemma_shell_keeps_calm(t: Seq<char>)
    requires
        is_calm(t),
    ensures
        shell_reads(t) == Some(t),
    decreases t.len(),
{
    if t.len() == 0 {
        assert(t =~= Seq::<char>::empty());
    } else {
        let n: int = if t[0] == '\\' {
            2
        } else {
            1
        };
        let rest = t.skip(n);
        assert forall|i: int| 0 <= i < rest.len() implies {
            let c = #[trigger] rest[i];
            &&& c != '"' && c != '$' && c != '`'
            &&& c == '\\' ==> i + 1 < rest.len() && (rest[i + 1] == '\'' || rest[i + 1] == 'n')
        } by {
            assert(rest[i] == t[i + n]);
            if rest[i] == '\\' {
                assert(rest[i + 1] == t[i + n + 1]);
            }
        }
        lemma_shell_keeps_calm(rest);
        assert(t =~= t.take(n) + rest);
        if n == 2 {
            assert(t.take(2) =~= seq!['\\', t[1]]);
        } else {
            assert(t.take(1) =~= seq![t[0]]);
        }
    }
}

/// A text without anything to escape stays as it is, and escaping a text in two parts is the same as
/// escaping it whole.
pub proof fn json_escape_goes_character_by_character(a: Seq<char>, b: Seq<char>, c: char)
    ensures
        json_escaped(a + b) == json_escaped(a) + json_escaped(b),
        c != '\\' && c != '"' && c != '\n' && c != '\r' && c != '\t' ==> json_escaped(seq![c])
            == seq![c],
        json_escaped(seq!['\\']) == seq!['\\', '\\'],
        json_escaped(seq!['"']) == seq!['\\', '"'],
        json_escaped(seq!['\n']) == seq!['\\', 'n'],
        json_escaped(seq!['\r']) == seq!['\\', 'r'],
        json_escaped(seq!['\t']) == seq!['\\', 't'],
{
    let f = |c: char| json_char(c);
    lemma_expand_concat(a, b, f);
    lemma_expand_short(c, c, f);
    lemma_expand_short('\\', '\\', f);
    lemma_expand_short('"', '"', f);
    lemma_expand_short('\n', '\n', f);
    lemma_expand_short('\r', '\r', f);
    lemma_expand_short('\t', '\t', f);
}

/// The same of escaping for Python.
pub proof fn python_escape_goes_character_by_character(a: Seq<char>, b: Seq<char>, c: char)
    ensures
        python_escaped(a + b) == python_escaped(a) + python_escaped(b),
        c != '\\' && c != '\'' && c != '\n' ==> python_escaped(seq![c]) == seq![c],
        python_escaped(seq!['\\']) == seq!['\\', '\\'],
        python_escaped(seq!['\'']) == seq!['\\', '\''],
        python_escaped(seq!['\n']) == seq!['\\', 'n'],
{
    let f = |c: char| python_char(c);
    lemma_expand_concat(a, b, f);
    lemma_expand_short(c, c, f);
    lemma_expand_short('\\', '\\', f);
    lemma_expand_short('\'', '\'', f);
    lemma_expand_short('\n', '\n', f);
}

} // verus!
