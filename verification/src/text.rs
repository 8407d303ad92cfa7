//! Character-level helpers shared by the command parser and the two file
//! formats: whitespace, quoting, escaping and word splitting.

use vstd::prelude::*;

verus! {

/// Appends one character to a string by calling `String::push`, which the
/// standard library documents as appending the character to the end of the
/// string; the contract states exactly that of its characters.
#[verifier::external_body]
pub(crate) fn push_char(s: &mut String, c: char)
    ensures
        final(s)@ == old(s)@.push(c),
{
    s.push(c);
}

/// The characters of a string slice, in order.
pub fn chars_of(s: &str) -> (v: Vec<char>)
    ensures
        v@ == s@,
{
    let mut v: Vec<char> = Vec::new();
    for c in it: s.chars()
        invariant
            v@ == it.seq().take(it.index() as int),
    {
        v.push(c);
    }
    v
}

/// A string holding the given characters.
pub fn string_of(v: &Vec<char>) -> (s: String)
    ensures
        s@ == v@,
{
    let mut s = String::new();
    let mut i: usize = 0;
    while i < v.len()
        invariant
            i <= v.len(),
            s@ == v@.take(i as int),
        decreases v.len() - i,
    {
        push_char(&mut s, v[i]);
        i = i + 1;
        assert(s@ =~= v@.take(i as int));
    }
    assert(v@.take(v.len() as int) =~= v@);
    s
}

/// Appends every character of `v` to `s`.
pub fn push_all(s: &mut String, v: &Vec<char>)
    ensures
        final(s)@ == old(s)@ + v@,
{
    let mut i: usize = 0;
    while i < v.len()
        invariant
            i <= v.len(),
            s@ == old(s)@ + v@.take(i as int),
        decreases v.len() - i,
    {
        push_char(s, v[i]);
        i = i + 1;
        assert(s@ =~= old(s)@ + v@.take(i as int));
    }
    assert(v@.take(v.len() as int) =~= v@);
}

/// The characters that the Unicode property White_Space holds of (those on
/// which `char::is_whitespace`, `str::trim` and `str::split_whitespace` act).
pub open spec fn is_whitespace(c: char) -> bool {
    ||| '\u{9}' <= c <= '\u{d}'
    ||| c == ' '
    ||| c == '\u{85}'
    ||| c == '\u{a0}'
    ||| c == '\u{1680}'
    ||| '\u{2000}' <= c <= '\u{200a}'
    ||| c == '\u{2028}'
    ||| c == '\u{2029}'
    ||| c == '\u{202f}'
    ||| c == '\u{205f}'
    ||| c == '\u{3000}'
}

/// Whether a character is white space.
pub fn char_is_whitespace(c: char) -> (b: bool)
    ensures
        b == is_whitespace(c),
{
    ('\u{9}' <= c && c <= '\u{d}') || c == ' ' || c == '\u{85}' || c == '\u{a0}' || c
        == '\u{1680}' || ('\u{2000}' <= c && c <= '\u{200a}') || c == '\u{2028}' || c
        == '\u{2029}' || c == '\u{202f}' || c == '\u{205f}' || c == '\u{3000}'
}

/// A line is blank when it holds nothing but white space (its trimmed form is
/// empty).
pub open spec fn is_blank(s: Seq<char>) -> bool {
    forall|i: int| 0 <= i < s.len() ==> is_whitespace(#[trigger] s[i])
}

/// Whether a string holds nothing but white space.
pub fn str_is_blank(s: &str) -> (b: bool)
    ensures
        b == is_blank(s@),
{
    let v = chars_of(s);
    let mut i: usize = 0;
    while i < v.len()
        invariant
            i <= v.len(),
            v@ == s@,
            forall|j: int| 0 <= j < i ==> is_whitespace(#[trigger] v@[j]),
        decreases v.len() - i,
    {
        if !char_is_whitespace(v[i]) {
            return false;
        }
        i = i + 1;
    }
    true
}

/// The prefix that marks an operation line of the log: `set ` .
pub open spec fn set_prefix() -> Seq<char> {
    seq!['s', 'e', 't', ' ']
}

/// Whether a line begins with the operation prefix `set `.
pub open spec fn starts_with_set(s: Seq<char>) -> bool {
    s.len() >= 4 && s.take(4) == set_prefix()
}

/// Whether the characters begin with `set `.
pub fn chars_start_with_set(v: &Vec<char>) -> (b: bool)
    ensures
        b == starts_with_set(v@),
{
    if v.len() < 4 {
        return false;
    }
    let b = v[0] == 's' && v[1] == 'e' && v[2] == 't' && v[3] == ' ';
    proof {
        if b {
            assert(v@.take(4) =~= set_prefix());
        } else {
            if v@.take(4) == set_prefix() {
                assert(v@.take(4)[0] == 's');
                assert(v@.take(4)[1] == 'e');
                assert(v@.take(4)[2] == 't');
                assert(v@.take(4)[3] == ' ');
            }
        }
    }
    b
}

/// The text with each double quote written as a backslash and a double quote
/// (what `str::replace('"', "\\\"")` gives).
pub open spec fn escape_quotes(s: Seq<char>) -> Seq<char>
    decreases s.len(),
{
    if s.len() == 0 {
        Seq::empty()
    } else if s[0] == '"' {
        seq!['\\', '"'] + escape_quotes(s.skip(1))
    } else {
        seq![s[0]] + escape_quotes(s.skip(1))
    }
}

/// The text with each backslash followed by a double quote written as a lone
/// double quote, read from left to right (what `str::replace("\\\"", "\"")`
/// gives).
pub open spec fn unescape_quotes(s: Seq<char>) -> Seq<char>
    decreases s.len(),
{
    if s.len() == 0 {
        Seq::empty()
    } else if s.len() >= 2 && s[0] == '\\' && s[1] == '"' {
        seq!['"'] + unescape_quotes(s.skip(2))
    } else {
        seq![s[0]] + unescape_quotes(s.skip(1))
    }
}

/// Appends the escaped form of `v` to `s`.
pub fn push_escaped(s: &mut String, v: &Vec<char>)
    ensures
        final(s)@ == old(s)@ + escape_quotes(v@),
{
    let mut i: usize = 0;
    assert(v@.skip(0) =~= v@);
    while i < v.len()
        invariant
            i <= v.len(),
            s@ + escape_quotes(v@.skip(i as int)) == old(s)@ + escape_quotes(v@),
        decreases v.len() - i,
    {
        let ghost rest = v@.skip(i as int);
        assert(rest.skip(1) =~= v@.skip(i + 1));
        assert(rest[0] == v@[i as int]);
        let c = v[i];
        if c == '"' {
            push_char(s, '\\');
            push_char(s, '"');
            assert(s@ + escape_quotes(v@.skip(i + 1)) =~= old(s)@ + escape_quotes(v@)) by {
                assert(escape_quotes(rest) == seq!['\\', '"'] + escape_quotes(rest.skip(1)));
            }
        } else {
            push_char(s, c);
            assert(s@ + escape_quotes(v@.skip(i + 1)) =~= old(s)@ + escape_quotes(v@)) by {
                assert(escape_quotes(rest) == seq![c] + escape_quotes(rest.skip(1)));
            }
        }
        i = i + 1;
    }
    assert(v@.skip(v.len() as int) =~= Seq::<char>::empty());
    assert(s@ =~= old(s)@ + escape_quotes(v@));
}

/// The text with each backslash followed by a double quote replaced by a
/// double quote.
pub fn unescape(v: &Vec<char>) -> (s: String)
    ensures
        s@ == unescape_quotes(v@),
{
    let mut s = String::new();
    let mut i: usize = 0;
    assert(v@.skip(0) =~= v@);
    while i < v.len()
        invariant
            i <= v.len(),
            s@ + unescape_quotes(v@.skip(i as int)) == unescape_quotes(v@),
        decreases v.len() - i,
    {
        let ghost rest = v@.skip(i as int);
        assert(rest[0] == v@[i as int]);
        if i + 1 < v.len() && v[i] == '\\' && v[i + 1] == '"' {
            assert(rest[1] == v@[i + 1]);
            assert(rest.skip(2) =~= v@.skip(i + 2));
            push_char(&mut s, '"');
            assert(s@ + unescape_quotes(v@.skip(i + 2)) =~= unescape_quotes(v@)) by {
                assert(unescape_quotes(rest) == seq!['"'] + unescape_quotes(rest.skip(2)));
            }
            i = i + 2;
        } else {
            assert(rest.skip(1) =~= v@.skip(i + 1));
            let c = v[i];
            push_char(&mut s, c);
            assert(s@ + unescape_quotes(v@.skip(i + 1)) =~= unescape_quotes(v@)) by {
                if rest.len() >= 2 {
                    assert(rest[1] == v@[i + 1]);
                }
                assert(unescape_quotes(rest) == seq![c] + unescape_quotes(rest.skip(1)));
            }
            i = i + 1;
        }
    }
    assert(v@.skip(v.len() as int) =~= Seq::<char>::empty());
    assert(s@ =~= unescape_quotes(v@));
    s
}

} // verus!
