//! What reading a client's line does, stated over its inputs: the words of a
//! line, the arguments a command keeps, the key a request carries, and the
//! decimal notation of a count.

use vstd::prelude::*;

use crate::command::{split_run, split_step, spec_command, spec_parse_type, words, CommandType};
use crate::kv_store::set_effect;
use crate::protocol::{decimal, digit};
use crate::server::handler::{is_request_for_line, ReadOperation, Request};
use crate::server::writer::WriteOperation;
use crate::text::{is_blank, is_whitespace};

verus! {

// ---------------------------------------------------------------------------
// Words of a line

proof fn lemma_split_run_append(
    st: (Seq<Seq<char>>, Seq<char>),
    a: Seq<char>,
    b: Seq<char>,
)
    ensures
        split_run(st, a + b) == split_run(split_run(st, a), b),
    decreases a.len(),
{
    if a.len() == 0 {
        assert(a + b =~= b);
    } else {
        assert((a + b)[0] == a[0]);
        assert((a + b).skip(1) =~= a.skip(1) + b);
        lemma_split_run_append(split_step(st, a[0]), a.skip(1), b);
    }
}

proof fn lemma_split_run_one(st: (Seq<Seq<char>>, Seq<char>), c: char)
    ensures
        split_run(st, seq![c]) == split_step(st, c),
{
    assert(seq![c].skip(1) =~= Seq::<char>::empty());
    assert(seq![c][0] == c);
    assert(split_run(split_step(st, c), Seq::<char>::empty()) == split_step(st, c));
}

/// The words found before do not change how the rest is split.
proof fn lemma_split_run_prefix(p: Seq<Seq<char>>, cur: Seq<char>, b: Seq<char>)
    ensures
        split_run((p, cur), b) == (
            p + split_run((Seq::empty(), cur), b).0,
            split_run((Seq::empty(), cur), b).1,
        ),
    decreases b.len(),
{
    let e = Seq::<Seq<char>>::empty();
    if b.len() == 0 {
        assert(p + e =~= p);
    } else {
        let c = b[0];
        let rest = b.skip(1);
        let q = split_step((e, cur), c);
        let sp = split_step((p, cur), c);
        assert(sp == (p + q.0, q.1)) by {
            if is_whitespace(c) && cur.len() > 0 {
                assert(p.push(cur) =~= p + e.push(cur));
            } else {
                assert(p =~= p + e);
            }
        }
        lemma_split_run_prefix(p + q.0, q.1, rest);
        lemma_split_run_prefix(q.0, q.1, rest);
        let r = split_run((e, q.1), rest);
        assert(p + q.0 + r.0 =~= p + (q.0 + r.0));
    }
}

/// Characters that are not white space extend the word being read.
proof fn lemma_split_run_word(p: Seq<Seq<char>>, cur: Seq<char>, w: Seq<char>)
    requires
        forall|i: int| 0 <= i < w.len() ==> !is_whitespace(#[trigger] w[i]),
    ensures
        split_run((p, cur), w) == (p, cur + w),
    decreases w.len(),
{
    if w.len() == 0 {
        assert(cur + w =~= cur);
    } else {
        assert(!is_whitespace(w[0]));
        assert forall|i: int| 0 <= i < w.skip(1).len() implies !is_whitespace(
            #[trigger] w.skip(1)[i],
        ) by {
            assert(w.skip(1)[i] == w[i + 1]);
        }
        lemma_split_run_word(p, cur.push(w[0]), w.skip(1));
        assert(cur.push(w[0]) + w.skip(1) =~= cur + w);
    }
}

/// White space with no word under way changes nothing.
proof fn lemma_split_run_blank(p: Seq<Seq<char>>, s: Seq<char>)
    requires
        is_blank(s),
    ensures
        split_run((p, Seq::empty()), s) == (p, Seq::<char>::empty()),
    decreases s.len(),
{
    if s.len() > 0 {
        assert(is_whitespace(s[0]));
        assert(is_blank(s.skip(1))) by {
            assert forall|i: int| 0 <= i < s.skip(1).len() implies is_whitespace(
                #[trigger] s.skip(1)[i],
            ) by {
                assert(s.skip(1)[i] == s[i + 1]);
            }
        }
        lemma_split_run_blank(p, s.skip(1));
    }
}

/// A text with no white space and at least one character is one word.
pub proof fn law_words_single(w: Seq<char>)
    requires
        w.len() > 0,
        forall|i: int| 0 <= i < w.len() ==> !is_whitespace(#[trigger] w[i]),
    ensures
        words(w) == seq![w],
{
    lemma_split_run_word(Seq::empty(), Seq::empty(), w);
    assert(Seq::<char>::empty() + w =~= w);
    assert(Seq::<Seq<char>>::empty().push(w) =~= seq![w]);
}

/// A text of white space alone has no word.
pub proof fn law_words_blank(s: Seq<char>)
    requires
        is_blank(s),
    ensures
        words(s) == Seq::<Seq<char>>::empty(),
{
    lemma_split_run_blank(Seq::empty(), s);
}

/// A white-space character splits a text: the words of the whole are the
/// words before it followed by the words after it. With the two laws above
/// this fixes the words of every text: every word, in order, and no other.
pub proof fn law_words_split(a: Seq<char>, c: char, b: Seq<char>)
    requires
        is_whitespace(c),
    ensures
        words(a + seq![c] + b) == words(a) + words(b),
{
    let e = Seq::<Seq<char>>::empty();
    let init = (e, Seq::<char>::empty());
    let sa = split_run(init, a);
    lemma_split_run_append(init, a + seq![c], b);
    lemma_split_run_append(init, a, seq![c]);
    lemma_split_run_one(sa, c);
    let after_c = split_step(sa, c);
    assert(after_c == (words(a), Seq::<char>::empty()));
    lemma_split_run_prefix(words(a), Seq::empty(), b);
    let rb = split_run(init, b);
    if rb.1.len() > 0 {
        assert((words(a) + rb.0).push(rb.1) =~= words(a) + rb.0.push(rb.1));
    }
}

// ---------------------------------------------------------------------------
// Commands

/// A command keeps its arguments as they were written: where a command line
/// is accepted, its key is the third word unchanged, a `set` given a value
/// has the fourth word unchanged as its value, and no other command has a
/// value; the line is accepted exactly where its second word names a command
/// and the number of further words is within that command's bounds.
pub proof fn law_command_keeps_arguments(args: Seq<Seq<char>>)
    ensures
        spec_command(args) is Ok <==> (args.len() >= 2 && spec_parse_type(args[1]) is Some
            && spec_parse_type(args[1])->0.spec_min() <= args.len() - 2 <= spec_parse_type(
            args[1],
        )->0.spec_max()),
        spec_command(args) is Ok ==> spec_command(args)->Ok_0.0 == spec_parse_type(args[1])->0,
        spec_command(args) is Ok && args.len() >= 3 ==> spec_command(args)->Ok_0.1 == Some(
            args[2],
        ),
        spec_command(args) is Ok && args.len() < 3 ==> spec_command(args)->Ok_0.1 is None,
        spec_command(args) is Ok && spec_command(args)->Ok_0.0 == CommandType::SetValue
            && args.len() == 4 ==> spec_command(args)->Ok_0.2 == Some(args[3]),
        spec_command(args) is Ok && (spec_command(args)->Ok_0.0 != CommandType::SetValue
            || args.len() < 4) ==> spec_command(args)->Ok_0.2 is None,
{
}

/// A line whose words are a `get` and a key asks to read that key, unchanged.
pub proof fn law_get_line_reads_its_key(r: Request, line: Seq<char>, g: Seq<char>, k: Seq<char>)
    requires
        is_request_for_line(r, line),
        words(line) == seq![g, k],
        spec_parse_type(g) == Some(CommandType::Get),
    ensures
        r matches Request::Read(ReadOperation::Get { key }) && key@ == k,
{
    let args = seq![Seq::<char>::empty()] + words(line);
    assert(args =~= seq![Seq::<char>::empty(), g, k]);
    law_command_keeps_arguments(args);
}

/// A read gives back a write: where a line `set k v` (v not empty) is
/// written to a store and a line `get k` then reads it, the write changes
/// the store so that the key the read asks for holds `v`.
pub proof fn law_get_after_set_line(
    m: Map<Seq<char>, Seq<char>>,
    r1: Request,
    line1: Seq<char>,
    r2: Request,
    line2: Seq<char>,
    s: Seq<char>,
    g: Seq<char>,
    k: Seq<char>,
    v: Seq<char>,
)
    requires
        is_request_for_line(r1, line1),
        is_request_for_line(r2, line2),
        words(line1) == seq![s, k, v],
        words(line2) == seq![g, k],
        spec_parse_type(s) == Some(CommandType::SetValue),
        spec_parse_type(g) == Some(CommandType::Get),
        v.len() > 0,
    ensures
        r1 matches Request::Write(WriteOperation::SetValue { key, value }) && r2 matches Request::Read(
            ReadOperation::Get { key: key2 },
        ) && set_effect(m, key@, value@).contains_key(key2@) && set_effect(m, key@, value@)[key2@]
            == v,
{
    let args1 = seq![Seq::<char>::empty()] + words(line1);
    assert(args1 =~= seq![Seq::<char>::empty(), s, k, v]);
    law_command_keeps_arguments(args1);
    law_get_line_reads_its_key(r2, line2, g, k);
}

// ---------------------------------------------------------------------------
// Decimal notation

/// Whether a character is a decimal digit.
pub open spec fn is_digit(c: char) -> bool {
    '0' <= c <= '9'
}

/// The number that a string of decimal digits stands for.
pub open spec fn digits_value(s: Seq<char>) -> int
    decreases s.len(),
{
    if s.len() == 0 {
        0
    } else {
        digits_value(s.drop_last()) * 10 + (s.last() as int - '0' as int)
    }
}

/// The decimal notation of a number is its usual one: digits only, which read
/// back as the number, with no leading zero.
pub proof fn law_decimal_reads_back(n: nat)
    ensures
        decimal(n).len() > 0,
        forall|i: int| 0 <= i < decimal(n).len() ==> is_digit(#[trigger] decimal(n)[i]),
        digits_value(decimal(n)) == n,
        n > 0 ==> decimal(n)[0] != '0',
    decreases n,
{
    let d = n % 10;
    assert(digit(d) as int == d + 48);
    assert('0' as int == 48);
    if n < 10 {
        assert(d == n);
        assert(decimal(n) == seq![digit(n)]);
        assert(seq![digit(n)].drop_last() =~= Seq::<char>::empty());
        assert(digits_value(Seq::<char>::empty()) == 0);
        assert(seq![digit(n)].last() == digit(n));
        assert(digits_value(seq![digit(n)]) == digits_value(seq![digit(n)].drop_last()) * 10 + (
        digit(n) as int - '0' as int));
    } else {
        law_decimal_reads_back(n / 10);
        let p = decimal(n / 10);
        assert(decimal(n) == p.push(digit(d)));
        assert(p.push(digit(d)).drop_last() =~= p);
        assert(forall|i: int| 0 <= i < p.len() ==> p.push(digit(d))[i] == p[i]);
        assert(p.push(digit(d)).last() == digit(d));
        assert(digits_value(p.push(digit(d))) == digits_value(p) * 10 + (digit(d) as int
            - '0' as int));
        assert(digits_value(decimal(n)) == (n / 10) * 10 + d);
    }
}

} // verus!
