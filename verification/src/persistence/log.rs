//! The operation log: every change of the store is appended as a line
//! `set "key" "value"` (or `set "key"` for a removal) before it counts.
//! Reading the log checks that every line that is not blank is such an
//! operation.

use vstd::prelude::*;

use crate::command::views;
use crate::error::Error;
use crate::text::{
    chars_of, chars_start_with_set, escape_quotes, is_blank, push_all, push_char, push_escaped,
    starts_with_set, str_is_blank,
};

verus! {

/// The log line that records a change of `k` to `v`: `set "k" "v"` with the
/// double quotes of `v` escaped, or `set "k"` where `v` is empty.
pub open spec fn log_line(k: Seq<char>, v: Seq<char>) -> Seq<char> {
    if v.len() == 0 {
        seq!['s', 'e', 't', ' ', '"'] + k + seq!['"']
    } else {
        seq!['s', 'e', 't', ' ', '"'] + k + seq!['"', ' ', '"'] + escape_quotes(v) + seq!['"']
    }
}

/// The operations that a log holds, given its lines: the lines that are not
/// blank, in order; or `InvalidLogFile` where one of them is not an operation.
pub open spec fn spec_read_all_operations(lines: Seq<Seq<char>>) -> Result<Seq<Seq<char>>, Error> {
    if exists|i: int| 0 <= i < lines.len() && !is_blank(lines[i]) && !starts_with_set(lines[i]) {
        Err(Error::InvalidLogFile)
    } else {
        Ok(lines.filter(|l: Seq<char>| !is_blank(l)))
    }
}

/// The log line that records a change of `key` to `value`.
pub fn format_operation(key: &str, value: &str) -> (line: String)
    ensures
        line@ == log_line(key@, value@),
{
    let mut line = String::new();
    push_char(&mut line, 's');
    push_char(&mut line, 'e');
    push_char(&mut line, 't');
    push_char(&mut line, ' ');
    push_char(&mut line, '"');
    let k = chars_of(key);
    push_all(&mut line, &k);
    push_char(&mut line, '"');
    if !value.is_empty() {
        push_char(&mut line, ' ');
        push_char(&mut line, '"');
        let v = chars_of(value);
        push_escaped(&mut line, &v);
        push_char(&mut line, '"');
    }
    assert(line@ =~= log_line(key@, value@));
    line
}

/// Reads the operations of a log given its lines: skips blank lines, and
/// refuses the log where another line does not begin with `set `.
pub fn read_all_operations(lines: &Vec<String>) -> (r: Result<Vec<String>, Error>)
    ensures
        match (r, spec_read_all_operations(views(lines@))) {
            (Ok(ops), Ok(expected)) => views(ops@) == expected,
            (Err(e), Err(f)) => e == f,
            _ => false,
        },
{
    let ghost ls = views(lines@);
    let ghost keep = |l: Seq<char>| !is_blank(l);
    let mut ops: Vec<String> = Vec::new();
    let mut i: usize = 0;
    assert(ls.take(0).filter(keep) =~= Seq::<Seq<char>>::empty()) by {
        reveal(Seq::filter);
    }
    while i < lines.len()
        invariant
            i <= lines.len(),
            ls == views(lines@),
            keep == (|l: Seq<char>| !is_blank(l)),
            forall|j: int| 0 <= j < i ==> is_blank(#[trigger] ls[j]) || starts_with_set(ls[j]),
            views(ops@) == ls.take(i as int).filter(keep),
        decreases lines.len() - i,
    {
        let line = &lines[i];
        assert(ls[i as int] == line@);
        assert(ls.take(i + 1) =~= ls.take(i as int).push(ls[i as int]));
        proof {
            ls.take(i as int).lemma_filter_push(ls[i as int], keep);
        }
        if str_is_blank(line.as_str()) {
        } else {
            let v = chars_of(line.as_str());
            if !chars_start_with_set(&v) {
                assert(!is_blank(ls[i as int]) && !starts_with_set(ls[i as int]));
                return Err(Error::InvalidLogFile);
            }
            let ghost before = ops@;
            ops.push(line.clone());
            assert(views(ops@) =~= views(before).push(ls[i as int]));
        }
        i = i + 1;
    }
    assert(ls.take(lines.len() as int) =~= ls);
    Ok(ops)
}

} // verus!
