//! What the store promises across its operations: an operation line replays
//! the change that wrote it, the log rebuilds the store after every change,
//! and a snapshot gives back the state it was taken of.
//!
//! These laws speak of lines as the library makes and reads them. A file
//! holds them one per line, so a key or a value that holds a line break
//! (`'\n'`) gives a line that the file holds as two, and reading the file back
//! refuses or changes it: for such keys and values the laws say nothing of
//! what the files give back.

use vstd::prelude::*;

use crate::command::{ascii_lower, lower, spec_parse_type};
use crate::entries::{entries_map, lemma_entries_map_value, Entry};
use crate::error::Error;
use crate::kv_store::{
    apply_op, kv_run, kv_step, parse_init, replay, set_effect, spec_load, spec_parse_kv, KvScan,
    KvStore, ParsePhase,
};
use crate::persistence::log::{log_line, spec_read_all_operations};
use crate::persistence::store::{
    data_init, data_line, data_run, data_step, spec_load_snapshot,
    spec_parse_data_line, DataScan,
};
use crate::text::{
    escape_quotes, is_blank, is_whitespace, set_prefix, starts_with_set, unescape_quotes,
};

verus! {

/// A key that the line formats carry unchanged: it holds no double quote and
/// no backslash.
pub open spec fn plain_key(k: Seq<char>) -> bool {
    forall|i: int| 0 <= i < k.len() ==> #[trigger] k[i] != '"' && k[i] != '\\'
}

/// A value that the line formats carry unchanged: it holds no backslash.
pub open spec fn plain_value(v: Seq<char>) -> bool {
    forall|i: int| 0 <= i < v.len() ==> #[trigger] v[i] != '\\'
}

// ---------------------------------------------------------------------------
// Reading operation lines

proof fn lemma_kv_run_append(sc: KvScan, a: Seq<char>, b: Seq<char>)
    ensures
        kv_run(sc, a + b) == kv_run(kv_run(sc, a), b),
    decreases a.len(),
{
    if a.len() == 0 {
        assert(a + b =~= b);
    } else {
        assert((a + b)[0] == a[0]);
        assert((a + b).skip(1) =~= a.skip(1) + b);
        lemma_kv_run_append(kv_step(sc, a[0]), a.skip(1), b);
    }
}

proof fn lemma_kv_run_one(sc: KvScan, c: char)
    ensures
        kv_run(sc, seq![c]) == kv_step(sc, c),
{
    assert(seq![c].skip(1) =~= Seq::<char>::empty());
    assert(seq![c][0] == c);
    assert(kv_run(kv_step(sc, c), Seq::<char>::empty()) == kv_step(sc, c));
}

/// Text that, read inside quotes, is kept as it is up to its end: it holds no
/// double quote that is not escaped, and does not end in an escaping backslash.
pub open spec fn quoted_verbatim(t: Seq<char>) -> bool
    decreases t.len(),
{
    if t.len() == 0 {
        true
    } else if t[0] == '"' {
        false
    } else if t[0] == '\\' {
        t.len() >= 2 && quoted_verbatim(t.skip(2))
    } else {
        quoted_verbatim(t.skip(1))
    }
}

/// A change whose log line carries its key and value unchanged: the key is
/// kept as it is inside its quotes, and so is the escaped value, which
/// unescapes back to the value.
pub open spec fn log_carries(k: Seq<char>, v: Seq<char>) -> bool {
    &&& quoted_verbatim(k)
    &&& v.len() > 0 ==> quoted_verbatim(escape_quotes(v)) && unescape_quotes(escape_quotes(v)) == v
}

/// Inside quotes, text that is kept as it is goes to the key or to the value.
proof fn lemma_kv_run_verbatim(sc: KvScan, t: Seq<char>)
    requires
        sc.state.in_quotes,
        !sc.state.escaped,
        quoted_verbatim(t),
    ensures
        kv_run(sc, t) == (if sc.state.phase == ParsePhase::Key {
            KvScan { key: sc.key + t, ..sc }
        } else {
            KvScan { value: sc.value + t, ..sc }
        }),
    decreases t.len(),
{
    if t.len() == 0 {
        assert(sc.key + t =~= sc.key);
        assert(sc.value + t =~= sc.value);
    } else if t[0] == '\\' {
        let head = t.take(2);
        assert(t =~= head + t.skip(2));
        assert(head =~= seq![t[0]] + seq![t[1]]);
        lemma_kv_run_append(sc, head, t.skip(2));
        lemma_kv_run_append(sc, seq![t[0]], seq![t[1]]);
        lemma_kv_run_one(sc, t[0]);
        let s1 = kv_step(sc, t[0]);
        lemma_kv_run_one(s1, t[1]);
        let s2 = kv_step(s1, t[1]);
        lemma_kv_run_verbatim(s2, t.skip(2));
        if sc.state.phase == ParsePhase::Key {
            assert(s2 == (KvScan { key: sc.key + head, ..sc })) by {
                assert(sc.key.push(t[0]).push(t[1]) =~= sc.key + head);
            }
            assert(sc.key + head + t.skip(2) =~= sc.key + t);
        } else {
            assert(s2 == (KvScan { value: sc.value + head, ..sc })) by {
                assert(sc.value.push(t[0]).push(t[1]) =~= sc.value + head);
            }
            assert(sc.value + head + t.skip(2) =~= sc.value + t);
        }
    } else {
        let next = kv_step(sc, t[0]);
        lemma_kv_run_verbatim(next, t.skip(1));
        assert(t =~= seq![t[0]] + t.skip(1));
        assert(kv_run(sc, t) == kv_run(next, t.skip(1)));
        if sc.state.phase == ParsePhase::Key {
            assert(next == (KvScan { key: sc.key.push(t[0]), ..sc }));
            assert(sc.key.push(t[0]) + t.skip(1) =~= sc.key + t);
        } else {
            assert(next == (KvScan { value: sc.value.push(t[0]), ..sc }));
            assert(sc.value.push(t[0]) + t.skip(1) =~= sc.value + t);
        }
    }
}

proof fn lemma_unescape_escape(v: Seq<char>)
    requires
        plain_value(v),
    ensures
        unescape_quotes(escape_quotes(v)) == v,
        escape_quotes(v).len() >= v.len(),
    decreases v.len(),
{
    if v.len() > 0 {
        assert(plain_value(v.skip(1))) by {
            assert forall|i: int| 0 <= i < v.skip(1).len() implies #[trigger] v.skip(1)[i]
                != '\\' by {
                assert(v.skip(1)[i] == v[i + 1]);
            }
        }
        lemma_unescape_escape(v.skip(1));
        let e = escape_quotes(v);
        let rest = escape_quotes(v.skip(1));
        assert(v[0] != '\\');
        if v[0] == '"' {
            assert(e == seq!['\\', '"'] + rest);
            assert(e.skip(2) =~= rest);
            assert(unescape_quotes(e) == seq!['"'] + unescape_quotes(e.skip(2)));
        } else {
            assert(e == seq![v[0]] + rest);
            assert(e.skip(1) =~= rest);
            assert(e[0] == v[0]);
            assert(unescape_quotes(e) == seq![v[0]] + unescape_quotes(e.skip(1)));
        }
        assert(v =~= seq![v[0]] + v.skip(1));
    }
}

proof fn lemma_plain_verbatim(t: Seq<char>)
    requires
        plain_key(t),
    ensures
        quoted_verbatim(t),
    decreases t.len(),
{
    if t.len() > 0 {
        assert(t[0] != '"' && t[0] != '\\');
        assert(plain_key(t.skip(1))) by {
            assert forall|i: int| 0 <= i < t.skip(1).len() implies #[trigger] t.skip(1)[i] != '"'
                && t.skip(1)[i] != '\\' by {
                assert(t.skip(1)[i] == t[i + 1]);
            }
        }
        lemma_plain_verbatim(t.skip(1));
    }
}

proof fn lemma_escaped_verbatim(v: Seq<char>)
    requires
        plain_value(v),
    ensures
        quoted_verbatim(escape_quotes(v)),
    decreases v.len(),
{
    if v.len() > 0 {
        assert(plain_value(v.skip(1))) by {
            assert forall|i: int| 0 <= i < v.skip(1).len() implies #[trigger] v.skip(1)[i]
                != '\\' by {
                assert(v.skip(1)[i] == v[i + 1]);
            }
        }
        lemma_escaped_verbatim(v.skip(1));
        let e = escape_quotes(v);
        let rest = escape_quotes(v.skip(1));
        assert(v[0] != '\\');
        if v[0] == '"' {
            assert(e == seq!['\\', '"'] + rest);
            assert(e.skip(2) =~= rest);
        } else {
            assert(e == seq![v[0]] + rest);
            assert(e.skip(1) =~= rest);
        }
    }
}

/// A key without double quotes or backslashes and a value without
/// backslashes are carried unchanged by a log line.
pub proof fn lemma_plain_log_carries(k: Seq<char>, v: Seq<char>)
    requires
        plain_key(k),
        plain_value(v),
    ensures
        log_carries(k, v),
{
    lemma_plain_verbatim(k);
    if v.len() > 0 {
        lemma_escaped_verbatim(v);
        lemma_unescape_escape(v);
    }
}

/// The arguments of a change's log line read back as its key and its escaped
/// value.
proof fn lemma_parse_log_args(k: Seq<char>, v: Seq<char>)
    requires
        log_carries(k, v),
    ensures
        spec_parse_kv(log_line(k, v).skip(4)) == (k, if v.len() == 0 {
            Seq::<char>::empty()
        } else {
            escape_quotes(v)
        }),
{
    let q = seq!['"'];
    let s0 = KvScan { state: parse_init(), key: Seq::empty(), value: Seq::empty() };
    lemma_kv_run_one(s0, '"');
    let s1 = kv_step(s0, '"');
    lemma_kv_run_verbatim(s1, k);
    let s2 = kv_run(s1, k);
    assert(s2.key =~= k);
    lemma_kv_run_one(s2, '"');
    let s3 = kv_step(s2, '"');
    lemma_kv_run_append(s0, q, k);
    lemma_kv_run_append(s0, q + k, q);
    if v.len() == 0 {
        assert(log_line(k, v).skip(4) =~= q + k + q);
        assert(s3.key == k && s3.value == Seq::<char>::empty());
    } else {
        let e = escape_quotes(v);
        lemma_kv_run_one(s3, ' ');
        let s4 = kv_step(s3, ' ');
        lemma_kv_run_one(s4, '"');
        let s5 = kv_step(s4, '"');
        lemma_kv_run_verbatim(s5, e);
        let s6 = kv_run(s5, e);
        assert(s6.value =~= e);
        lemma_kv_run_one(s6, '"');
        let s7 = kv_step(s6, '"');
        lemma_kv_run_append(s0, q + k + q, seq![' ']);
        lemma_kv_run_append(s0, q + k + q + seq![' '], q);
        lemma_kv_run_append(s0, q + k + q + seq![' '] + q, e);
        lemma_kv_run_append(s0, q + k + q + seq![' '] + q + e, q);
        assert(log_line(k, v).skip(4) =~= q + k + q + seq![' '] + q + e + q);
        assert(s7.key == k && s7.value == e);
    }
}

/// An operation line replays the change that wrote it: applying the line
/// that `KvStore::set` returns for a key and a value to any map gives what
/// `set` made of that map. (The line is taken whole, as the library returns
/// it; see the module's note on line breaks.)
pub proof fn law_log_line_replays_set(m: Map<Seq<char>, Seq<char>>, k: Seq<char>, v: Seq<char>)
    requires
        log_carries(k, v),
    ensures
        apply_op(m, log_line(k, v)) == set_effect(m, k, v),
{
    let line = log_line(k, v);
    assert(line.take(4) =~= set_prefix());
    assert(starts_with_set(line));
    lemma_parse_log_args(k, v);
}

/// The log rebuilds the store after every change: where a snapshot and a log
/// load as a map, the same snapshot with the line of one more change appended
/// to the log loads as what that change makes of the map. (The appended line
/// is one line of the log; a key or value with a line break would make it two
/// lines of a file, see the module's note.)
pub proof fn law_log_append_rebuilds(
    snapshot_lines: Seq<Seq<char>>,
    log_lines: Seq<Seq<char>>,
    m: Map<Seq<char>, Seq<char>>,
    k: Seq<char>,
    v: Seq<char>,
)
    requires
        spec_load(snapshot_lines, log_lines) == Ok::<Map<Seq<char>, Seq<char>>, Error>(m),
        log_carries(k, v),
    ensures
        spec_load(snapshot_lines, log_lines.push(log_line(k, v))) == Ok::<
            Map<Seq<char>, Seq<char>>,
            Error,
        >(set_effect(m, k, v)),
{
    let line = log_line(k, v);
    let lines2 = log_lines.push(line);
    let keep = |l: Seq<char>| !is_blank(l);
    assert(line.take(4) =~= set_prefix());
    assert(!is_blank(line)) by {
        assert(line[0] == 's');
        assert(!is_whitespace(line[0]));
    }
    assert(spec_read_all_operations(log_lines) is Ok);
    assert(!exists|i: int|
        0 <= i < lines2.len() && !is_blank(lines2[i]) && !starts_with_set(lines2[i])) by {
        if exists|i: int|
            0 <= i < lines2.len() && !is_blank(lines2[i]) && !starts_with_set(lines2[i]) {
            let i = choose|i: int|
                0 <= i < lines2.len() && !is_blank(lines2[i]) && !starts_with_set(lines2[i]);
            if i < log_lines.len() {
                assert(lines2[i] == log_lines[i]);
            }
        }
    }
    log_lines.lemma_filter_push(line, keep);
    let ops = log_lines.filter(keep);
    assert(spec_read_all_operations(lines2) == Ok::<Seq<Seq<char>>, Error>(ops.push(line)));
    let base = entries_map(spec_load_snapshot(snapshot_lines)->Ok_0);
    assert(ops.push(line).drop_last() =~= ops);
    assert(replay(base, ops.push(line)) == apply_op(replay(base, ops), line));
    law_log_line_replays_set(m, k, v);
}

// ---------------------------------------------------------------------------
// Reading snapshot lines

proof fn lemma_data_run_append(st: DataScan, a: Seq<char>, b: Seq<char>)
    ensures
        data_run(st, a + b) == data_run(data_run(st, a), b),
    decreases a.len(),
{
    if a.len() == 0 {
        assert(a + b =~= b);
    } else {
        assert((a + b)[0] == a[0]);
        assert((a + b).skip(1) =~= a.skip(1) + b);
        lemma_data_run_append(data_step(st, a[0]), a.skip(1), b);
    }
}

proof fn lemma_data_run_one(st: DataScan, c: char)
    ensures
        data_run(st, seq![c]) == data_step(st, c),
{
    assert(seq![c].skip(1) =~= Seq::<char>::empty());
    assert(seq![c][0] == c);
    assert(data_run(data_step(st, c), Seq::<char>::empty()) == data_step(st, c));
}

proof fn lemma_data_run_plain(st: DataScan, t: Seq<char>)
    requires
        st.in_quotes,
        !st.escaped,
        plain_key(t),
    ensures
        data_run(st, t) == (if st.parsing_key {
            DataScan { key: st.key + t, ..st }
        } else {
            DataScan { value: st.value + t, ..st }
        }),
    decreases t.len(),
{
    if t.len() == 0 {
        assert(st.key + t =~= st.key);
        assert(st.value + t =~= st.value);
    } else {
        assert(t[0] != '"' && t[0] != '\\');
        let next = data_step(st, t[0]);
        assert(plain_key(t.skip(1))) by {
            assert forall|i: int| 0 <= i < t.skip(1).len() implies #[trigger] t.skip(1)[i] != '"'
                && t.skip(1)[i] != '\\' by {
                assert(t.skip(1)[i] == t[i + 1]);
            }
        }
        lemma_data_run_plain(next, t.skip(1));
        assert(data_run(st, t) == data_run(next, t.skip(1)));
        if st.parsing_key {
            assert(next == (DataScan { key: st.key.push(t[0]), ..st }));
            assert(st.key.push(t[0]) + t.skip(1) =~= st.key + t);
        } else {
            assert(next == (DataScan { value: st.value.push(t[0]), ..st }));
            assert(st.value.push(t[0]) + t.skip(1) =~= st.value + t);
        }
    }
}

proof fn lemma_data_run_escaped(st: DataScan, v: Seq<char>)
    requires
        st.in_quotes,
        !st.escaped,
        !st.parsing_key,
        plain_value(v),
    ensures
        data_run(st, escape_quotes(v)) == (DataScan { value: st.value + v, ..st }),
    decreases v.len(),
{
    if v.len() == 0 {
        assert(st.value + v =~= st.value);
    } else {
        assert(plain_value(v.skip(1))) by {
            assert forall|i: int| 0 <= i < v.skip(1).len() implies #[trigger] v.skip(1)[i]
                != '\\' by {
                assert(v.skip(1)[i] == v[i + 1]);
            }
        }
        assert(v[0] != '\\');
        let head = if v[0] == '"' {
            seq!['\\', '"']
        } else {
            seq![v[0]]
        };
        assert(escape_quotes(v) == head + escape_quotes(v.skip(1)));
        lemma_data_run_append(st, head, escape_quotes(v.skip(1)));
        let mid = DataScan { value: st.value.push(v[0]), ..st };
        if v[0] == '"' {
            assert(head =~= seq!['\\'] + seq!['"']);
            lemma_data_run_append(st, seq!['\\'], seq!['"']);
            lemma_data_run_one(st, '\\');
            let s1 = data_step(st, '\\');
            lemma_data_run_one(s1, '"');
            assert(data_run(st, head) == mid);
        } else {
            lemma_data_run_one(st, v[0]);
            assert(data_run(st, head) == mid);
        }
        lemma_data_run_escaped(mid, v.skip(1));
        assert(mid.value + v.skip(1) =~= st.value + v);
    }
}

/// A snapshot line reads back as the key and value it was written from.
pub proof fn law_data_line_round_trip(k: Seq<char>, v: Seq<char>)
    requires
        k.len() > 0,
        plain_key(k),
        plain_value(v),
    ensures
        spec_parse_data_line(data_line(k, v)) == Some::<Entry>((k, v)),
{
    let q = seq!['"'];
    let e = escape_quotes(v);
    let s0 = data_init();
    lemma_data_run_one(s0, '"');
    let s1 = data_step(s0, '"');
    lemma_data_run_plain(s1, k);
    let s2 = data_run(s1, k);
    assert(s2.key =~= k);
    lemma_data_run_one(s2, '"');
    let s3 = data_step(s2, '"');
    lemma_data_run_one(s3, ' ');
    let s4 = data_step(s3, ' ');
    lemma_data_run_one(s4, '"');
    let s5 = data_step(s4, '"');
    lemma_data_run_escaped(s5, v);
    let s6 = data_run(s5, e);
    assert(s6.value =~= v);
    lemma_data_run_one(s6, '"');
    let s7 = data_step(s6, '"');
    lemma_data_run_append(s0, q, k);
    lemma_data_run_append(s0, q + k, q);
    lemma_data_run_append(s0, q + k + q, seq![' ']);
    lemma_data_run_append(s0, q + k + q + seq![' '], q);
    lemma_data_run_append(s0, q + k + q + seq![' '] + q, e);
    lemma_data_run_append(s0, q + k + q + seq![' '] + q + e, q);
    assert(data_line(k, v) =~= q + k + q + seq![' '] + q + e + q);
    assert(s7.key == k && s7.value == v && s7.quote_count == 2);
}

proof fn lemma_filter_all(s: Seq<Seq<char>>, p: spec_fn(Seq<char>) -> bool)
    requires
        forall|i: int| 0 <= i < s.len() ==> p(#[trigger] s[i]),
    ensures
        s.filter(p) == s,
    decreases s.len(),
{
    reveal(Seq::filter);
    if s.len() > 0 {
        lemma_filter_all(s.drop_last(), p);
        assert(s.drop_last().push(s.last()) =~= s);
    } else {
        assert(s.filter(p) =~= s);
    }
}

/// A snapshot gives back the state it was taken of: where every key of a
/// well-formed store is non-empty and plain and every value is plain, loading
/// its snapshot lines with an empty log gives the store's map. (The lines are
/// those `KvStore::snapshot` returns; a key or value with a line break would
/// make one of them two lines of a file, see the module's note.)
pub proof fn law_snapshot_round_trip(s: KvStore)
    requires
        s.wf(),
        forall|k: Seq<char>| #[trigger]
            s@.contains_key(k) ==> k.len() > 0 && plain_key(k) && plain_value(s@[k]),
    ensures
        spec_load(s.entries().map_values(|e: Entry| data_line(e.0, e.1)), Seq::empty()) == Ok::<
            Map<Seq<char>, Seq<char>>,
            Error,
        >(s@),
{
    let es = s.entries();
    let f = |e: Entry| data_line(e.0, e.1);
    let lines = es.map_values(f);
    let keep = |l: Seq<char>| !is_blank(l);
    let parse = |l: Seq<char>| spec_parse_data_line(l)->0;
    assert forall|i: int| 0 <= i < es.len() implies spec_parse_data_line(#[trigger] lines[i])
        == Some::<Entry>(es[i]) && !is_blank(lines[i]) by {
        lemma_entries_map_value(es, i);
        assert(s@.contains_key(es[i].0));
        law_data_line_round_trip(es[i].0, es[i].1);
        assert(lines[i][0] == '"');
        assert(!is_whitespace(lines[i][0]));
    }
    assert(!exists|i: int|
        0 <= i < lines.len() && !is_blank(lines[i]) && spec_parse_data_line(lines[i]) is None);
    lemma_filter_all(lines, keep);
    assert(lines.map_values(parse) =~= es);
    assert(spec_load_snapshot(lines) == Ok::<Seq<Entry>, Error>(es));
    reveal(Seq::filter);
    assert(Seq::<Seq<char>>::empty().filter(keep) =~= Seq::<Seq<char>>::empty());
    assert(spec_read_all_operations(Seq::empty()) == Ok::<Seq<Seq<char>>, Error>(Seq::empty()));
}

/// What a read gives back of a write: after `set` of a key, the key holds the
/// value written, or is gone where the value is empty; other keys keep theirs.
pub proof fn law_read_after_set(
    m: Map<Seq<char>, Seq<char>>,
    k: Seq<char>,
    v: Seq<char>,
    other: Seq<char>,
)
    requires
        other != k,
    ensures
        set_effect(m, k, v).contains_key(k) == (v.len() > 0),
        v.len() > 0 ==> set_effect(m, k, v)[k] == v,
        set_effect(m, k, v).contains_key(other) == m.contains_key(other),
        m.contains_key(other) ==> set_effect(m, k, v)[other] == m[other],
{
}

/// Command names are read whatever the case of their letters: a word and its
/// lower-case form name the same command, or none.
pub proof fn law_parse_type_ignores_case(s: Seq<char>)
    ensures
        spec_parse_type(lower(s)) == spec_parse_type(s),
{
    assert(lower(lower(s)) =~= lower(s)) by {
        assert forall|i: int| 0 <= i < s.len() implies #[trigger] ascii_lower(ascii_lower(s[i]))
            == ascii_lower(s[i]) by {
            let c = s[i];
            if 'A' <= c <= 'Z' {
                assert('a' <= ascii_lower(c) <= 'z');
            }
        }
    }
}

// ---------------------------------------------------------------------------
// Operation lines written without quotes

/// Outside quotes, characters other than a double quote and a backslash are
/// kept; while the key is read, a space would end it, so the text has none.
proof fn lemma_kv_run_bare(sc: KvScan, t: Seq<char>)
    requires
        !sc.state.in_quotes,
        !sc.state.escaped,
        forall|i: int| 0 <= i < t.len() ==> #[trigger] t[i] != '"' && t[i] != '\\',
        sc.state.phase == ParsePhase::Key ==> forall|i: int| 0 <= i < t.len() ==> #[trigger] t[i]
            != ' ',
    ensures
        kv_run(sc, t) == (if sc.state.phase == ParsePhase::Key {
            KvScan { key: sc.key + t, ..sc }
        } else {
            KvScan { value: sc.value + t, ..sc }
        }),
    decreases t.len(),
{
    if t.len() == 0 {
        assert(sc.key + t =~= sc.key);
        assert(sc.value + t =~= sc.value);
    } else {
        assert(t[0] != '"' && t[0] != '\\');
        let next = kv_step(sc, t[0]);
        assert forall|i: int| 0 <= i < t.skip(1).len() implies #[trigger] t.skip(1)[i] != '"'
            && t.skip(1)[i] != '\\' by {
            assert(t.skip(1)[i] == t[i + 1]);
        }
        if sc.state.phase == ParsePhase::Key {
            assert(t[0] != ' ');
            assert forall|i: int| 0 <= i < t.skip(1).len() implies #[trigger] t.skip(1)[i]
                != ' ' by {
                assert(t.skip(1)[i] == t[i + 1]);
            }
        }
        lemma_kv_run_bare(next, t.skip(1));
        assert(kv_run(sc, t) == kv_run(next, t.skip(1)));
        if sc.state.phase == ParsePhase::Key {
            assert(next == (KvScan { key: sc.key.push(t[0]), ..sc }));
            assert(sc.key.push(t[0]) + t.skip(1) =~= sc.key + t);
        } else {
            assert(next == (KvScan { value: sc.value.push(t[0]), ..sc }));
            assert(sc.value.push(t[0]) + t.skip(1) =~= sc.value + t);
        }
    }
}

proof fn lemma_unescape_plain(v: Seq<char>)
    requires
        plain_value(v),
    ensures
        unescape_quotes(v) == v,
    decreases v.len(),
{
    if v.len() > 0 {
        assert(v[0] != '\\');
        assert(plain_value(v.skip(1))) by {
            assert forall|i: int| 0 <= i < v.skip(1).len() implies #[trigger] v.skip(1)[i]
                != '\\' by {
                assert(v.skip(1)[i] == v[i + 1]);
            }
        }
        lemma_unescape_plain(v.skip(1));
        assert(v =~= seq![v[0]] + v.skip(1));
    }
}

/// An operation's arguments may be written without quotes: `k v` reads as the
/// key `k` and the value `v`, where the key has no space, and neither has a
/// double quote or a backslash (the value may hold spaces). So the line
/// `set k v` gives the key `k` the value `v` where `v` is not empty, and
/// `set k` removes it.
pub proof fn law_unquoted_operation(m: Map<Seq<char>, Seq<char>>, k: Seq<char>, v: Seq<char>)
    requires
        plain_key(k),
        forall|i: int| 0 <= i < k.len() ==> #[trigger] k[i] != ' ',
        plain_key(v),
    ensures
        spec_parse_kv(k + seq![' '] + v) == (k, v),
        spec_parse_kv(k) == (k, Seq::<char>::empty()),
        v.len() > 0 ==> apply_op(m, set_prefix() + k + seq![' '] + v) == m.insert(k, v),
        apply_op(m, set_prefix() + k) == m.remove(k),
{
    let s0 = KvScan { state: parse_init(), key: Seq::empty(), value: Seq::empty() };
    lemma_kv_run_bare(s0, k);
    let s1 = kv_run(s0, k);
    assert(s1.key =~= k);
    assert(s1.value =~= Seq::<char>::empty());
    lemma_kv_run_one(s1, ' ');
    let s2 = kv_step(s1, ' ');
    lemma_kv_run_bare(s2, v);
    let s3 = kv_run(s2, v);
    assert(s3.value =~= v);
    lemma_kv_run_append(s0, k, seq![' ']);
    lemma_kv_run_append(s0, k + seq![' '], v);
    let line = set_prefix() + k + seq![' '] + v;
    assert(line.take(4) =~= set_prefix());
    assert(line.skip(4) =~= k + seq![' '] + v);
    let unset = set_prefix() + k;
    assert(unset.take(4) =~= set_prefix());
    assert(unset.skip(4) =~= k);
    assert forall|i: int| 0 <= i < v.len() implies #[trigger] v[i] != '\\' by {
        assert(v[i] != '"' && v[i] != '\\');
    }
    lemma_unescape_plain(v);
}

// ---------------------------------------------------------------------------
// Whole sequences of changes

/// A change of a key to a value, as `KvStore::set` takes them.
pub type Change = (Seq<char>, Seq<char>);

/// The map after the changes, made in order over `m`.
pub open spec fn apply_sets(m: Map<Seq<char>, Seq<char>>, changes: Seq<Change>) -> Map<
    Seq<char>,
    Seq<char>,
>
    decreases changes.len(),
{
    if changes.len() == 0 {
        m
    } else {
        set_effect(apply_sets(m, changes.drop_last()), changes.last().0, changes.last().1)
    }
}

/// The log lines of the changes, in order.
pub open spec fn log_lines_of(changes: Seq<Change>) -> Seq<Seq<char>> {
    changes.map_values(|c: Change| log_line(c.0, c.1))
}

/// The value that the last change of `k` gave it, if any change touched it.
pub open spec fn last_value(changes: Seq<Change>, k: Seq<char>) -> Option<Seq<char>>
    decreases changes.len(),
{
    if changes.len() == 0 {
        None
    } else if changes.last().0 == k {
        Some(changes.last().1)
    } else {
        last_value(changes.drop_last(), k)
    }
}

/// The keys whose last change gave them a value that is not empty.
pub open spec fn live_keys(changes: Seq<Change>) -> Set<Seq<char>> {
    Set::new(|k: Seq<char>| last_value(changes, k) matches Some(v) && v.len() > 0)
}

/// How many keys a store holds after changes made from the empty store: those
/// whose last change gave a value that is not empty; each holds that value.
pub proof fn law_count_after_sets(changes: Seq<Change>)
    ensures
        apply_sets(Map::empty(), changes).dom() == live_keys(changes),
        live_keys(changes).finite(),
        apply_sets(Map::empty(), changes).len() == live_keys(changes).len(),
        forall|k: Seq<char>| #[trigger]
            apply_sets(Map::empty(), changes).contains_key(k) ==> apply_sets(
                Map::empty(),
                changes,
            )[k] == last_value(changes, k)->0,
    decreases changes.len(),
{
    let m = apply_sets(Map::empty(), changes);
    if changes.len() == 0 {
        assert(m.dom() =~= live_keys(changes));
    } else {
        let prev = changes.drop_last();
        law_count_after_sets(prev);
        assert(m.dom() =~= live_keys(changes));
        assert(m.dom().finite()) by {
            let pm = apply_sets(Map::empty(), prev);
            if changes.last().1.len() == 0 {
                assert(m.dom() =~= pm.dom().remove(changes.last().0));
            } else {
                assert(m.dom() =~= pm.dom().insert(changes.last().0));
            }
        }
    }
}

/// Changes appended to a log rebuild, on loading, the map they make of what
/// the snapshot and the log loaded as before.
pub proof fn law_sets_rebuild(
    snapshot_lines: Seq<Seq<char>>,
    log_lines: Seq<Seq<char>>,
    m: Map<Seq<char>, Seq<char>>,
    changes: Seq<Change>,
)
    requires
        spec_load(snapshot_lines, log_lines) == Ok::<Map<Seq<char>, Seq<char>>, Error>(m),
        forall|i: int| 0 <= i < changes.len() ==> log_carries(#[trigger] changes[i].0, changes[i].1),
    ensures
        spec_load(snapshot_lines, log_lines + log_lines_of(changes)) == Ok::<
            Map<Seq<char>, Seq<char>>,
            Error,
        >(apply_sets(m, changes)),
    decreases changes.len(),
{
    if changes.len() == 0 {
        assert(log_lines + log_lines_of(changes) =~= log_lines);
    } else {
        let prev = changes.drop_last();
        let c = changes.last();
        assert forall|i: int| 0 <= i < prev.len() implies log_carries(#[trigger] prev[i].0, prev[i].1) by {
            assert(prev[i] == changes[i]);
        }
        law_sets_rebuild(snapshot_lines, log_lines, m, prev);
        assert(log_carries(changes[changes.len() - 1].0, changes[changes.len() - 1].1));
        law_log_append_rebuilds(
            snapshot_lines,
            log_lines + log_lines_of(prev),
            apply_sets(m, prev),
            c.0,
            c.1,
        );
        assert((log_lines + log_lines_of(prev)).push(log_line(c.0, c.1)) =~= log_lines
            + log_lines_of(changes));
    }
}

/// With neither a snapshot nor a log, the store loads empty.
proof fn lemma_no_files_load_empty()
    ensures
        spec_load(Seq::empty(), Seq::empty()) == Ok::<Map<Seq<char>, Seq<char>>, Error>(
            Map::empty(),
        ),
{
    let keep = |l: Seq<char>| !is_blank(l);
    reveal(Seq::filter);
    assert(Seq::<Seq<char>>::empty().filter(keep) =~= Seq::<Seq<char>>::empty());
    assert(Seq::<Seq<char>>::empty().filter(keep).map_values(
        |l: Seq<char>| spec_parse_data_line(l)->0,
    ) =~= Seq::<Entry>::empty());
    assert(entries_map(Seq::<Entry>::empty()) == Map::<Seq<char>, Seq<char>>::empty());
}

/// A store that has never taken a snapshot loads back, from its log alone,
/// the state its changes made from the empty store.
pub proof fn law_load_without_snapshot(changes: Seq<Change>)
    requires
        forall|i: int| 0 <= i < changes.len() ==> log_carries(#[trigger] changes[i].0, changes[i].1),
    ensures
        spec_load(Seq::empty(), log_lines_of(changes)) == Ok::<Map<Seq<char>, Seq<char>>, Error>(
            apply_sets(Map::empty(), changes),
        ),
{
    lemma_no_files_load_empty();
    law_sets_rebuild(Seq::empty(), Seq::empty(), Map::empty(), changes);
    assert(Seq::<Seq<char>>::empty() + log_lines_of(changes) =~= log_lines_of(changes));
}

/// Changes with plain, non-empty keys and plain values leave only such keys
/// and values in the map.
proof fn lemma_sets_stay_plain(m: Map<Seq<char>, Seq<char>>, changes: Seq<Change>)
    requires
        forall|k: Seq<char>| #[trigger]
            m.contains_key(k) ==> k.len() > 0 && plain_key(k) && plain_value(m[k]),
        forall|i: int|
            0 <= i < changes.len() ==> (#[trigger] changes[i].0).len() > 0 && plain_key(
                changes[i].0,
            ) && plain_value(changes[i].1),
    ensures
        forall|k: Seq<char>| #[trigger]
            apply_sets(m, changes).contains_key(k) ==> k.len() > 0 && plain_key(k) && plain_value(
                apply_sets(m, changes)[k],
            ),
    decreases changes.len(),
{
    if changes.len() > 0 {
        let prev = changes.drop_last();
        assert forall|i: int| 0 <= i < prev.len() implies (#[trigger] prev[i].0).len() > 0
            && plain_key(prev[i].0) && plain_value(prev[i].1) by {
            assert(prev[i] == changes[i]);
        }
        lemma_sets_stay_plain(m, prev);
        let c = changes[changes.len() - 1];
        assert(c.0.len() > 0 && plain_key(c.0) && plain_value(c.1));
        let pm = apply_sets(m, prev);
        let nm = apply_sets(m, changes);
        assert(nm == set_effect(pm, c.0, c.1));
        assert forall|k: Seq<char>| #[trigger] nm.contains_key(k) implies k.len() > 0 && plain_key(
            k,
        ) && plain_value(nm[k]) by {
            if k != c.0 {
                assert(pm.contains_key(k));
            }
        }
    }
}

/// The store loads back after any history of changes and snapshots: where a
/// store `s` reached by changes `before` from the empty store took a snapshot,
/// and changes `after` then went to the emptied log, loading the snapshot and
/// the log gives the state of all the changes, made in order from the empty
/// store. (Before any snapshot, `law_load_without_snapshot` gives the same.)
pub proof fn law_load_after_history(s: KvStore, before: Seq<Change>, after: Seq<Change>)
    requires
        s.wf(),
        s@ == apply_sets(Map::empty(), before),
        forall|i: int|
            0 <= i < before.len() ==> (#[trigger] before[i].0).len() > 0 && plain_key(
                before[i].0,
            ) && plain_value(before[i].1),
        forall|i: int| 0 <= i < after.len() ==> log_carries(#[trigger] after[i].0, after[i].1),
    ensures
        spec_load(s.entries().map_values(|e: Entry| data_line(e.0, e.1)), log_lines_of(after))
            == Ok::<Map<Seq<char>, Seq<char>>, Error>(
            apply_sets(Map::empty(), before + after),
        ),
    decreases after.len(),
{
    lemma_sets_stay_plain(Map::empty(), before);
    law_snapshot_round_trip(s);
    let lines = s.entries().map_values(|e: Entry| data_line(e.0, e.1));
    law_sets_rebuild(lines, Seq::empty(), s@, after);
    assert(Seq::<Seq<char>>::empty() + log_lines_of(after) =~= log_lines_of(after));
    lemma_apply_sets_append(Map::empty(), before, after);
}

proof fn lemma_apply_sets_append(m: Map<Seq<char>, Seq<char>>, a: Seq<Change>, b: Seq<Change>)
    ensures
        apply_sets(m, a + b) == apply_sets(apply_sets(m, a), b),
    decreases b.len(),
{
    if b.len() == 0 {
        assert(a + b =~= a);
    } else {
        lemma_apply_sets_append(m, a, b.drop_last());
        assert((a + b).drop_last() =~= a + b.drop_last());
        assert((a + b).last() == b.last());
    }
}

} // verus!
