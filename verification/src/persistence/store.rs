//! The snapshot: the whole state of the store, one line `"key" "value"` per
//! key, with the double quotes of the value escaped by a backslash.

use vstd::prelude::*;

use crate::command::views;
use crate::entries::{pair_views, Entry};
use crate::error::Error;
use crate::text::{chars_of, escape_quotes, is_blank, push_all, push_char, push_escaped, str_is_blank};

verus! {

/// The snapshot line of a key and its value.
pub open spec fn data_line(k: Seq<char>, v: Seq<char>) -> Seq<char> {
    seq!['"'] + k + seq!['"', ' ', '"'] + escape_quotes(v) + seq!['"']
}

/// The state of the reading of a snapshot line: the key and value read so far,
/// whether a quoted part is open, whether the last character was an escaping
/// backslash, whether the key is still being read, and how many quoted parts
/// were closed.
pub struct DataScan {
    pub key: Seq<char>,
    pub value: Seq<char>,
    pub in_quotes: bool,
    pub escaped: bool,
    pub parsing_key: bool,
    pub quote_count: nat,
}

/// The state before the first character.
pub open spec fn data_init() -> DataScan {
    DataScan {
        key: Seq::empty(),
        value: Seq::empty(),
        in_quotes: false,
        escaped: false,
        parsing_key: true,
        quote_count: 0,
    }
}

/// The state with `c` added to the key or to the value, whichever is being read.
pub open spec fn data_push(st: DataScan, c: char) -> DataScan {
    if st.parsing_key {
        DataScan { key: st.key.push(c), ..st }
    } else {
        DataScan { value: st.value.push(c), ..st }
    }
}

/// One character of a snapshot line: a character after a backslash is taken
/// as it is; a backslash escapes the next one; a double quote opens or closes
/// a quoted part, and the first part closed is the key; other characters count
/// inside quotes only.
pub open spec fn data_step(st: DataScan, c: char) -> DataScan {
    if st.escaped {
        DataScan { escaped: false, ..data_push(st, c) }
    } else if c == '\\' {
        DataScan { escaped: true, ..st }
    } else if c == '"' {
        if st.in_quotes {
            DataScan {
                in_quotes: false,
                quote_count: st.quote_count + 1,
                parsing_key: false,
                ..st
            }
        } else {
            DataScan { in_quotes: true, ..st }
        }
    } else if st.in_quotes {
        data_push(st, c)
    } else {
        st
    }
}

/// The state after reading the characters `s`.
pub open spec fn data_run(st: DataScan, s: Seq<char>) -> DataScan
    decreases s.len(),
{
    if s.len() == 0 {
        st
    } else {
        data_run(data_step(st, s[0]), s.skip(1))
    }
}

/// The key and value of a snapshot line; none where the key is empty or fewer
/// than two quoted parts were closed.
pub open spec fn spec_parse_data_line(s: Seq<char>) -> Option<Entry> {
    let st = data_run(data_init(), s);
    if st.key.len() == 0 || st.quote_count < 2 {
        None
    } else {
        Some((st.key, st.value))
    }
}

/// The entries of a snapshot, given its lines: those of the lines that are not
/// blank, in order; or `InvalidDataFile` where one of them is not a snapshot
/// line.
pub open spec fn spec_load_snapshot(lines: Seq<Seq<char>>) -> Result<Seq<Entry>, Error> {
    if exists|i: int|
        0 <= i < lines.len() && !is_blank(lines[i]) && spec_parse_data_line(lines[i]) is None {
        Err(Error::InvalidDataFile)
    } else {
        Ok(
            lines.filter(|l: Seq<char>| !is_blank(l)).map_values(
                |l: Seq<char>| spec_parse_data_line(l)->0,
            ),
        )
    }
}

/// The reader of one snapshot line.
struct DataLineParser {
    key: String,
    value: String,
    in_quotes: bool,
    escaped: bool,
    parsing_key: bool,
    quote_count: usize,
}

impl View for DataLineParser {
    type V = DataScan;

    closed spec fn view(&self) -> DataScan {
        DataScan {
            key: self.key@,
            value: self.value@,
            in_quotes: self.in_quotes,
            escaped: self.escaped,
            parsing_key: self.parsing_key,
            quote_count: self.quote_count as nat,
        }
    }
}

impl DataLineParser {
    fn new() -> (p: Self)
        ensures
            p@ == data_init(),
    {
        let p = Self {
            key: String::new(),
            value: String::new(),
            in_quotes: false,
            escaped: false,
            parsing_key: true,
            quote_count: 0,
        };
        assert(p@ =~= data_init());
        p
    }

    fn push_char(&mut self, c: char)
        ensures
            final(self)@ == data_push(old(self)@, c),
    {
        if self.parsing_key {
            push_char(&mut self.key, c);
        } else {
            push_char(&mut self.value, c);
        }
    }

    fn process_char(&mut self, c: char)
        requires
            old(self).quote_count < usize::MAX,
        ensures
            final(self)@ == data_step(old(self)@, c),
    {
        if self.escaped {
            self.push_char(c);
            self.escaped = false;
        } else if c == '\\' {
            self.escaped = true;
        } else if c == '"' {
            self.in_quotes = !self.in_quotes;
            if !self.in_quotes {
                self.quote_count = self.quote_count + 1;
                if self.parsing_key {
                    self.parsing_key = false;
                }
            }
        } else if self.in_quotes {
            self.push_char(c);
        }
    }
}

/// Reads the key and the value of a snapshot line.
pub fn parse_data_line(line: &str) -> (r: Result<(String, String), Error>)
    ensures
        match (r, spec_parse_data_line(line@)) {
            (Ok(p), Some(e)) => p.0@ == e.0 && p.1@ == e.1,
            (Err(err), None) => err == Error::InvalidDataFile,
            _ => false,
        },
{
    let v = chars_of(line);
    let mut parser = DataLineParser::new();
    let mut i: usize = 0;
    assert(v@.skip(0) =~= v@);
    while i < v.len()
        invariant
            i <= v.len(),
            v@ == line@,
            parser.quote_count <= i,
            data_run(parser@, v@.skip(i as int)) == data_run(data_init(), line@),
        decreases v.len() - i,
    {
        let ghost rest = v@.skip(i as int);
        assert(rest[0] == v@[i as int]);
        assert(rest.skip(1) =~= v@.skip(i + 1));
        parser.process_char(v[i]);
        i = i + 1;
    }
    assert(v@.skip(v.len() as int) =~= Seq::<char>::empty());
    if parser.key.as_str().is_empty() || parser.quote_count < 2 {
        return Err(Error::InvalidDataFile);
    }
    Ok((parser.key, parser.value))
}

/// Reads the entries of a snapshot given its lines: skips blank lines and
/// refuses the snapshot where another line cannot be read.
pub fn load_snapshot(lines: &Vec<String>) -> (r: Result<Vec<(String, String)>, Error>)
    ensures
        match (r, spec_load_snapshot(views(lines@))) {
            (Ok(ps), Ok(expected)) => pair_views(ps@) == expected,
            (Err(e), Err(f)) => e == f,
            _ => false,
        },
{
    let ghost ls = views(lines@);
    let ghost keep = |l: Seq<char>| !is_blank(l);
    let ghost parse = |l: Seq<char>| spec_parse_data_line(l)->0;
    let mut pairs: Vec<(String, String)> = Vec::new();
    let mut i: usize = 0;
    assert(ls.take(0).filter(keep) =~= Seq::<Seq<char>>::empty()) by {
        reveal(Seq::filter);
    }
    assert(pair_views(pairs@) =~= ls.take(0).filter(keep).map_values(parse));
    while i < lines.len()
        invariant
            i <= lines.len(),
            ls == views(lines@),
            keep == (|l: Seq<char>| !is_blank(l)),
            parse == (|l: Seq<char>| spec_parse_data_line(l)->0),
            forall|j: int|
                0 <= j < i ==> is_blank(#[trigger] ls[j]) || spec_parse_data_line(ls[j]) is Some,
            pair_views(pairs@) == ls.take(i as int).filter(keep).map_values(parse),
        decreases lines.len() - i,
    {
        let line = &lines[i];
        assert(ls[i as int] == line@);
        assert(ls.take(i + 1) =~= ls.take(i as int).push(ls[i as int]));
        proof {
            ls.take(i as int).lemma_filter_push(ls[i as int], keep);
        }
        if !str_is_blank(line.as_str()) {
            match parse_data_line(line.as_str()) {
                Ok(p) => {
                    let ghost before = pairs@;
                    let ghost kept = ls.take(i as int).filter(keep);
                    pairs.push(p);
                    assert(pair_views(pairs@) =~= pair_views(before).push(parse(ls[i as int])));
                    assert(kept.push(ls[i as int]).map_values(parse) =~= kept.map_values(
                        parse,
                    ).push(parse(ls[i as int])));
                },
                Err(e) => {
                    return Err(e);
                },
            }
        }
        i = i + 1;
    }
    assert(ls.take(lines.len() as int) =~= ls);
    Ok(pairs)
}

/// The snapshot lines of the given entries, in their order.
pub fn save_snapshot(entries: &Vec<(String, String)>) -> (lines: Vec<String>)
    ensures
        views(lines@) == pair_views(entries@).map_values(|e: Entry| data_line(e.0, e.1)),
{
    let ghost f = |e: Entry| data_line(e.0, e.1);
    let mut lines: Vec<String> = Vec::new();
    let mut i: usize = 0;
    while i < entries.len()
        invariant
            i <= entries.len(),
            f == (|e: Entry| data_line(e.0, e.1)),
            views(lines@) == pair_views(entries@).take(i as int).map_values(f),
        decreases entries.len() - i,
    {
        let k = chars_of(entries[i].0.as_str());
        let v = chars_of(entries[i].1.as_str());
        let mut line = String::new();
        push_char(&mut line, '"');
        push_all(&mut line, &k);
        push_char(&mut line, '"');
        push_char(&mut line, ' ');
        push_char(&mut line, '"');
        push_escaped(&mut line, &v);
        push_char(&mut line, '"');
        let ghost e = pair_views(entries@)[i as int];
        assert(line@ =~= f(e));
        let ghost before = lines@;
        lines.push(line);
        assert(views(lines@) =~= views(before).push(f(e)));
        assert(pair_views(entries@).take(i + 1) =~= pair_views(entries@).take(i as int).push(e));
        assert(pair_views(entries@).take(i as int).push(e).map_values(f) =~= pair_views(
            entries@,
        ).take(i as int).map_values(f).push(f(e)));
        i = i + 1;
    }
    assert(pair_views(entries@).take(entries.len() as int) =~= pair_views(entries@));
    lines
}

} // verus!
