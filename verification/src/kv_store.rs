//! The key-value store: an in-memory map whose changes are written as lines
//! of an operation log, and whose whole state can be written as a snapshot.
//! Loading reads the snapshot, then replays the log over it.

use vstd::prelude::*;

use crate::entries::{
    entries_map, has_key, lemma_entries_map_dom, lemma_entries_map_len, lemma_entries_map_remove,
    lemma_entries_map_update, lemma_entries_map_value, pair_views, unique_keys, Entry,
};
use crate::error::Error;
use crate::persistence::log::{log_line, read_all_operations, spec_read_all_operations};
use crate::persistence::store::{data_line, load_snapshot, save_snapshot, spec_load_snapshot};
use crate::command::views;
use crate::text::{chars_of, chars_start_with_set, push_char, starts_with_set, unescape, unescape_quotes};

verus! {

/// The map after `set` of a key to a value: an empty value removes the key.
pub open spec fn set_effect(m: Map<Seq<char>, Seq<char>>, k: Seq<char>, v: Seq<char>) -> Map<
    Seq<char>,
    Seq<char>,
> {
    if v.len() == 0 {
        m.remove(k)
    } else {
        m.insert(k, v)
    }
}

/// The key-value store. Its entries hold no key twice.
///
/// The entries are kept in a list of pairs whose keys are unique, not in a
/// `HashMap<String, String>`: Verus cannot reason about `std`'s `HashMap`
/// with `String` keys (nothing establishes that `String` hashes by its
/// characters), and vstd's `StringHashMap` offers no way to go through its
/// entries, which a snapshot needs. Reads and writes go through the list.
pub struct KvStore {
    data: Vec<(String, String)>,
}

impl View for KvStore {
    type V = Map<Seq<char>, Seq<char>>;

    open spec fn view(&self) -> Map<Seq<char>, Seq<char>> {
        entries_map(self.entries())
    }
}

impl KvStore {
    /// The entries of the store, in the order in which a snapshot lists them.
    pub closed spec fn entries(&self) -> Seq<Entry> {
        pair_views(self.data@)
    }

    /// The store is well formed: no key occurs twice among its entries. Every
    /// store is; `use_type_invariant` gives it of any store that code holds.
    #[verifier::type_invariant]
    pub open spec fn wf(&self) -> bool {
        unique_keys(self.entries())
    }

    /// An empty store.
    pub fn new() -> (s: Self)
        ensures
            s@ == Map::<Seq<char>, Seq<char>>::empty(),
            s.entries().len() == 0,
    {
        let s = KvStore { data: Vec::new() };
        assert(s.entries() =~= Seq::<Entry>::empty());
        s
    }

    /// The value of `key`, if the store holds it.
    pub fn get(&self, key: &str) -> (r: Option<&str>)
        ensures
            match r {
                Some(v) => self@.contains_key(key@) && v@ == self@[key@],
                None => !self@.contains_key(key@),
            },
    {
        proof {
            use_type_invariant(self);
            lemma_entries_map_dom(self.entries(), key@);
        }
        match find_in(&self.data, key) {
            Some(i) => {
                proof {
                    lemma_entries_map_value(self.entries(), i as int);
                }
                Some(self.data[i].1.as_str())
            },
            None => None,
        }
    }

    /// The number of keys in the store.
    pub fn len(&self) -> (n: usize)
        ensures
            n == self@.len(),
    {
        proof {
            use_type_invariant(self);
            lemma_entries_map_len(self.entries());
        }
        self.data.len()
    }

    /// Whether the store holds no key.
    pub fn is_empty(&self) -> (b: bool)
        ensures
            b == (self@.len() == 0),
    {
        proof {
            use_type_invariant(self);
            lemma_entries_map_len(self.entries());
        }
        self.data.len() == 0
    }

    /// Gives `key` the value `value`, in place or as a new last entry.
    pub(crate) fn insert_entry(&mut self, key: String, value: String)
        ensures
            final(self)@ == old(self)@.insert(key@, value@),
    {
        proof {
            use_type_invariant(&*self);
        }
        let mut data: Vec<(String, String)> = Vec::new();
        std::mem::swap(&mut data, &mut self.data);
        insert_into(&mut data, key, value);
        self.data = data;
    }

    /// Drops `key` from the store, if it is there.
    pub(crate) fn remove_entry(&mut self, key: &str)
        ensures
            final(self)@ == old(self)@.remove(key@),
    {
        proof {
            use_type_invariant(&*self);
        }
        let mut data: Vec<(String, String)> = Vec::new();
        std::mem::swap(&mut data, &mut self.data);
        remove_from(&mut data, key);
        self.data = data;
    }

    /// Gives `key` the value `value`; an empty value removes the key. Returns
    /// the line to append to the operation log: `set "key" "value"`, with each
    /// double quote of the value escaped, or `set "key"` for a removal.
    pub fn set(&mut self, key: &str, value: &str) -> (line: String)
        ensures
            final(self)@ == set_effect(old(self)@, key@, value@),
            line@ == log_line(key@, value@),
    {
        let line = crate::persistence::log::format_operation(key, value);
        if value.is_empty() {
            self.remove_entry(key);
        } else {
            self.insert_entry(String::from_str(key), String::from_str(value));
        }
        line
    }
}

impl Default for KvStore {
    fn default() -> (s: Self)
        ensures
            s@ == Map::<Seq<char>, Seq<char>>::empty(),
    {
        Self::new()
    }
}

impl KvStore {
    /// The snapshot of the store: one line `"key" "value"` per entry, in the
    /// order of `entries`.
    pub fn snapshot(&self) -> (lines: Vec<String>)
        ensures
            views(lines@) == self.entries().map_values(
                |e: Entry| data_line(e.0, e.1),
            ),
    {
        save_snapshot(&self.data)
    }

    /// Rebuilds a store from the lines of its snapshot and of its operation
    /// log: reads the snapshot, then applies every operation of the log in
    /// order. Fails with `InvalidDataFile` where the snapshot cannot be read,
    /// and otherwise with `InvalidLogFile` where the log cannot.
    pub fn load(snapshot_lines: &Vec<String>, log_lines: &Vec<String>) -> (r: Result<
        KvStore,
        Error,
    >)
        ensures
            match (r, spec_load(views(snapshot_lines@), views(log_lines@))) {
                (Ok(s), Ok(m)) => s@ == m,
                (Err(e), Err(f)) => e == f,
                _ => false,
            },
    {
        let pairs = match load_snapshot(snapshot_lines) {
            Ok(p) => p,
            Err(e) => {
                return Err(e);
            },
        };
        let mut storage = KvStore::new();
        let mut i: usize = 0;
        while i < pairs.len()
            invariant
                i <= pairs.len(),
                storage@ == entries_map(pair_views(pairs@).take(i as int)),
            decreases pairs.len() - i,
        {
            let ghost before = pair_views(pairs@).take(i as int);
            storage.insert_entry(pairs[i].0.clone(), pairs[i].1.clone());
            assert(pair_views(pairs@).take(i + 1).drop_last() =~= before);
            i = i + 1;
        }
        assert(pair_views(pairs@).take(pairs.len() as int) =~= pair_views(pairs@));
        let operations = match read_all_operations(log_lines) {
            Ok(ops) => ops,
            Err(e) => {
                return Err(e);
            },
        };
        let ghost base = storage@;
        let mut j: usize = 0;
        while j < operations.len()
            invariant
                j <= operations.len(),
                storage@ == replay(base, views(operations@).take(j as int)),
            decreases operations.len() - j,
        {
            apply_operation(&mut storage, operations[j].as_str());
            assert(views(operations@).take(j + 1).drop_last() =~= views(operations@).take(
                j as int,
            ));
            j = j + 1;
        }
        assert(views(operations@).take(operations.len() as int) =~= views(operations@));
        Ok(storage)
    }
}

/// The position of the entry for `key` among the entries, if there is one.
fn find_in(data: &Vec<(String, String)>, key: &str) -> (r: Option<usize>)
    ensures
        match r {
            Some(i) => i < data.len() && pair_views(data@)[i as int].0 == key@,
            None => !has_key(pair_views(data@), key@),
        },
{
    let k = String::from_str(key);
    let mut i: usize = 0;
    while i < data.len()
        invariant
            i <= data.len(),
            k@ == key@,
            forall|j: int| 0 <= j < i ==> #[trigger] pair_views(data@)[j].0 != key@,
        decreases data.len() - i,
    {
        assert(pair_views(data@)[i as int].0 == data@[i as int].0@);
        if data[i].0 == k {
            return Some(i);
        }
        i = i + 1;
    }
    None
}

/// Gives `key` the value `value` among entries with unique keys, in place or
/// as a new last entry.
fn insert_into(data: &mut Vec<(String, String)>, key: String, value: String)
    requires
        unique_keys(pair_views(old(data)@)),
    ensures
        unique_keys(pair_views(final(data)@)),
        entries_map(pair_views(final(data)@)) == entries_map(pair_views(old(data)@)).insert(
            key@,
            value@,
        ),
{
    let ghost s = pair_views(data@);
    match find_in(data, key.as_str()) {
        Some(i) => {
            proof {
                lemma_entries_map_update(s, i as int, value@);
            }
            data.set(i, (key, value));
            assert(pair_views(data@) =~= s.update(i as int, (s[i as int].0, value@)));
        },
        None => {
            let ghost k = key@;
            let ghost v = value@;
            data.push((key, value));
            let ghost t = pair_views(data@);
            assert(t =~= s.push((k, v)));
            assert(t.drop_last() =~= s);
            assert(unique_keys(t)) by {
                assert forall|a: int, b: int|
                    0 <= a < t.len() && 0 <= b < t.len() && a != b implies t[a].0 != t[b].0 by {
                    if a < s.len() && b < s.len() {
                    } else if a < s.len() {
                        assert(s[a].0 != k);
                    } else {
                        assert(s[b].0 != k);
                    }
                }
            }
        },
    }
}

/// Drops `key` from entries with unique keys, if it is there.
fn remove_from(data: &mut Vec<(String, String)>, key: &str)
    requires
        unique_keys(pair_views(old(data)@)),
    ensures
        unique_keys(pair_views(final(data)@)),
        entries_map(pair_views(final(data)@)) == entries_map(pair_views(old(data)@)).remove(
            key@,
        ),
{
    let ghost s = pair_views(data@);
    match find_in(data, key) {
        Some(i) => {
            proof {
                lemma_entries_map_remove(s, i as int);
            }
            data.remove(i);
            assert(pair_views(data@) =~= s.remove(i as int));
        },
        None => {
            proof {
                lemma_entries_map_dom(s, key@);
            }
            assert(entries_map(s) =~= entries_map(s).remove(key@));
        },
    }
}

/// The map after the operations of a log, applied in order over `m`.
pub open spec fn replay(m: Map<Seq<char>, Seq<char>>, ops: Seq<Seq<char>>) -> Map<
    Seq<char>,
    Seq<char>,
>
    decreases ops.len(),
{
    if ops.len() == 0 {
        m
    } else {
        apply_op(replay(m, ops.drop_last()), ops.last())
    }
}

/// The map that a snapshot and a log, given by their lines, rebuild; or the
/// error that refuses one of them.
pub open spec fn spec_load(snapshot_lines: Seq<Seq<char>>, log_lines: Seq<Seq<char>>) -> Result<
    Map<Seq<char>, Seq<char>>,
    Error,
> {
    match spec_load_snapshot(snapshot_lines) {
        Err(e) => Err(e),
        Ok(entries) => match spec_read_all_operations(log_lines) {
            Err(e) => Err(e),
            Ok(ops) => Ok(replay(entries_map(entries), ops)),
        },
    }
}

/// Which part of an operation is being read.
#[derive(PartialEq, Eq, Clone, Copy, Structural)]
pub enum ParsePhase {
    Key,
    Value,
}

/// The state of the reading of an operation's arguments.
#[derive(Clone, Copy)]
pub struct ParseState {
    pub in_quotes: bool,
    pub escaped: bool,
    pub phase: ParsePhase,
}

/// The state before the first character.
pub open spec fn parse_init() -> ParseState {
    ParseState { in_quotes: false, escaped: false, phase: ParsePhase::Key }
}

impl Default for ParseState {
    fn default() -> (st: Self)
        ensures
            st == parse_init(),
    {
        Self { in_quotes: false, escaped: false, phase: ParsePhase::Key }
    }
}

/// The key and value read so far, with the state of the reading.
pub struct KvScan {
    pub state: ParseState,
    pub key: Seq<char>,
    pub value: Seq<char>,
}

/// The scan with `c` added to the key or to the value.
pub open spec fn kv_add(sc: KvScan, c: char, is_key: bool) -> KvScan {
    if is_key {
        KvScan { key: sc.key.push(c), ..sc }
    } else {
        KvScan { value: sc.value.push(c), ..sc }
    }
}

/// One character of an operation's arguments: a character after a backslash
/// is kept as it is; inside quotes a backslash is kept and escapes the next
/// character; a double quote opens or closes a quoted part; the first space
/// outside quotes ends the key; every other character is kept.
pub open spec fn kv_step(sc: KvScan, c: char) -> KvScan {
    let st = sc.state;
    let is_key = st.phase == ParsePhase::Key;
    if st.escaped {
        kv_add(KvScan { state: ParseState { escaped: false, ..st }, ..sc }, c, is_key)
    } else if c == '\\' && st.in_quotes {
        kv_add(KvScan { state: ParseState { escaped: true, ..st }, ..sc }, c, is_key)
    } else if c == '"' {
        KvScan { state: ParseState { in_quotes: !st.in_quotes, ..st }, ..sc }
    } else if c == ' ' && !st.in_quotes && is_key {
        KvScan { state: ParseState { phase: ParsePhase::Value, ..st }, ..sc }
    } else {
        kv_add(sc, c, is_key)
    }
}

/// The scan after reading the characters `s`.
pub open spec fn kv_run(sc: KvScan, s: Seq<char>) -> KvScan
    decreases s.len(),
{
    if s.len() == 0 {
        sc
    } else {
        kv_run(kv_step(sc, s[0]), s.skip(1))
    }
}

/// The key and value of an operation's arguments, `"key" "value"` or `"key"`.
pub open spec fn spec_parse_kv(s: Seq<char>) -> (Seq<char>, Seq<char>) {
    let sc = kv_run(KvScan { state: parse_init(), key: Seq::empty(), value: Seq::empty() }, s);
    (sc.key, sc.value)
}

/// The map after one operation line: a line that does not begin with `set `
/// changes nothing; otherwise an empty value removes the key and another
/// value, its escaped double quotes restored, is given to the key.
pub open spec fn apply_op(m: Map<Seq<char>, Seq<char>>, line: Seq<char>) -> Map<
    Seq<char>,
    Seq<char>,
> {
    if !starts_with_set(line) {
        m
    } else {
        let (k, v) = spec_parse_kv(line.skip(4));
        if v.len() == 0 {
            m.remove(k)
        } else {
            m.insert(k, unescape_quotes(v))
        }
    }
}

/// Reads the key and the value of an operation's arguments.
pub fn parse_kv(text: &str) -> (r: (String, String))
    ensures
        (r.0@, r.1@) == spec_parse_kv(text@),
{
    let v = chars_of(text);
    let mut key = String::new();
    let mut value = String::new();
    let mut state = ParseState::default();
    let mut i: usize = 0;
    assert(v@.skip(0) =~= v@);
    while i < v.len()
        invariant
            i <= v.len(),
            v@ == text@,
            kv_run(KvScan { state, key: key@, value: value@ }, v@.skip(i as int)) == kv_run(
                KvScan { state: parse_init(), key: Seq::empty(), value: Seq::empty() },
                text@,
            ),
        decreases v.len() - i,
    {
        let ghost rest = v@.skip(i as int);
        assert(rest[0] == v@[i as int]);
        assert(rest.skip(1) =~= v@.skip(i + 1));
        process_char(&mut key, &mut value, &mut state, v[i]);
        i = i + 1;
    }
    assert(v@.skip(v.len() as int) =~= Seq::<char>::empty());
    (key, value)
}

/// Reads one character of an operation's arguments.
pub fn process_char(key: &mut String, value: &mut String, state: &mut ParseState, c: char)
    ensures
        kv_step(KvScan { state: *old(state), key: old(key)@, value: old(value)@ }, c) == (KvScan {
            state: *final(state),
            key: final(key)@,
            value: final(value)@,
        }),
{
    if state.escaped {
        add_char(key, value, c, state.phase == ParsePhase::Key);
        state.escaped = false;
        return;
    }
    if c == '\\' && state.in_quotes {
        state.escaped = true;
        add_char(key, value, c, state.phase == ParsePhase::Key);
        return;
    }
    if c == '"' {
        state.in_quotes = !state.in_quotes;
        return;
    }
    if c == ' ' && !state.in_quotes && state.phase == ParsePhase::Key {
        state.phase = ParsePhase::Value;
        return;
    }
    add_char(key, value, c, state.phase == ParsePhase::Key);
}

/// Adds a character to the key or to the value.
pub fn add_char(key: &mut String, value: &mut String, c: char, is_key: bool)
    ensures
        is_key ==> final(key)@ == old(key)@.push(c) && final(value)@ == old(value)@,
        !is_key ==> final(value)@ == old(value)@.push(c) && final(key)@ == old(key)@,
{
    if is_key {
        push_char(key, c);
    } else {
        push_char(value, c);
    }
}

/// Applies one operation line of the log to the store.
pub fn apply_operation(storage: &mut KvStore, op_line: &str)
    ensures
        final(storage)@ == apply_op(old(storage)@, op_line@),
{
    let v = chars_of(op_line);
    if !chars_start_with_set(&v) {
        return;
    }
    let mut rest: Vec<char> = Vec::new();
    let mut i: usize = 4;
    while i < v.len()
        invariant
            4 <= i <= v.len(),
            rest@ == v@.subrange(4, i as int),
        decreases v.len() - i,
    {
        rest.push(v[i]);
        i = i + 1;
        assert(rest@ =~= v@.subrange(4, i as int));
    }
    assert(rest@ =~= op_line@.skip(4));
    let text = crate::text::string_of(&rest);
    let (key, value) = parse_kv(text.as_str());
    if value.as_str().is_empty() {
        storage.remove_entry(key.as_str());
    } else {
        let vs = chars_of(value.as_str());
        let restored = unescape(&vs);
        storage.insert_entry(key, restored);
    }
}

} // verus!
