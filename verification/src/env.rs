//! Environment entries and the ordered, unique-by-key map that holds a
//! profile's variables, with the canonical text in which a map is encrypted.
//!
//! The text has one `KEY=VALUE` line per entry, each ended by a newline, in
//! the map's order. Reading it back splits at newlines, ignores every line
//! without `=`, splits each other line at its first `=`, and lets a later
//! entry replace the value of an earlier one with the same key.

use crate::error::{CipherError, EnvioError};
use crate::text::{
    chars_of, find_char, first_index, lemma_first_index, lemma_first_index_bounds, text_between,
    text_of_utf8, utf8_of,
};
use vstd::prelude::*;
use vstd::string::StringExecFns;
use vstd::utf8::{decode_utf8, encode_utf8, valid_utf8};

verus! {

/// One entry as a pair of key and value.
pub type Entry = (Seq<char>, Seq<char>);

/// One environment variable.
#[derive(Debug, PartialEq, Eq)]
pub struct Env {
    pub key: String,
    pub value: String,
}

impl View for Env {
    type V = Entry;

    open spec fn view(&self) -> Entry {
        (self.key@, self.value@)
    }
}

impl Clone for Env {
    fn clone(&self) -> (copy: Self)
        ensures
            copy@ == self@,
    {
        Env { key: self.key.clone(), value: self.value.clone() }
    }
}

impl Env {
    /// The entry `key = value`.
    pub fn from_key_value(key: String, value: String) -> (env: Env)
        ensures
            env@ == (key@, value@),
    {
        Env { key, value }
    }
}

/// The position of the first entry with key `key`, or the number of entries
/// where there is none.
pub open spec fn key_index(entries: Seq<Entry>, key: Seq<char>) -> int
    decreases entries.len(),
{
    if entries.len() == 0 {
        0
    } else if entries[0].0 == key {
        0
    } else {
        1 + key_index(entries.drop_first(), key)
    }
}

/// No two entries have the same key.
pub open spec fn distinct_keys(entries: Seq<Entry>) -> bool {
    forall|i: int, j: int|
        0 <= i < j < entries.len() ==> (#[trigger] entries[i]).0 != (#[trigger] entries[j]).0
}

/// `entries` with `entry` put in: in place of the entry with the same key
/// where there is one, at the end otherwise.
pub open spec fn with_entry(entries: Seq<Entry>, entry: Entry) -> Seq<Entry> {
    let at = key_index(entries, entry.0);
    if at < entries.len() {
        entries.update(at, entry)
    } else {
        entries.push(entry)
    }
}

/// The value stored under `key`, if there is one.
pub open spec fn value_of(entries: Seq<Entry>, key: Seq<char>) -> Option<Seq<char>> {
    let at = key_index(entries, key);
    if at < entries.len() {
        Some(entries[at].1)
    } else {
        None
    }
}

/// The line of one entry: key, `=`, value, newline.
pub open spec fn line_of(entry: Entry) -> Seq<char> {
    entry.0 + seq!['='] + entry.1 + seq!['\n']
}

/// The canonical text of a list of entries: their lines, in order.
pub open spec fn text_of(entries: Seq<Entry>) -> Seq<char>
    decreases entries.len(),
{
    if entries.len() == 0 {
        Seq::empty()
    } else {
        line_of(entries[0]) + text_of(entries.drop_first())
    }
}

/// The entry that one line stands for: what is before its first `=` and what
/// is after it. A line without `=` stands for none.
pub open spec fn parse_line(line: Seq<char>) -> Option<Entry> {
    let at = first_index(line, '=');
    if at < line.len() {
        Some((line.subrange(0, at), line.subrange(at + 1, line.len() as int)))
    } else {
        None
    }
}

/// A line as it is handed to [`parse_line`]. With `crlf`, a carriage return
/// just before the newline that ended the line belongs to the line ending.
pub open spec fn trim_line(line: Seq<char>, ended: bool, crlf: bool) -> Seq<char> {
    if crlf && ended && line.len() > 0 && line.last() == '\r' {
        line.drop_last()
    } else {
        line
    }
}

/// `entries` after every line of `text` has been read into it, in order.
pub open spec fn parse_into(entries: Seq<Entry>, text: Seq<char>, crlf: bool) -> Seq<Entry>
    decreases text.len(),
{
    if text.len() == 0 {
        entries
    } else {
        proof {
            lemma_first_index_bounds(text, '\n');
        }
        let end = first_index(text, '\n');
        let ended = end < text.len();
        let line = trim_line(text.subrange(0, end), ended, crlf);
        let rest = if ended {
            text.subrange(end + 1, text.len() as int)
        } else {
            Seq::empty()
        };
        let next = match parse_line(line) {
            Some(entry) => with_entry(entries, entry),
            None => entries,
        };
        parse_into(next, rest, crlf)
    }
}

/// The entries that a canonical text stands for.
pub open spec fn parse_text(text: Seq<char>) -> Seq<Entry> {
    parse_into(Seq::empty(), text, false)
}

/// The bytes in which a list of entries is encrypted: its text in UTF-8.
pub open spec fn bytes_of(entries: Seq<Entry>) -> Seq<u8> {
    encode_utf8(text_of(entries))
}

/// The entries that a decrypted payload stands for, or `None` where the
/// payload is not UTF-8.
pub open spec fn parse_bytes(bytes: Seq<u8>) -> Option<Seq<Entry>> {
    if valid_utf8(bytes) {
        Some(parse_text(decode_utf8(bytes)))
    } else {
        None
    }
}

/// [`key_index`] is the one position that holds `key` with no such key before it.
pub proof fn lemma_key_index(entries: Seq<Entry>, key: Seq<char>, at: int)
    requires
        0 <= at <= entries.len(),
        forall|j: int| 0 <= j < at ==> (#[trigger] entries[j]).0 != key,
        at < entries.len() ==> entries[at].0 == key,
    ensures
        key_index(entries, key) == at,
    decreases entries.len(),
{
    if entries.len() > 0 && at > 0 {
        let rest = entries.drop_first();
        assert(entries[0].0 != key);
        assert forall|j: int| 0 <= j < at - 1 implies (#[trigger] rest[j]).0 != key by {
            assert(rest[j] == entries[j + 1]);
        }
        lemma_key_index(rest, key, at - 1);
    }
}

/// [`key_index`] stays within the entries and stops at the first match.
pub proof fn lemma_key_index_bounds(entries: Seq<Entry>, key: Seq<char>)
    ensures
        0 <= key_index(entries, key) <= entries.len(),
        forall|j: int| 0 <= j < key_index(entries, key) ==> (#[trigger] entries[j]).0 != key,
        key_index(entries, key) < entries.len() ==> entries[key_index(entries, key)].0 == key,
    decreases entries.len(),
{
    if entries.len() > 0 && entries[0].0 != key {
        let rest = entries.drop_first();
        lemma_key_index_bounds(rest, key);
        assert forall|j: int| 0 <= j < key_index(entries, key) implies (#[trigger] entries[j]).0
            != key by {
            if j > 0 {
                assert(entries[j] == rest[j - 1]);
            }
        }
    }
}

/// Putting an entry in keeps the keys distinct.
pub proof fn lemma_with_entry_distinct(entries: Seq<Entry>, entry: Entry)
    requires
        distinct_keys(entries),
    ensures
        distinct_keys(with_entry(entries, entry)),
{
    lemma_key_index_bounds(entries, entry.0);
    let at = key_index(entries, entry.0);
    let after = with_entry(entries, entry);
    assert forall|i: int, j: int| 0 <= i < j < after.len() implies (#[trigger] after[i]).0 != (
    #[trigger] after[j]).0 by {
        if at < entries.len() {
            assert(after[i].0 == entries[i].0);
            assert(after[j].0 == entries[j].0);
        } else {
            if j < entries.len() {
                assert(after[i] == entries[i]);
                assert(after[j] == entries[j]);
            } else {
                assert(after[i] == entries[i]);
            }
        }
    }
}

/// An ordered map of environment variables in which every key occurs once.
#[derive(Debug, PartialEq, Eq)]
pub struct EnvMap {
    envs: Vec<Env>,
}

impl View for EnvMap {
    type V = Seq<Entry>;

    closed spec fn view(&self) -> Seq<Entry> {
        entries_of(self.envs@)
    }
}

/// The entries that a list of variables holds.
pub open spec fn entries_of(envs: Seq<Env>) -> Seq<Entry> {
    Seq::new(envs.len(), |i: int| envs[i]@)
}

impl EnvMap {
    #[verifier::type_invariant]
    spec fn unique(self) -> bool {
        distinct_keys(self@)
    }

    /// An empty map.
    pub fn new() -> (map: EnvMap)
        ensures
            map@ == Seq::<Entry>::empty(),
    {
        EnvMap { envs: Vec::new() }
    }

    /// The number of entries.
    pub fn len(&self) -> (n: usize)
        ensures
            n == self@.len(),
    {
        self.envs.len()
    }

    /// Whether the map has no entry.
    pub fn is_empty(&self) -> (b: bool)
        ensures
            b <==> self@.len() == 0,
    {
        self.envs.len() == 0
    }

    /// The entries, in the map's order.
    pub fn envs(&self) -> (envs: &Vec<Env>)
        ensures
            envs@.len() == self@.len(),
            forall|i: int| 0 <= i < self@.len() ==> (#[trigger] envs@[i])@ == self@[i],
            distinct_keys(self@),
    {
        proof {
            use_type_invariant(self);
        }
        &self.envs
    }

    /// The position of the entry with key `key`, or the number of entries.
    fn position(&self, key: &String) -> (at: usize)
        ensures
            at == key_index(self@, key@),
            at <= self@.len(),
    {
        let mut at: usize = 0;
        while at < self.envs.len() && !(self.envs[at].key == *key)
            invariant
                at <= self.envs@.len(),
                forall|j: int| 0 <= j < at ==> (#[trigger] self@[j]).0 != key@,
            decreases self.envs@.len() - at,
        {
            at += 1;
        }
        proof {
            lemma_key_index(self@, key@, at as int);
        }
        at
    }

    /// The value stored under `key`, if there is one.
    pub fn get(&self, key: &str) -> (value: Option<&String>)
        ensures
            match value_of(self@, key@) {
                Some(text) => value matches Some(v) && v@ == text,
                None => value is None,
            },
    {
        let wanted = key.to_owned();
        let at = self.position(&wanted);
        if at < self.envs.len() {
            Some(&self.envs[at].value)
        } else {
            None
        }
    }

    /// Puts `env` in: in place of the entry with the same key where there is
    /// one, at the end otherwise.
    pub fn insert(&mut self, env: Env)
        ensures
            final(self)@ == with_entry(old(self)@, env@),
    {
        proof {
            use_type_invariant(&*self);
            lemma_with_entry_distinct(self@, env@);
        }
        let at = self.position(&env.key);
        let mut taken = EnvMap { envs: Vec::new() };
        core::mem::swap(self, &mut taken);
        let mut envs = taken.envs;
        let ghost before = envs@;
        if at < envs.len() {
            envs[at] = env;
            proof {
                assert(entries_of(envs@) == entries_of(before).update(at as int, env@));
            }
        } else {
            envs.push(env);
            proof {
                assert(entries_of(envs@) == entries_of(before).push(env@));
            }
        }
        *self = EnvMap { envs };
    }

    /// Reads the lines of `text` into a new map. With `crlf`, a line may end
    /// in a carriage return and a newline.
    pub fn parse(text: &str, crlf: bool) -> (map: EnvMap)
        ensures
            map@ == parse_into(Seq::empty(), text@, crlf),
            distinct_keys(map@),
    {
        let chars = chars_of(text);
        let total: usize = chars.len();
        let mut map = EnvMap::new();
        let mut start: usize = 0;
        proof {
            assert(chars@.subrange(0, total as int) == chars@);
        }
        while start < total
            invariant
                start <= total == chars@.len(),
                parse_into(Seq::empty(), chars@, crlf) == parse_into(
                    map@,
                    chars@.subrange(start as int, total as int),
                    crlf,
                ),
            decreases total - start,
        {
            let ghost suffix = chars@.subrange(start as int, total as int);
            let end = find_char(&chars, start, total, '\n');
            let ended = end < total;
            let mut line_end: usize = end;
            if crlf && ended && line_end > start && chars[line_end - 1] == '\r' {
                line_end -= 1;
            }
            let ghost line = chars@.subrange(start as int, line_end as int);
            let eq = find_char(&chars, start, line_end, '=');
            proof {
                assert(suffix.subrange(0, end - start) == chars@.subrange(
                    start as int,
                    end as int,
                ));
                assert(trim_line(suffix.subrange(0, end - start), ended, crlf) == line) by {
                    let raw = chars@.subrange(start as int, end as int);
                    if crlf && ended && raw.len() > 0 && raw.last() == '\r' {
                        assert(raw.drop_last() == line);
                    }
                }
                assert(line.subrange(0, eq - start) == chars@.subrange(start as int, eq as int));
                if eq < line_end {
                    assert(line.subrange(eq - start + 1, line.len() as int) == chars@.subrange(
                        eq + 1,
                        line_end as int,
                    ));
                }
                if ended {
                    assert(suffix.subrange(end - start + 1, suffix.len() as int)
                        == chars@.subrange(end + 1, total as int));
                } else {
                    assert(chars@.subrange(total as int, total as int) == Seq::<char>::empty());
                }
            }
            if eq < line_end {
                let key = text_between(&chars, start, eq);
                let value = text_between(&chars, eq + 1, line_end);
                map.insert(Env { key, value });
            }
            start = if ended {
                end + 1
            } else {
                total
            };
        }
        proof {
            use_type_invariant(&map);
        }
        map
    }

    /// Reads a canonical text into a new map.
    pub fn from_text(text: &str) -> (map: EnvMap)
        ensures
            map@ == parse_text(text@),
            distinct_keys(map@),
    {
        EnvMap::parse(text, false)
    }

    /// The canonical text of the map.
    pub fn to_text(&self) -> (text: String)
        ensures
            text@ == text_of(self@),
    {
        let mut text = String::new();
        let mut i: usize = 0;
        proof {
            assert(self@.subrange(0, self@.len() as int) == self@);
            assert(text@ + text_of(self@) == text_of(self@));
        }
        while i < self.envs.len()
            invariant
                i <= self.envs@.len(),
                text_of(self@) == text@ + text_of(self@.subrange(i as int, self@.len() as int)),
            decreases self.envs@.len() - i,
        {
            let ghost rest = self@.subrange(i as int, self@.len() as int);
            let ghost before = text@;
            proof {
                reveal_strlit("=");
                reveal_strlit("\n");
                assert("="@ == seq!['=']);
                assert("\n"@ == seq!['\n']);
                assert(rest[0] == self.envs@[i as int]@);
                assert(rest.drop_first() == self@.subrange(i + 1, self@.len() as int));
            }
            text.append(self.envs[i].key.as_str());
            text.append("=");
            text.append(self.envs[i].value.as_str());
            text.append("\n");
            proof {
                let tail = text_of(rest.drop_first());
                assert(text@ == before + line_of(rest[0]));
                assert(before + (line_of(rest[0]) + tail) == (before + line_of(rest[0])) + tail);
            }
            i += 1;
        }
        proof {
            assert(self@.subrange(self@.len() as int, self@.len() as int) == Seq::<
                Entry,
            >::empty());
            assert(text@ + Seq::<char>::empty() == text@);
        }
        text
    }

    /// The bytes in which the map is encrypted: its canonical text in UTF-8.
    pub fn as_bytes(&self) -> (bytes: Vec<u8>)
        ensures
            bytes@ == bytes_of(self@),
            distinct_keys(self@),
    {
        proof {
            use_type_invariant(self);
        }
        let text = self.to_text();
        utf8_of(text.as_str())
    }

    /// Reads a decrypted payload into a new map. Fails exactly where the
    /// payload is not UTF-8.
    pub fn from_bytes(bytes: Vec<u8>) -> (r: Result<EnvMap, EnvioError>)
        ensures
            match parse_bytes(bytes@) {
                Some(entries) => r matches Ok(map) && map@ == entries,
                None => r == Err::<EnvMap, EnvioError>(
                    EnvioError::Cipher(CipherError::InvalidPlaintext),
                ),
            },
    {
        match text_of_utf8(bytes) {
            Some(text) => Ok(EnvMap::from_text(text.as_str())),
            None => Err(EnvioError::Cipher(CipherError::InvalidPlaintext)),
        }
    }
}

impl Clone for EnvMap {
    fn clone(&self) -> (copy: Self)
        ensures
            copy@ == self@,
    {
        proof {
            use_type_invariant(self);
        }
        let mut envs: Vec<Env> = Vec::new();
        let mut i: usize = 0;
        while i < self.envs.len()
            invariant
                i <= self.envs@.len(),
                entries_of(envs@) == self@.subrange(0, i as int),
            decreases self.envs@.len() - i,
        {
            let env = self.envs[i].clone();
            envs.push(env);
            proof {
                assert(entries_of(envs@) == self@.subrange(0, i as int).push(
                    self.envs@[i as int]@,
                ));
                assert(self@.subrange(0, i as int).push(self.envs@[i as int]@)
                    == self@.subrange(0, i + 1));
            }
            i += 1;
        }
        proof {
            assert(self@.subrange(0, self@.len() as int) == self@);
        }
        EnvMap { envs }
    }
}

impl Default for EnvMap {
    fn default() -> (map: Self)
        ensures
            map@ == Seq::<Entry>::empty(),
    {
        EnvMap::new()
    }
}

/// An entry that its own line can carry: the key holds neither `=` nor a
/// newline, and the value holds no newline.
pub open spec fn plain_entry(entry: Entry) -> bool {
    &&& forall|i: int| 0 <= i < entry.0.len() ==> entry.0[i] != '=' && entry.0[i] != '\n'
    &&& forall|i: int| 0 <= i < entry.1.len() ==> entry.1[i] != '\n'
}

/// Every entry is a [`plain_entry`].
pub open spec fn plain_entries(entries: Seq<Entry>) -> bool {
    forall|i: int| 0 <= i < entries.len() ==> plain_entry(#[trigger] entries[i])
}

/// Reading the text of entries with distinct keys, none of them in `seen`,
/// appends them to `seen` in order.
pub proof fn lemma_parse_into_text(seen: Seq<Entry>, entries: Seq<Entry>)
    requires
        distinct_keys(seen + entries),
        plain_entries(entries),
    ensures
        parse_into(seen, text_of(entries), false) == seen + entries,
    decreases entries.len(),
{
    if entries.len() == 0 {
        assert(seen + entries == seen);
    } else {
        let entry = entries[0];
        let rest = entries.drop_first();
        let text = text_of(entries);
        let line = entry.0 + seq!['='] + entry.1;
        let end = line.len() as int;
        assert(plain_entry(entry));
        assert(text == line_of(entry) + text_of(rest));
        assert(text[end] == '\n');
        assert forall|j: int| 0 <= j < end implies text[j] != '\n' by {
            if j < entry.0.len() {
                assert(text[j] == entry.0[j]);
            } else if j == entry.0.len() {
                assert(text[j] == '=');
            } else {
                assert(text[j] == entry.1[j - entry.0.len() - 1]);
            }
        }
        lemma_first_index(text, '\n', end);
        assert(text.subrange(0, end) == line);
        assert(text.subrange(end + 1, text.len() as int) == text_of(rest));
        let at = entry.0.len() as int;
        assert(line[at] == '=');
        assert forall|j: int| 0 <= j < at implies line[j] != '=' by {
            assert(line[j] == entry.0[j]);
        }
        lemma_first_index(line, '=', at);
        assert(line.subrange(0, at) == entry.0);
        assert(line.subrange(at + 1, line.len() as int) == entry.1);
        assert(parse_line(line) == Some(entry));
        let whole = seen + entries;
        assert(whole[seen.len() as int] == entry);
        assert forall|j: int| 0 <= j < seen.len() implies (#[trigger] seen[j]).0 != entry.0 by {
            assert(whole[j] == seen[j]);
        }
        lemma_key_index(seen, entry.0, seen.len() as int);
        assert(with_entry(seen, entry) == seen.push(entry));
        assert(seen.push(entry) + rest == seen + entries);
        assert forall|i: int| 0 <= i < rest.len() implies plain_entry(#[trigger] rest[i]) by {
            assert(rest[i] == entries[i + 1]);
        }
        lemma_parse_into_text(seen.push(entry), rest);
    }
}

/// Reading inverts writing: the canonical text, and the bytes, of entries with
/// distinct keys read back as the same entries in the same order, provided
/// that no key holds `=` or a newline and no value holds a newline.
pub proof fn lemma_parse_inverts_text(entries: Seq<Entry>)
    requires
        distinct_keys(entries),
        plain_entries(entries),
    ensures
        parse_text(text_of(entries)) == entries,
        parse_bytes(bytes_of(entries)) == Some(entries),
{
    broadcast use vstd::utf8::encode_utf8_valid_utf8, vstd::utf8::encode_utf8_decode_utf8;

    assert(Seq::<Entry>::empty() + entries == entries);
    lemma_parse_into_text(Seq::empty(), entries);
}

/// Reading any text gives entries with distinct keys.
pub proof fn lemma_parse_into_distinct(seen: Seq<Entry>, text: Seq<char>, crlf: bool)
    requires
        distinct_keys(seen),
    ensures
        distinct_keys(parse_into(seen, text, crlf)),
    decreases text.len(),
{
    if text.len() > 0 {
        lemma_first_index_bounds(text, '\n');
        let end = first_index(text, '\n');
        let ended = end < text.len();
        let line = trim_line(text.subrange(0, end), ended, crlf);
        let rest = if ended {
            text.subrange(end + 1, text.len() as int)
        } else {
            Seq::empty()
        };
        match parse_line(line) {
            Some(entry) => {
                lemma_with_entry_distinct(seen, entry);
                lemma_parse_into_distinct(with_entry(seen, entry), rest, crlf);
            },
            None => {
                lemma_parse_into_distinct(seen, rest, crlf);
            },
        }
    }
}

} // verus!
