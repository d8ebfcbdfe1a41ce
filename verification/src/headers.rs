use vstd::prelude::*;

use crate::trim::trim_to_string;
use crate::trim::trimmed;

verus! {

/// A character the transport accepts in a header name: the lowercase
/// token set of the http crate's name table.
pub open spec fn header_name_char(c: char) -> bool {
    ||| c == '!'
    ||| c == '#'
    ||| c == '$'
    ||| c == '%'
    ||| c == '&'
    ||| c == '\''
    ||| c == '*'
    ||| c == '+'
    ||| c == '-'
    ||| c == '.'
    ||| ('0' <= c && c <= '9')
    ||| c == '^'
    ||| c == '_'
    ||| c == '`'
    ||| ('a' <= c && c <= 'z')
    ||| c == '|'
    ||| c == '~'
}

/// A well-formed header name: nonempty, within the transport's length
/// bound, every character from the token set.
pub open spec fn valid_header_name(s: Seq<char>) -> bool {
    &&& 1 <= s.len() <= 0xffff
    &&& forall|i: int| 0 <= i < s.len() ==> header_name_char(#[trigger] s[i])
}

/// A character the transport accepts in a header value: horizontal tab or
/// a visible ASCII character.
pub open spec fn header_value_char(c: char) -> bool {
    c == '\t' || (' ' <= c && c < '\u{7f}')
}

/// A well-formed header value; the empty value is allowed.
pub open spec fn valid_header_value(s: Seq<char>) -> bool {
    forall|i: int| 0 <= i < s.len() ==> header_value_char(#[trigger] s[i])
}

/// A raw pair that construction accepts: after trimming, its name and
/// value are well-formed.  A pair that fails this is a configuration
/// fault, treated as unrecoverable: construction aborts, it does not
/// return an error.
pub open spec fn admissible_pair(name: Seq<char>, value: Seq<char>) -> bool {
    valid_header_name(trimmed(name)) && valid_header_value(trimmed(value))
}

/// Every raw pair of the list is admissible.
pub open spec fn admissible_pairs(pairs: Seq<(&str, &str)>) -> bool {
    forall|i: int| 0 <= i < pairs.len() ==> admissible_pair((#[trigger] pairs[i]).0@, pairs[i].1@)
}

fn name_char(c: char) -> (r: bool)
    ensures
        r == header_name_char(c),
{
    let u: u32 = c as u32;
    u == 0x21 || (0x23 <= u && u <= 0x27) || u == 0x2a || u == 0x2b || u == 0x2d || u == 0x2e || (
    0x30 <= u && u <= 0x39) || (0x5e <= u && u <= 0x60) || (0x61 <= u && u <= 0x7a) || u == 0x7c
        || u == 0x7e
}

fn value_char(c: char) -> (r: bool)
    ensures
        r == header_value_char(c),
{
    let u: u32 = c as u32;
    u == 0x9 || (0x20 <= u && u < 0x7f)
}

fn name_valid(s: &String) -> (r: bool)
    ensures
        r == valid_header_name(s@),
{
    let len = s.as_str().unicode_len();
    if len == 0 || len > 0xffff {
        return false;
    }
    let mut i: usize = 0;
    while i < len
        invariant
            i <= len,
            len == s@.len(),
            1 <= len <= 0xffff,
            forall|k: int| 0 <= k < i ==> header_name_char(#[trigger] s@[k]),
        decreases len - i,
    {
        if !name_char(s.as_str().get_char(i)) {
            return false;
        }
        i += 1;
    }
    true
}

fn value_valid(s: &String) -> (r: bool)
    ensures
        r == valid_header_value(s@),
{
    let len = s.as_str().unicode_len();
    let mut i: usize = 0;
    while i < len
        invariant
            i <= len,
            len == s@.len(),
            forall|k: int| 0 <= k < i ==> header_value_char(#[trigger] s@[k]),
        decreases len - i,
    {
        if !value_char(s.as_str().get_char(i)) {
            return false;
        }
        i += 1;
    }
    true
}

/// Whether construction will accept this raw pair.  Code outside the
/// proofs can test a configuration with this before building a client,
/// rather than run into the abort that a malformed pair provokes.
pub fn pair_admissible(name: &str, value: &str) -> (r: bool)
    ensures
        r == admissible_pair(name@, value@),
{
    let n = trim_to_string(name);
    let v = trim_to_string(value);
    name_valid(&n) && value_valid(&v)
}

/// Whether construction will accept every raw pair of the list.
pub fn pairs_admissible(pairs: &[(&str, &str)]) -> (r: bool)
    ensures
        r == admissible_pairs(pairs@),
{
    let mut i: usize = 0;
    while i < pairs.len()
        invariant
            i <= pairs@.len(),
            forall|k: int|
                0 <= k < i ==> admissible_pair((#[trigger] pairs@[k]).0@, pairs@[k].1@),
        decreases pairs@.len() - i,
    {
        if !pair_admissible(pairs[i].0, pairs[i].1) {
            return false;
        }
        i += 1;
    }
    true
}

/// The raw pairs as character sequences.
pub open spec fn pairs_view(pairs: Seq<(&str, &str)>) -> Seq<(Seq<char>, Seq<char>)> {
    pairs.map_values(|p: (&str, &str)| (p.0@, p.1@))
}

/// The mapping held by a list of already-trimmed entries, a later entry
/// of a name overriding an earlier one.
pub open spec fn entry_map(entries: Seq<(Seq<char>, Seq<char>)>) -> Map<Seq<char>, Seq<char>>
    decreases entries.len(),
{
    if entries.len() == 0 {
        Map::empty()
    } else {
        entry_map(entries.drop_last()).insert(entries.last().0, entries.last().1)
    }
}

/// The header mapping that a list of raw pairs produces: each name and
/// value trimmed before insertion, the last pair of a name winning.
pub open spec fn header_map_of(pairs: Seq<(Seq<char>, Seq<char>)>) -> Map<Seq<char>, Seq<char>>
    decreases pairs.len(),
{
    if pairs.len() == 0 {
        Map::empty()
    } else {
        header_map_of(pairs.drop_last()).insert(
            trimmed(pairs.last().0),
            trimmed(pairs.last().1),
        )
    }
}

/// The index of the last raw pair whose trimmed name is `k`, or -1.
pub open spec fn last_index_of(pairs: Seq<(Seq<char>, Seq<char>)>, k: Seq<char>) -> int
    decreases pairs.len(),
{
    if pairs.len() == 0 {
        -1
    } else if trimmed(pairs.last().0) == k {
        pairs.len() - 1
    } else {
        last_index_of(pairs.drop_last(), k)
    }
}

/// Last write wins: the mapping built from a list of raw pairs holds
/// exactly the trimmed names of the list, and the value stored for a name
/// is the trimmed value of the last pair whose trimmed name equals it.
pub proof fn lemma_header_last_write_wins(pairs: Seq<(Seq<char>, Seq<char>)>, k: Seq<char>)
    ensures
        header_map_of(pairs).contains_key(k) <==> 0 <= last_index_of(pairs, k),
        header_map_of(pairs).contains_key(k) ==> {
            let i = last_index_of(pairs, k);
            &&& i < pairs.len()
            &&& trimmed(pairs[i].0) == k
            &&& header_map_of(pairs)[k] == trimmed(pairs[i].1)
            &&& forall|j: int| i < j < pairs.len() ==> trimmed((#[trigger] pairs[j]).0) != k
        },
    decreases pairs.len(),
{
    if pairs.len() > 0 {
        let s = pairs.drop_last();
        let p = pairs.last();
        lemma_header_last_write_wins(s, k);
        if trimmed(p.0) != k {
            let i = last_index_of(s, k);
            if header_map_of(pairs).contains_key(k) {
                assert(header_map_of(s).contains_key(k));
                assert(pairs[i] == s[i]);
                assert forall|j: int| i < j < pairs.len() implies trimmed(
                    (#[trigger] pairs[j]).0,
                ) != k by {
                    if j < pairs.len() - 1 {
                        assert(pairs[j] == s[j]);
                    } else {
                        assert(pairs[j] == p);
                    }
                }
            }
        }
    }
}

/// An ordered set of header entries whose names and values are trimmed
/// and well-formed and whose names are pairwise distinct: what the
/// transport client's default headers are built from.
pub struct HeaderSet {
    entries: Vec<(String, String)>,
}

impl HeaderSet {
    /// The entries as character sequences, in insertion order.
    pub closed spec fn entries_view(&self) -> Seq<(Seq<char>, Seq<char>)> {
        self.entries@.map_values(|p: (String, String)| (p.0@, p.1@))
    }

    /// Every entry trimmed and well-formed, names pairwise distinct.
    pub open spec fn wf(&self) -> bool {
        let es = self.entries_view();
        &&& forall|i: int| 0 <= i < es.len() ==> {
            &&& trimmed((#[trigger] es[i]).0) == es[i].0
            &&& trimmed(es[i].1) == es[i].1
            &&& valid_header_name(es[i].0)
            &&& valid_header_value(es[i].1)
        }
        &&& forall|i: int, j: int|
            0 <= i < j < es.len() ==> (#[trigger] es[i]).0 != (#[trigger] es[j]).0
    }

    /// A set with no entries.
    pub fn empty() -> (r: HeaderSet)
        ensures
            r.wf(),
            r@ == Map::<Seq<char>, Seq<char>>::empty(),
            r.entries_view().len() == 0,
    {
        let r = HeaderSet { entries: Vec::new() };
        proof {
            assert(r.entries_view() =~= Seq::<(Seq<char>, Seq<char>)>::empty());
        }
        r
    }

    /// The number of entries: one per distinct name held.
    pub fn len(&self) -> (r: usize)
        ensures
            r == self.entries_view().len(),
    {
        self.entries.len()
    }

    /// The entries in insertion order, for the code that converts them
    /// into the transport's own header map.
    pub fn entries(&self) -> (r: &Vec<(String, String)>)
        ensures
            r@.map_values(|p: (String, String)| (p.0@, p.1@)) == self.entries_view(),
    {
        &self.entries
    }

    fn find(&self, name: &String) -> (r: Option<usize>)
        ensures
            match r {
                Some(i) => i < self.entries_view().len() && self.entries_view()[i as int].0
                    == name@,
                None => forall|k: int|
                    0 <= k < self.entries_view().len() ==> (#[trigger] self.entries_view()[k]).0
                        != name@,
            },
    {
        let mut idx: usize = 0;
        while idx < self.entries.len()
            invariant
                idx <= self.entries.len(),
                forall|k: int|
                    0 <= k < idx ==> (#[trigger] self.entries_view()[k]).0 != name@,
            decreases self.entries.len() - idx,
        {
            if self.entries[idx].0 == *name {
                return Some(idx);
            }
            idx += 1;
        }
        None
    }

    /// Stores `value` under `name`, overriding an entry of the same name
    /// and keeping its place, as the transport's own map does.
    pub fn insert(&mut self, name: String, value: String)
        requires
            old(self).wf(),
            trimmed(name@) == name@,
            trimmed(value@) == value@,
            valid_header_name(name@),
            valid_header_value(value@),
        ensures
            final(self).wf(),
            final(self)@ == old(self)@.insert(name@, value@),
    {
        let ghost old_es = self.entries_view();
        match self.find(&name) {
            Some(i) => {
                self.entries[i] = (name, value);
                proof {
                    assert forall|j: int|
                        0 <= j < self.entries_view().len() implies self.entries_view()[j]
                        == old_es.update(i as int, (name@, value@))[j] by {}
                    assert(self.entries_view() =~= old_es.update(i as int, (name@, value@)));
                    lemma_entry_map_update(old_es, i as int, name@, value@);
                }
            },
            None => {
                self.entries.push((name, value));
                proof {
                    assert forall|j: int|
                        0 <= j < self.entries_view().len() implies self.entries_view()[j]
                        == old_es.push((name@, value@))[j] by {}
                    assert(self.entries_view() =~= old_es.push((name@, value@)));
                    assert(old_es.push((name@, value@)).drop_last() =~= old_es);
                }
            },
        }
    }

    /// The value stored for `name`, if any.
    pub fn get(&self, name: &str) -> (r: Option<&String>)
        requires
            self.wf(),
        ensures
            match r {
                Some(v) => self@.contains_key(name@) && v@ == self@[name@],
                None => !self@.contains_key(name@),
            },
    {
        let key: String = name.to_owned();
        let mut idx: usize = 0;
        while idx < self.entries.len()
            invariant
                idx <= self.entries.len(),
                key@ == name@,
                self.wf(),
                forall|k: int|
                    0 <= k < idx ==> (#[trigger] self.entries_view()[k]).0 != name@,
            decreases self.entries.len() - idx,
        {
            if self.entries[idx].0 == key {
                proof {
                    lemma_entry_map_lookup(self.entries_view());
                    assert(self.entries_view()[idx as int] == (
                        self.entries@[idx as int].0@,
                        self.entries@[idx as int].1@,
                    ));
                    assert(self.entries_view()[idx as int].0 == name@);
                }
                return Some(&self.entries[idx].1);
            }
            idx += 1;
        }
        proof {
            lemma_entry_map_lookup(self.entries_view());
            if self@.contains_key(name@) {
                let i = choose|i: int|
                    0 <= i < self.entries_view().len() && (#[trigger] self.entries_view()[i]).0
                        == name@;
                assert(false);
            }
        }
        None
    }
}

impl View for HeaderSet {
    type V = Map<Seq<char>, Seq<char>>;

    closed spec fn view(&self) -> Map<Seq<char>, Seq<char>> {
        entry_map(self.entries_view())
    }
}

/// Overriding the entry at the index of `k` updates the mapping at `k`.
proof fn lemma_entry_map_update(es: Seq<(Seq<char>, Seq<char>)>, i: int, k: Seq<char>, v: Seq<char>)
    requires
        0 <= i < es.len(),
        es[i].0 == k,
        forall|a: int, b: int| 0 <= a < b < es.len() ==> (#[trigger] es[a]).0 != (#[trigger] es[b]).0,
    ensures
        entry_map(es.update(i, (k, v))) == entry_map(es).insert(k, v),
    decreases es.len(),
{
    let es2 = es.update(i, (k, v));
    if i == es.len() - 1 {
        assert(es2.drop_last() =~= es.drop_last());
        assert(es2.last() == (k, v));
        assert(entry_map(es).insert(k, v) =~= entry_map(es.drop_last()).insert(k, v));
    } else {
        let last = es.last();
        assert(es2.drop_last() =~= es.drop_last().update(i, (k, v)));
        assert(es2.last() == last);
        assert(es.drop_last()[i] == es[i]);
        lemma_entry_map_update(es.drop_last(), i, k, v);
        assert(last.0 != k);
        assert(entry_map(es.drop_last()).insert(k, v).insert(last.0, last.1) =~= entry_map(
            es.drop_last(),
        ).insert(last.0, last.1).insert(k, v));
    }
}

/// With pairwise distinct names, the mapping holds each entry's value
/// under its name, and nothing else.
proof fn lemma_entry_map_lookup(es: Seq<(Seq<char>, Seq<char>)>)
    requires
        forall|a: int, b: int| 0 <= a < b < es.len() ==> (#[trigger] es[a]).0 != (#[trigger] es[b]).0,
    ensures
        forall|i: int|
            0 <= i < es.len() ==> entry_map(es).contains_key((#[trigger] es[i]).0) && entry_map(
                es,
            )[es[i].0] == es[i].1,
        forall|k: Seq<char>|
            #[trigger] entry_map(es).contains_key(k) ==> exists|i: int|
                0 <= i < es.len() && (#[trigger] es[i]).0 == k,
    decreases es.len(),
{
    if es.len() > 0 {
        let s = es.drop_last();
        let p = es.last();
        lemma_entry_map_lookup(s);
        assert forall|i: int|
            0 <= i < es.len() implies entry_map(es).contains_key((#[trigger] es[i]).0)
            && entry_map(es)[es[i].0] == es[i].1 by {
            if i < es.len() - 1 {
                assert(es[i] == s[i]);
                assert(es[i].0 != p.0);
            } else {
                assert(es[i] == p);
            }
        }
        assert forall|k: Seq<char>| #[trigger]
            entry_map(es).contains_key(k) implies exists|i: int|
            0 <= i < es.len() && (#[trigger] es[i]).0 == k by {
            if k == p.0 {
                assert(es[es.len() - 1].0 == k);
            } else {
                assert(entry_map(s).contains_key(k));
                let i = choose|i: int| 0 <= i < s.len() && (#[trigger] s[i]).0 == k;
                assert(es[i].0 == k);
            }
        }
    }
}

} // verus!
