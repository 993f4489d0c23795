//! The metadata vocabulary and the metadata mapping extracted from a
//! document.
//!
//! A metadata mapping takes a key — one of a fixed vocabulary, or an
//! arbitrary extension key — to a string value.  Keys are unique; inserting
//! an existing key overwrites its value (last write wins).  The mathematical
//! model is a `Map<Seq<char>, Seq<char>>` from key name to value, together
//! with the sequence of entries in insertion order (the serialized form
//! keeps that order).

use vstd::prelude::*;

verus! {

pub open spec fn title_key() -> Seq<char> {
    seq!['t', 'i', 't', 'l', 'e']
}

pub open spec fn choreographer_key() -> Seq<char> {
    seq!['c', 'h', 'o', 'r', 'e', 'o', 'g', 'r', 'a', 'p', 'h', 'e', 'r']
}

pub open spec fn phase_key() -> Seq<char> {
    seq!['p', 'h', 'a', 's', 'e']
}

pub open spec fn difficulty_key() -> Seq<char> {
    seq!['d', 'i', 'f', 'f', 'i', 'c', 'u', 'l', 't', 'y']
}

pub open spec fn rhythm_key() -> Seq<char> {
    seq!['r', 'h', 'y', 't', 'h', 'm']
}

pub open spec fn plusfigures_key() -> Seq<char> {
    seq!['p', 'l', 'u', 's', 'f', 'i', 'g', 'u', 'r', 'e', 's']
}

pub open spec fn steplevel_key() -> Seq<char> {
    seq!['s', 't', 'e', 'p', 'l', 'e', 'v', 'e', 'l']
}

pub open spec fn music_key() -> Seq<char> {
    seq!['m', 'u', 's', 'i', 'c']
}

pub open spec fn music_file_key() -> Seq<char> {
    seq!['m', 'u', 's', 'i', 'c', '_', 'f', 'i', 'l', 'e']
}

/// The sentinel value a document gets as its phase when no phase line
/// matches the phase grammar.
pub open spec fn unphased_value() -> Seq<char> {
    seq!['u', 'n', 'p', 'h', 'a', 's', 'e', 'd']
}

/// The default for fields whose value is required but was never extracted.
pub open spec fn unknown_value() -> Seq<char> {
    seq!['u', 'n', 'k', 'n', 'o', 'w', 'n']
}

/// A metadata key: the fixed vocabulary, plus one open variant for any
/// other (already lowercased) key a document uses.
pub enum MetaDataType {
    Title,
    Choreographer,
    Phase,
    Difficulty,
    Rhythm,
    Plusfigures,
    Steplevel,
    Music,
    MusicFile,
    Extra(String),
}

impl MetaDataType {
    /// The key's name: the string under which its value is stored.
    pub open spec fn name(&self) -> Seq<char> {
        match self {
            MetaDataType::Title => title_key(),
            MetaDataType::Choreographer => choreographer_key(),
            MetaDataType::Phase => phase_key(),
            MetaDataType::Difficulty => difficulty_key(),
            MetaDataType::Rhythm => rhythm_key(),
            MetaDataType::Plusfigures => plusfigures_key(),
            MetaDataType::Steplevel => steplevel_key(),
            MetaDataType::Music => music_key(),
            MetaDataType::MusicFile => music_file_key(),
            MetaDataType::Extra(s) => s@,
        }
    }

    /// Renders the key's name as a string.
    pub fn key_string(&self) -> (r: String)
        ensures
            r@ == self.name(),
    {
        match self {
            MetaDataType::Title => {
                let s = String::from_str("title");
                proof {
                    reveal_strlit("title");
                    assert(s@ =~= title_key());
                }
                s
            },
            MetaDataType::Choreographer => {
                let s = String::from_str("choreographer");
                proof {
                    reveal_strlit("choreographer");
                    assert(s@ =~= choreographer_key());
                }
                s
            },
            MetaDataType::Phase => {
                let s = String::from_str("phase");
                proof {
                    reveal_strlit("phase");
                    assert(s@ =~= phase_key());
                }
                s
            },
            MetaDataType::Difficulty => {
                let s = String::from_str("difficulty");
                proof {
                    reveal_strlit("difficulty");
                    assert(s@ =~= difficulty_key());
                }
                s
            },
            MetaDataType::Rhythm => {
                let s = String::from_str("rhythm");
                proof {
                    reveal_strlit("rhythm");
                    assert(s@ =~= rhythm_key());
                }
                s
            },
            MetaDataType::Plusfigures => {
                let s = String::from_str("plusfigures");
                proof {
                    reveal_strlit("plusfigures");
                    assert(s@ =~= plusfigures_key());
                }
                s
            },
            MetaDataType::Steplevel => {
                let s = String::from_str("steplevel");
                proof {
                    reveal_strlit("steplevel");
                    assert(s@ =~= steplevel_key());
                }
                s
            },
            MetaDataType::Music => {
                let s = String::from_str("music");
                proof {
                    reveal_strlit("music");
                    assert(s@ =~= music_key());
                }
                s
            },
            MetaDataType::MusicFile => {
                let s = String::from_str("music_file");
                proof {
                    reveal_strlit("music_file");
                    assert(s@ =~= music_file_key());
                }
                s
            },
            MetaDataType::Extra(s) => s.clone(),
        }
    }

    /// Classifies a (lowercased) key name into the vocabulary; any other
    /// name becomes an extension key with that name.
    pub fn from_str(s: &String) -> (r: MetaDataType)
        ensures
            r.name() == s@,
    {
        if string_is(s, "title") {
            proof {
                reveal_strlit("title");
                assert(s@ =~= title_key());
            }
            MetaDataType::Title
        } else if string_is(s, "choreographer") {
            proof {
                reveal_strlit("choreographer");
                assert(s@ =~= choreographer_key());
            }
            MetaDataType::Choreographer
        } else if string_is(s, "phase") {
            proof {
                reveal_strlit("phase");
                assert(s@ =~= phase_key());
            }
            MetaDataType::Phase
        } else if string_is(s, "difficulty") {
            proof {
                reveal_strlit("difficulty");
                assert(s@ =~= difficulty_key());
            }
            MetaDataType::Difficulty
        } else if string_is(s, "rhythm") {
            proof {
                reveal_strlit("rhythm");
                assert(s@ =~= rhythm_key());
            }
            MetaDataType::Rhythm
        } else if string_is(s, "plusfigures") {
            proof {
                reveal_strlit("plusfigures");
                assert(s@ =~= plusfigures_key());
            }
            MetaDataType::Plusfigures
        } else if string_is(s, "steplevel") {
            proof {
                reveal_strlit("steplevel");
                assert(s@ =~= steplevel_key());
            }
            MetaDataType::Steplevel
        } else if string_is(s, "music") {
            proof {
                reveal_strlit("music");
                assert(s@ =~= music_key());
            }
            MetaDataType::Music
        } else if string_is(s, "music_file") {
            proof {
                reveal_strlit("music_file");
                assert(s@ =~= music_file_key());
            }
            MetaDataType::MusicFile
        } else {
            MetaDataType::Extra(s.clone())
        }
    }
}

/// Whether the string equals the given literal.
pub fn string_is(s: &String, lit: &str) -> (r: bool)
    ensures
        r == (s@ == lit@),
{
    let t = String::from_str(lit);
    *s == t
}

/// Compares two keys by name.
pub fn eq_key(a: &MetaDataType, b: &MetaDataType) -> (r: bool)
    ensures
        r == (a.name() == b.name()),
{
    let sa = a.key_string();
    let sb = b.key_string();
    sa == sb
}

/// The mapping denoted by a sequence of entries, later entries overriding
/// earlier ones.
pub open spec fn map_of_entries(es: Seq<(Seq<char>, Seq<char>)>) -> Map<Seq<char>, Seq<char>>
    decreases es.len(),
{
    if es.len() == 0 {
        Map::empty()
    } else {
        map_of_entries(es.drop_last()).insert(es.last().0, es.last().1)
    }
}

/// The name of the entry at position `i`.
pub open spec fn name_at(es: Seq<(Seq<char>, Seq<char>)>, i: int) -> Seq<char> {
    es[i].0
}

/// Entry names are pairwise distinct.
pub open spec fn unique_names(es: Seq<(Seq<char>, Seq<char>)>) -> bool {
    forall|p: int, q: int|
        0 <= p < q < es.len() ==> #[trigger] name_at(es, p) != #[trigger] name_at(es, q)
}

pub proof fn lemma_map_of_entries_present(es: Seq<(Seq<char>, Seq<char>)>, i: int)
    requires
        0 <= i < es.len(),
    ensures
        map_of_entries(es).contains_key(name_at(es, i)),
    decreases es.len(),
{
    if i < es.len() - 1 {
        assert(name_at(es.drop_last(), i) == name_at(es, i));
        lemma_map_of_entries_present(es.drop_last(), i);
    }
}

pub proof fn lemma_map_of_entries_absent(es: Seq<(Seq<char>, Seq<char>)>, k: Seq<char>)
    requires
        forall|i: int| 0 <= i < es.len() ==> #[trigger] name_at(es, i) != k,
    ensures
        !map_of_entries(es).contains_key(k),
    decreases es.len(),
{
    if es.len() > 0 {
        assert forall|i: int| 0 <= i < es.drop_last().len() implies #[trigger] name_at(
            es.drop_last(),
            i,
        ) != k by {
            assert(name_at(es, i) != k);
        }
        lemma_map_of_entries_absent(es.drop_last(), k);
        assert(name_at(es, es.len() - 1) != k);
    }
}

pub proof fn lemma_map_of_entries_index(es: Seq<(Seq<char>, Seq<char>)>, i: int)
    requires
        0 <= i < es.len(),
        unique_names(es),
    ensures
        map_of_entries(es).contains_key(name_at(es, i)),
        map_of_entries(es)[name_at(es, i)] == es[i].1,
    decreases es.len(),
{
    if i == es.len() - 1 {
    } else {
        assert forall|p: int, q: int| 0 <= p < q < es.drop_last().len() implies #[trigger] name_at(
            es.drop_last(),
            p,
        ) != #[trigger] name_at(es.drop_last(), q) by {
            assert(name_at(es, p) != name_at(es, q));
        }
        lemma_map_of_entries_index(es.drop_last(), i);
        assert(name_at(es.drop_last(), i) == name_at(es, i));
        assert(name_at(es, i) != name_at(es, es.len() - 1));
    }
}

pub proof fn lemma_map_of_entries_update(es: Seq<(Seq<char>, Seq<char>)>, i: int, v: Seq<char>)
    requires
        0 <= i < es.len(),
        unique_names(es),
    ensures
        map_of_entries(es.update(i, (es[i].0, v))) == map_of_entries(es).insert(es[i].0, v),
    decreases es.len(),
{
    let es2 = es.update(i, (es[i].0, v));
    if i == es.len() - 1 {
        assert(es2.drop_last() =~= es.drop_last());
        assert(es2.last() == (es[i].0, v));
        assert(map_of_entries(es2) =~= map_of_entries(es).insert(es[i].0, v));
    } else {
        assert forall|p: int, q: int| 0 <= p < q < es.drop_last().len() implies #[trigger] name_at(
            es.drop_last(),
            p,
        ) != #[trigger] name_at(es.drop_last(), q) by {
            assert(name_at(es, p) != name_at(es, q));
        }
        assert(es2.drop_last() =~= es.drop_last().update(i, (es[i].0, v)));
        assert(es.drop_last()[i] == es[i]);
        lemma_map_of_entries_update(es.drop_last(), i, v);
        assert(es2.last() == es.last());
        assert(name_at(es, i) != name_at(es, es.len() - 1));
        assert(map_of_entries(es2) =~= map_of_entries(es).insert(es[i].0, v));
    }
}

/// The metadata mapping of one document.
pub struct MetadataMap {
    entries: Vec<(MetaDataType, String)>,
}

impl MetadataMap {
    /// The entries in insertion order, as (name, value) pairs.
    pub closed spec fn entries_seq(&self) -> Seq<(Seq<char>, Seq<char>)> {
        self.entries@.map_values(|e: (MetaDataType, String)| (e.0.name(), e.1@))
    }

    /// Key names are unique.
    pub open spec fn wf(&self) -> bool {
        unique_names(self.entries_seq())
    }

    /// The mapping from key name to value.
    pub open spec fn as_map(&self) -> Map<Seq<char>, Seq<char>> {
        map_of_entries(self.entries_seq())
    }

    /// An empty mapping.
    pub fn new() -> (r: MetadataMap)
        ensures
            r.wf(),
            r.as_map() == Map::<Seq<char>, Seq<char>>::empty(),
            r.entries_seq() == Seq::<(Seq<char>, Seq<char>)>::empty(),
    {
        let r = MetadataMap { entries: Vec::new() };
        proof {
            assert(r.entries_seq() =~= Seq::<(Seq<char>, Seq<char>)>::empty());
        }
        r
    }

    pub fn entry_count(&self) -> (n: usize)
        ensures
            n == self.entries_seq().len(),
    {
        self.entries.len()
    }

    /// The i-th entry, in insertion order, as a (name, value) pair.
    pub fn entry(&self, i: usize) -> (kv: (String, String))
        requires
            i < self.entries_seq().len(),
        ensures
            kv.0@ == self.entries_seq()[i as int].0,
            kv.1@ == self.entries_seq()[i as int].1,
    {
        let k = self.entries[i].0.key_string();
        let v = self.entries[i].1.clone();
        (k, v)
    }

    /// Inserts a value under a key; an existing entry with the same name is
    /// overwritten in place, otherwise the entry is appended.
    pub fn insert(&mut self, k: MetaDataType, v: String)
        requires
            old(self).wf(),
        ensures
            final(self).wf(),
            final(self).as_map() == old(self).as_map().insert(k.name(), v@),
            // the entry order: an existing entry is overwritten in place,
            // a new one is appended
            forall|i: int|
                0 <= i < old(self).entries_seq().len() && name_at(old(self).entries_seq(), i)
                    == k.name() ==> final(self).entries_seq() == old(self).entries_seq().update(
                    i,
                    (k.name(), v@),
                ),
            (forall|i: int|
                0 <= i < old(self).entries_seq().len() ==> name_at(old(self).entries_seq(), i)
                    != k.name()) ==> final(self).entries_seq() == old(self).entries_seq().push(
                (k.name(), v@),
            ),
    {
        let mut i: usize = 0;
        let n = self.entries.len();
        while i < n
            invariant
                self == old(self),
                old(self).wf(),
                n == self.entries@.len(),
                i <= n,
                forall|p: int| 0 <= p < i ==> #[trigger] name_at(self.entries_seq(), p) != k.name(),
            decreases n - i,
        {
            if eq_key(&self.entries[i].0, &k) {
                let ghost es = self.entries_seq();
                proof {
                    assert(name_at(es, i as int) == k.name());
                }
                let kk = self.entries[i].0.clone_key();
                self.entries.set(i, (kk, v));
                proof {
                    assert(self.entries_seq() =~= es.update(i as int, (es[i as int].0, v@)));
                    lemma_map_of_entries_update(es, i as int, v@);
                    let es2 = self.entries_seq();
                    assert forall|p: int, q: int| 0 <= p < q < es2.len() implies #[trigger] name_at(
                        es2,
                        p,
                    ) != #[trigger] name_at(es2, q) by {
                        assert(name_at(es2, p) == name_at(es, p));
                        assert(name_at(es2, q) == name_at(es, q));
                        assert(name_at(es, p) != name_at(es, q));
                    }
                }
                return ;
            }
            i += 1;
        }
        let ghost es = self.entries_seq();
        self.entries.push((k, v));
        proof {
            let es2 = self.entries_seq();
            assert(es2 =~= es.push((k.name(), v@)));
            assert(es2.drop_last() =~= es);
            assert forall|p: int, q: int| 0 <= p < q < es2.len() implies #[trigger] name_at(
                es2,
                p,
            ) != #[trigger] name_at(es2, q) by {
                if q < es2.len() - 1 {
                    assert(name_at(es, p) != name_at(es, q));
                    assert(name_at(es2, p) == name_at(es, p));
                    assert(name_at(es2, q) == name_at(es, q));
                } else {
                    assert(name_at(es2, q) == k.name());
                    assert(name_at(es2, p) == name_at(es, p));
                    assert(name_at(es, p) != k.name());
                }
            }
        }
    }

    /// Looks a key up by name.
    pub fn get(&self, k: &MetaDataType) -> (r: Option<&String>)
        requires
            self.wf(),
        ensures
            match r {
                Some(v) => self.as_map().contains_key(k.name()) && v@ == self.as_map()[k.name()],
                None => !self.as_map().contains_key(k.name()),
            },
    {
        let mut i: usize = 0;
        let n = self.entries.len();
        while i < n
            invariant
                self.wf(),
                n == self.entries@.len(),
                i <= n,
                forall|p: int| 0 <= p < i ==> #[trigger] name_at(self.entries_seq(), p) != k.name(),
            decreases n - i,
        {
            if eq_key(&self.entries[i].0, k) {
                proof {
                    assert(name_at(self.entries_seq(), i as int) == k.name());
                    lemma_map_of_entries_index(self.entries_seq(), i as int);
                }
                return Some(&self.entries[i].1);
            }
            i += 1;
        }
        proof {
            lemma_map_of_entries_absent(self.entries_seq(), k.name());
        }
        None
    }

    /// The value under the key, or the given default when the key is absent.
    pub fn get_or(&self, k: &MetaDataType, default: &str) -> (r: String)
        requires
            self.wf(),
        ensures
            r@ == value_or(self.as_map(), k.name(), default@),
    {
        match self.get(k) {
            Some(v) => v.clone(),
            None => String::from_str(default),
        }
    }
}

impl MetaDataType {
    /// A copy of the key.
    pub fn clone_key(&self) -> (r: MetaDataType)
        ensures
            r.name() == self.name(),
    {
        match self {
            MetaDataType::Title => MetaDataType::Title,
            MetaDataType::Choreographer => MetaDataType::Choreographer,
            MetaDataType::Phase => MetaDataType::Phase,
            MetaDataType::Difficulty => MetaDataType::Difficulty,
            MetaDataType::Rhythm => MetaDataType::Rhythm,
            MetaDataType::Plusfigures => MetaDataType::Plusfigures,
            MetaDataType::Steplevel => MetaDataType::Steplevel,
            MetaDataType::Music => MetaDataType::Music,
            MetaDataType::MusicFile => MetaDataType::MusicFile,
            MetaDataType::Extra(s) => MetaDataType::Extra(s.clone()),
        }
    }
}

/// The value under `k` in `m`, or `d` when `k` is absent.
pub open spec fn value_or(m: Map<Seq<char>, Seq<char>>, k: Seq<char>, d: Seq<char>) -> Seq<char> {
    if m.contains_key(k) {
        m[k]
    } else {
        d
    }
}

} // verus!
