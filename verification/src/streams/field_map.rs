//! A map from names to values, kept as a list of entries in the order of
//! their names.

use super::{AnyInt, MapType};
use vstd::prelude::*;
use vstd::utf8::{encode_utf8, encode_utf8_decode_utf8};

verus! {

/// The map that a list of entries stands for: each entry binds its name to
/// its value, and of two entries with one name the later one counts.
pub open spec fn assoc(entries: Seq<(String, AnyInt)>) -> Map<Seq<char>, AnyInt>
    decreases entries.len(),
{
    if entries.len() == 0 {
        Map::empty()
    } else {
        assoc(entries.drop_last()).insert(entries.last().0@, entries.last().1)
    }
}

/// Whether no two of `entries` have the same name.
pub open spec fn distinct_names(entries: Seq<(String, AnyInt)>) -> bool {
    forall|i: int, j: int|
        0 <= i < j < entries.len() ==> (#[trigger] entries[i]).0@ != (#[trigger] entries[j]).0@
}

/// The names that a list of entries binds are the names of its entries.
pub proof fn lemma_assoc_domain(entries: Seq<(String, AnyInt)>, name: Seq<char>)
    ensures
        assoc(entries).contains_key(name) <==> exists|i: int|
            0 <= i < entries.len() && (#[trigger] entries[i]).0@ == name,
    decreases entries.len(),
{
    if entries.len() > 0 {
        let init = entries.drop_last();
        lemma_assoc_domain(init, name);
        if exists|i: int| 0 <= i < entries.len() && (#[trigger] entries[i]).0@ == name {
            let i = choose|i: int| 0 <= i < entries.len() && (#[trigger] entries[i]).0@ == name;
            if i < init.len() {
                assert(init[i].0@ == name);
            }
        }
    }
}

/// In a list with distinct names every entry is bound as it stands.
pub proof fn lemma_assoc_entry(entries: Seq<(String, AnyInt)>, i: int)
    requires
        distinct_names(entries),
        0 <= i < entries.len(),
    ensures
        assoc(entries).contains_key(entries[i].0@),
        assoc(entries)[entries[i].0@] == entries[i].1,
    decreases entries.len(),
{
    let init = entries.drop_last();
    if i < entries.len() - 1 {
        lemma_assoc_entry(init, i);
    }
}

/// Replacing the value of an entry in a list with distinct names binds the
/// name of the entry to the new value and changes nothing else.
pub proof fn lemma_assoc_update(entries: Seq<(String, AnyInt)>, i: int, entry: (String, AnyInt))
    requires
        distinct_names(entries),
        0 <= i < entries.len(),
        entry.0@ == entries[i].0@,
    ensures
        distinct_names(entries.update(i, entry)),
        assoc(entries.update(i, entry)) == assoc(entries).insert(entry.0@, entry.1),
{
    let after = entries.update(i, entry);
    assert(assoc(after) =~= assoc(entries).insert(entry.0@, entry.1)) by {
        assert forall|name: Seq<char>|
            assoc(after).contains_key(name) <==> #[trigger] assoc(entries).insert(
                entry.0@,
                entry.1,
            ).contains_key(name) by {
            lemma_assoc_domain(after, name);
            lemma_assoc_domain(entries, name);
            if assoc(entries).contains_key(name) {
                let a = choose|a: int| 0 <= a < entries.len() && (#[trigger] entries[a]).0@ == name;
                assert(after[a].0@ == name);
            }
        }
        assert forall|name: Seq<char>| #[trigger] assoc(after).contains_key(name) implies assoc(
            after,
        )[name] == assoc(entries).insert(entry.0@, entry.1)[name] by {
            lemma_assoc_domain(after, name);
            let a = choose|a: int| 0 <= a < after.len() && (#[trigger] after[a]).0@ == name;
            lemma_assoc_entry(after, a);
            if a != i {
                lemma_assoc_entry(entries, a);
            }
        }
    }
}

/// Taking an entry out of a list with distinct names unbinds its name and
/// changes nothing else.
pub proof fn lemma_assoc_remove(entries: Seq<(String, AnyInt)>, i: int)
    requires
        distinct_names(entries),
        0 <= i < entries.len(),
    ensures
        distinct_names(entries.remove(i)),
        assoc(entries.remove(i)) == assoc(entries).remove(entries[i].0@),
{
    let after = entries.remove(i);
    let gone = entries[i].0@;
    assert(assoc(after) =~= assoc(entries).remove(gone)) by {
        assert forall|name: Seq<char>|
            assoc(after).contains_key(name) <==> #[trigger] assoc(entries).remove(
                gone,
            ).contains_key(name) by {
            lemma_assoc_domain(after, name);
            lemma_assoc_domain(entries, name);
            if assoc(entries).contains_key(name) && name != gone {
                let a = choose|a: int| 0 <= a < entries.len() && (#[trigger] entries[a]).0@ == name;
                let a1 = if a < i {
                    a
                } else {
                    a - 1
                };
                assert(after[a1].0@ == name);
            }
        }
        assert forall|name: Seq<char>| #[trigger] assoc(after).contains_key(name) implies assoc(
            after,
        )[name] == assoc(entries).remove(gone)[name] by {
            lemma_assoc_domain(after, name);
            let a = choose|a: int| 0 <= a < after.len() && (#[trigger] after[a]).0@ == name;
            let a0 = if a < i {
                a
            } else {
                a + 1
            };
            lemma_assoc_entry(after, a);
            lemma_assoc_entry(entries, a0);
        }
    }
}

/// A list with distinct names binds as many names as it has entries.
pub proof fn lemma_assoc_len(entries: Seq<(String, AnyInt)>)
    requires
        distinct_names(entries),
    ensures
        assoc(entries).dom().finite(),
        assoc(entries).dom().len() == entries.len(),
    decreases entries.len(),
{
    if entries.len() > 0 {
        let init = entries.drop_last();
        lemma_assoc_len(init);
        let name = entries.last().0@;
        lemma_assoc_domain(init, name);
    }
}

/// Whether `a` comes before `b` in the order of byte strings: at the first
/// place where they differ `a` has the smaller byte, or `a` ends there and
/// `b` does not.
pub open spec fn lex_less(a: Seq<u8>, b: Seq<u8>) -> bool
    decreases a.len(),
{
    if b.len() == 0 {
        false
    } else if a.len() == 0 {
        true
    } else if a[0] != b[0] {
        a[0] < b[0]
    } else {
        lex_less(a.drop_first(), b.drop_first())
    }
}

/// Whether the name `a` comes before the name `b`: names are ordered as
/// their UTF-8 bytes are.
pub open spec fn name_less(a: Seq<char>, b: Seq<char>) -> bool {
    lex_less(encode_utf8(a), encode_utf8(b))
}

/// Whether the names of `entries` ascend.
pub open spec fn sorted_names(entries: Seq<(String, AnyInt)>) -> bool {
    forall|i: int, j: int|
        0 <= i < j < entries.len() ==> name_less(
            (#[trigger] entries[i]).0@,
            (#[trigger] entries[j]).0@,
        )
}

/// No byte string comes before itself.
pub proof fn lemma_lex_irreflexive(a: Seq<u8>)
    ensures
        !lex_less(a, a),
    decreases a.len(),
{
    if a.len() > 0 {
        lemma_lex_irreflexive(a.drop_first());
    }
}

/// The order of byte strings is transitive.
pub proof fn lemma_lex_transitive(a: Seq<u8>, b: Seq<u8>, c: Seq<u8>)
    requires
        lex_less(a, b),
        lex_less(b, c),
    ensures
        lex_less(a, c),
    decreases a.len(),
{
    if a.len() > 0 && a[0] == b[0] && b[0] == c[0] {
        lemma_lex_transitive(a.drop_first(), b.drop_first(), c.drop_first());
    }
}

/// Names with the same UTF-8 bytes are the same name.
pub proof fn lemma_name_of_bytes(a: Seq<char>, b: Seq<char>)
    requires
        encode_utf8(a) == encode_utf8(b),
    ensures
        a == b,
{
    encode_utf8_decode_utf8(a);
    encode_utf8_decode_utf8(b);
}

/// Names that ascend are distinct.
pub proof fn lemma_sorted_distinct(entries: Seq<(String, AnyInt)>)
    requires
        sorted_names(entries),
    ensures
        distinct_names(entries),
{
    assert forall|i: int, j: int| 0 <= i < j < entries.len() implies (#[trigger] entries[i]).0@ != (
    #[trigger] entries[j]).0@ by {
        lemma_lex_irreflexive(encode_utf8(entries[i].0@));
    }
}

/// A list whose names ascend is set by the map that it stands for: two such
/// lists of one map have the same names and values at every place.
pub proof fn lemma_sorted_listing_unique(a: Seq<(String, AnyInt)>, b: Seq<(String, AnyInt)>)
    requires
        sorted_names(a),
        sorted_names(b),
        assoc(a) == assoc(b),
    ensures
        a.len() == b.len(),
        forall|i: int| 0 <= i < a.len() ==> (#[trigger] a[i]).0@ == b[i].0@ && a[i].1 == b[i].1,
    decreases a.len(),
{
    lemma_sorted_distinct(a);
    lemma_sorted_distinct(b);
    lemma_assoc_len(a);
    lemma_assoc_len(b);
    if a.len() > 0 {
        let n = a.len() - 1;
        let top_a = a[n].0@;
        let top_b = b[n].0@;
        lemma_assoc_entry(a, n);
        lemma_assoc_domain(a, top_b);
        lemma_assoc_domain(b, top_a);
        if top_a != top_b {
            lemma_lex_transitive(encode_utf8(top_b), encode_utf8(top_a), encode_utf8(top_b));
            lemma_lex_irreflexive(encode_utf8(top_b));
        }
        lemma_assoc_remove(a, n);
        lemma_assoc_remove(b, n);
        lemma_sorted_listing_unique(a.drop_last(), b.drop_last());
        assert forall|i: int| 0 <= i < a.len() implies (#[trigger] a[i]).0@ == b[i].0@ && a[i].1
            == b[i].1 by {
            if i < n {
                assert(a.drop_last()[i] == a[i]);
            }
        }
    }
}

/// How two byte strings stand to each other.
#[derive(Debug, Clone, Copy, PartialEq, Eq, Structural)]
pub enum Rank {
    Before,
    Same,
    After,
}

/// How `a` stands to `b` in the order of byte strings.
pub fn rank(a: &[u8], b: &[u8]) -> (r: Rank)
    ensures
        match r {
            Rank::Before => lex_less(a@, b@),
            Rank::Same => a@ == b@,
            Rank::After => lex_less(b@, a@),
        },
{
    let n = a.len();
    let m = b.len();
    let mut i: usize = 0;
    assert(a@.skip(0) =~= a@ && b@.skip(0) =~= b@);
    while i < n && i < m
        invariant
            i <= n,
            i <= m,
            n == a@.len(),
            m == b@.len(),
            a@.take(i as int) == b@.take(i as int),
            lex_less(a@, b@) == lex_less(a@.skip(i as int), b@.skip(i as int)),
            lex_less(b@, a@) == lex_less(b@.skip(i as int), a@.skip(i as int)),
        decreases n - i,
    {
        let ghost ra = a@.skip(i as int);
        let ghost rb = b@.skip(i as int);
        if a[i] < b[i] {
            return Rank::Before;
        }
        if a[i] > b[i] {
            return Rank::After;
        }
        assert(ra.drop_first() =~= a@.skip(i + 1));
        assert(rb.drop_first() =~= b@.skip(i + 1));
        i += 1;
    }
    if n < m {
        Rank::Before
    } else if n > m {
        Rank::After
    } else {
        Rank::Same
    }
}

/// Putting an entry with a name that is not listed into a list with distinct
/// names binds that name and changes nothing else.
pub proof fn lemma_assoc_insert_at(entries: Seq<(String, AnyInt)>, i: int, entry: (String, AnyInt))
    requires
        distinct_names(entries),
        0 <= i <= entries.len(),
        forall|j: int| 0 <= j < entries.len() ==> (#[trigger] entries[j]).0@ != entry.0@,
    ensures
        distinct_names(entries.insert(i, entry)),
        assoc(entries.insert(i, entry)) == assoc(entries).insert(entry.0@, entry.1),
{
    let after = entries.insert(i, entry);
    assert(assoc(after) =~= assoc(entries).insert(entry.0@, entry.1)) by {
        assert forall|name: Seq<char>|
            assoc(after).contains_key(name) <==> #[trigger] assoc(entries).insert(
                entry.0@,
                entry.1,
            ).contains_key(name) by {
            lemma_assoc_domain(after, name);
            lemma_assoc_domain(entries, name);
            if assoc(entries).contains_key(name) {
                let a = choose|a: int| 0 <= a < entries.len() && (#[trigger] entries[a]).0@ == name;
                let a1 = if a < i {
                    a
                } else {
                    a + 1
                };
                assert(after[a1].0@ == name);
            }
            if name == entry.0@ {
                assert(after[i].0@ == name);
            }
        }
        assert forall|name: Seq<char>| #[trigger] assoc(after).contains_key(name) implies assoc(
            after,
        )[name] == assoc(entries).insert(entry.0@, entry.1)[name] by {
            lemma_assoc_domain(after, name);
            let a = choose|a: int| 0 <= a < after.len() && (#[trigger] after[a]).0@ == name;
            lemma_assoc_entry(after, a);
            if a != i {
                let a0 = if a < i {
                    a
                } else {
                    a - 1
                };
                lemma_assoc_entry(entries, a0);
            }
        }
    }
}

/// A map from names to values.
#[derive(Debug, Clone, PartialEq, Eq)]
pub struct FieldMap {
    entries: Vec<(String, AnyInt)>,
}

impl View for FieldMap {
    type V = Map<Seq<char>, AnyInt>;

    /// The bindings of the map.
    open spec fn view(&self) -> Map<Seq<char>, AnyInt> {
        assoc(self.listing())
    }
}

impl FieldMap {
    /// The entries of the map, in the order of their names.
    pub closed spec fn listing(&self) -> Seq<(String, AnyInt)> {
        self.entries@
    }

    /// The invariant of the map: the names of its entries ascend, so that no
    /// name is listed twice.
    pub open spec fn wf(&self) -> bool {
        sorted_names(self.listing())
    }

    /// Where `name` is listed, or where it would have to be: the index of
    /// the first entry whose name does not come before `name`, and whether
    /// that entry has the name.
    fn locate(&self, name: &str) -> (r: (usize, bool))
        requires
            self.wf(),
        ensures
            r.0 <= self.listing().len(),
            forall|j: int| 0 <= j < r.0 ==> name_less((#[trigger] self.listing()[j]).0@, name@),
            r.1 ==> r.0 < self.listing().len() && self.listing()[r.0 as int].0@ == name@,
            !r.1 ==> forall|j: int|
                r.0 <= j < self.listing().len() ==> name_less(
                    name@,
                    (#[trigger] self.listing()[j]).0@,
                ),
    {
        let key = name.as_bytes();
        let mut i: usize = 0;
        while i < self.entries.len()
            invariant
                i <= self.entries@.len(),
                key@ == encode_utf8(name@),
                sorted_names(self.entries@),
                forall|j: int| 0 <= j < i ==> name_less((#[trigger] self.entries@[j]).0@, name@),
            decreases self.entries@.len() - i,
        {
            match rank(self.entries[i].0.as_str().as_bytes(), key) {
                Rank::Before => {},
                Rank::Same => {
                    proof {
                        lemma_name_of_bytes(self.entries@[i as int].0@, name@);
                    }
                    return (i, true);
                },
                Rank::After => {
                    proof {
                        let here = encode_utf8(self.entries@[i as int].0@);
                        assert forall|j: int| i <= j < self.entries@.len() implies name_less(
                            name@,
                            (#[trigger] self.entries@[j]).0@,
                        ) by {
                            if j > i {
                                lemma_lex_transitive(
                                    key@,
                                    here,
                                    encode_utf8(self.entries@[j].0@),
                                );
                            }
                        }
                    }
                    return (i, false);
                },
            }
            i += 1;
        }
        (i, false)
    }

    /// A name that is located as not listed is the name of no entry.
    proof fn lemma_not_listed(&self, name: Seq<char>, at: int)
        requires
            self.wf(),
            0 <= at <= self.listing().len(),
            forall|j: int| 0 <= j < at ==> name_less((#[trigger] self.listing()[j]).0@, name),
            forall|j: int|
                at <= j < self.listing().len() ==> name_less(
                    name,
                    (#[trigger] self.listing()[j]).0@,
                ),
        ensures
            forall|j: int|
                0 <= j < self.listing().len() ==> (#[trigger] self.listing()[j]).0@ != name,
            !self@.contains_key(name),
    {
        lemma_lex_irreflexive(encode_utf8(name));
        lemma_assoc_domain(self.listing(), name);
    }

    /// A map without bindings.
    pub fn new() -> (m: Self)
        ensures
            m.wf(),
            m@ == Map::<Seq<char>, AnyInt>::empty(),
            m.listing().len() == 0,
    {
        FieldMap { entries: Vec::new() }
    }

    /// The value bound to `name`, if one is.
    pub fn get(&self, name: &str) -> (r: Option<&AnyInt>)
        requires
            self.wf(),
        ensures
            r == if self@.contains_key(name@) {
                Some(&self@[name@])
            } else {
                None
            },
    {
        let (i, found) = self.locate(name);
        proof {
            lemma_sorted_distinct(self.listing());
        }
        if found {
            proof {
                lemma_assoc_entry(self.listing(), i as int);
            }
            Some(&self.entries[i].1)
        } else {
            proof {
                self.lemma_not_listed(name@, i as int);
            }
            None
        }
    }

    /// The value bound to `name`, if one is, to be changed in place.
    pub fn get_mut(&mut self, name: &str) -> (r: Option<&mut AnyInt>)
        requires
            old(self).wf(),
        ensures
            final(self).wf(),
            r.is_some() == old(self)@.contains_key(name@),
            r.is_some() ==> *r.unwrap() == old(self)@[name@] && final(self)@ == old(self)@.insert(
                name@,
                *final(r.unwrap()),
            ),
            r.is_none() ==> final(self)@ == old(self)@,
    {
        let (i, found) = self.locate(name);
        let ghost before = self.entries@;
        proof {
            lemma_sorted_distinct(before);
        }
        if found {
            proof {
                lemma_assoc_entry(before, i as int);
            }
            let slot = &mut self.entries[i].1;
            proof {
                lemma_assoc_update(before, i as int, (before[i as int].0, *final(slot)));
            }
            Some(slot)
        } else {
            proof {
                self.lemma_not_listed(name@, i as int);
            }
            None
        }
    }

    /// Binds `name` to `value` and returns the value that was bound to it
    /// before, if one was.
    pub fn insert(&mut self, name: String, value: AnyInt) -> (r: Option<AnyInt>)
        requires
            old(self).wf(),
        ensures
            final(self).wf(),
            final(self)@ == old(self)@.insert(name@, value),
            r == if old(self)@.contains_key(name@) {
                Some(old(self)@[name@])
            } else {
                None
            },
    {
        let (i, found) = self.locate(name.as_str());
        let ghost before = self.entries@;
        proof {
            lemma_sorted_distinct(before);
        }
        if found {
            proof {
                lemma_assoc_entry(before, i as int);
                lemma_assoc_update(before, i as int, (name, value));
            }
            let was = self.entries[i].1;
            self.entries[i] = (name, value);
            Some(was)
        } else {
            proof {
                self.lemma_not_listed(name@, i as int);
                lemma_assoc_insert_at(before, i as int, (name, value));
            }
            self.entries.insert(i, (name, value));
            None
        }
    }

    /// Unbinds `name` and returns the value that was bound to it, if one was.
    pub fn remove(&mut self, name: &str) -> (r: Option<AnyInt>)
        requires
            old(self).wf(),
        ensures
            final(self).wf(),
            final(self)@ == old(self)@.remove(name@),
            r == if old(self)@.contains_key(name@) {
                Some(old(self)@[name@])
            } else {
                None
            },
    {
        let (i, found) = self.locate(name);
        let ghost before = self.entries@;
        proof {
            lemma_sorted_distinct(before);
        }
        if found {
            proof {
                lemma_assoc_entry(before, i as int);
                lemma_assoc_remove(before, i as int);
            }
            let gone = self.entries.remove(i);
            Some(gone.1)
        } else {
            proof {
                self.lemma_not_listed(name@, i as int);
            }
            None
        }
    }

    /// The number of bindings.
    pub fn len(&self) -> (n: usize)
        requires
            self.wf(),
        ensures
            n == self@.dom().len(),
            n == self.listing().len(),
    {
        proof {
            lemma_sorted_distinct(self.listing());
            lemma_assoc_len(self.listing());
        }
        self.entries.len()
    }

    /// Whether the map has no binding.
    pub fn is_empty(&self) -> (r: bool)
        requires
            self.wf(),
        ensures
            r == (self@.dom().len() == 0),
    {
        proof {
            lemma_sorted_distinct(self.listing());
            lemma_assoc_len(self.listing());
        }
        self.entries.len() == 0
    }

    /// The entries of the map, in the order of their names.
    pub fn entries(&self) -> (entries: &Vec<(String, AnyInt)>)
        ensures
            entries@ == self.listing(),
    {
        &self.entries
    }

    /// The entries of the map, in the order of their names.
    pub fn into_vec(self) -> (entries: Vec<(String, AnyInt)>)
        ensures
            entries@ == self.listing(),
    {
        self.entries
    }

    /// A copy of the entries of the map, in the order of their names.
    pub fn to_vec(&self) -> (entries: Vec<(String, AnyInt)>)
        ensures
            entries@ == self.listing(),
    {
        let mut entries: Vec<(String, AnyInt)> = Vec::new();
        let mut i: usize = 0;
        while i < self.entries.len()
            invariant
                i <= self.entries@.len(),
                entries@ == self.entries@.take(i as int),
            decreases self.entries@.len() - i,
        {
            entries.push((self.entries[i].0.clone(), self.entries[i].1));
            i += 1;
        }
        entries
    }

    /// The names of the map, in the order of its entries.
    pub fn keys(&self) -> (keys: Vec<String>)
        ensures
            keys@.len() == self.listing().len(),
            forall|i: int| 0 <= i < keys@.len() ==> (#[trigger] keys@[i])@ == self.listing()[i].0@,
    {
        let mut keys: Vec<String> = Vec::new();
        let mut i: usize = 0;
        while i < self.entries.len()
            invariant
                i <= self.entries@.len(),
                keys@.len() == i,
                forall|j: int| 0 <= j < i ==> (#[trigger] keys@[j])@ == self.entries@[j].0@,
            decreases self.entries@.len() - i,
        {
            keys.push(self.entries[i].0.clone());
            i += 1;
        }
        keys
    }

    /// The values of the map, in the order of its entries.
    pub fn values(&self) -> (values: Vec<AnyInt>)
        ensures
            values@.len() == self.listing().len(),
            forall|i: int| 0 <= i < values@.len() ==> #[trigger] values@[i] == self.listing()[i].1,
    {
        let mut values: Vec<AnyInt> = Vec::new();
        let mut i: usize = 0;
        while i < self.entries.len()
            invariant
                i <= self.entries@.len(),
                values@.len() == i,
                forall|j: int| 0 <= j < i ==> #[trigger] values@[j] == self.entries@[j].1,
            decreases self.entries@.len() - i,
        {
            values.push(self.entries[i].1);
            i += 1;
        }
        values
    }
}

impl MapType for FieldMap {
    open spec fn bindings(&self) -> Map<Seq<char>, AnyInt> {
        self@
    }

    open spec fn listed(&self) -> Seq<(String, AnyInt)> {
        self.listing()
    }

    open spec fn map_wf(&self) -> bool {
        self.wf()
    }

    fn new() -> (m: Self) {
        FieldMap::new()
    }

    fn get(&self, key: &str) -> (r: Option<&AnyInt>) {
        FieldMap::get(self, key)
    }

    fn get_mut(&mut self, key: &str) -> (r: Option<&mut AnyInt>) {
        FieldMap::get_mut(self, key)
    }

    fn insert(&mut self, key: String, value: AnyInt) -> (r: Option<AnyInt>) {
        FieldMap::insert(self, key, value)
    }

    fn remove(&mut self, key: &str) -> (r: Option<AnyInt>) {
        FieldMap::remove(self, key)
    }

    fn keys(&self) -> (keys: Vec<String>) {
        FieldMap::keys(self)
    }

    fn values(&self) -> (values: Vec<AnyInt>) {
        FieldMap::values(self)
    }

    fn len(&self) -> (n: usize) {
        FieldMap::len(self)
    }

    fn is_empty(&self) -> (r: bool) {
        FieldMap::is_empty(self)
    }

    fn iter(&self) -> (entries: Vec<(String, AnyInt)>) {
        proof {
            lemma_sorted_distinct(self.listing());
        }
        self.to_vec()
    }
}

} // verus!
