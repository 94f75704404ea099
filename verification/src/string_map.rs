//! A map from text to values, kept in the byte order of its keys.

use vstd::prelude::*;
use vstd::string::*;
use vstd::utf8::*;

verus! {

/// The order of byte strings: the first byte that differs decides, and a
/// proper prefix comes first.
pub open spec fn bytes_before(a: Seq<u8>, b: Seq<u8>) -> bool
    decreases a.len(),
{
    if b.len() == 0 {
        false
    } else if a.len() == 0 {
        true
    } else if a[0] != b[0] {
        a[0] < b[0]
    } else {
        bytes_before(a.drop_first(), b.drop_first())
    }
}

/// The order of keys: that of their UTF-8 bytes.
pub open spec fn key_before(a: Seq<char>, b: Seq<char>) -> bool {
    bytes_before(encode_utf8(a), encode_utf8(b))
}

/// How one key stands to another.
pub enum Rank {
    Before,
    Same,
    After,
}

proof fn lemma_before_irreflexive(a: Seq<u8>)
    ensures
        !bytes_before(a, a),
    decreases a.len(),
{
    if a.len() > 0 {
        lemma_before_irreflexive(a.drop_first());
    }
}

proof fn lemma_before_transitive(a: Seq<u8>, b: Seq<u8>, c: Seq<u8>)
    requires
        bytes_before(a, b),
        bytes_before(b, c),
    ensures
        bytes_before(a, c),
    decreases a.len(),
{
    if a.len() > 0 && a[0] == b[0] && b[0] == c[0] {
        lemma_before_transitive(a.drop_first(), b.drop_first(), c.drop_first());
    }
}

/// Where `a` and `b` share their first `k` bytes, what follows decides.
proof fn lemma_before_after_prefix(a: Seq<u8>, b: Seq<u8>, k: int)
    requires
        0 <= k <= a.len(),
        k <= b.len(),
        forall|j: int| 0 <= j < k ==> a[j] == b[j],
    ensures
        bytes_before(a, b) == bytes_before(a.skip(k), b.skip(k)),
    decreases k,
{
    if k == 0 {
        assert(a.skip(0) =~= a);
        assert(b.skip(0) =~= b);
    } else {
        assert(a[0] == b[0]);
        lemma_before_after_prefix(a.drop_first(), b.drop_first(), k - 1);
        assert(a.drop_first().skip(k - 1) =~= a.skip(k));
        assert(b.drop_first().skip(k - 1) =~= b.skip(k));
    }
}

proof fn lemma_key_order(a: Seq<char>, b: Seq<char>, c: Seq<char>)
    ensures
        !key_before(a, a),
        key_before(a, b) && key_before(b, c) ==> key_before(a, c),
        key_before(a, b) ==> !key_before(b, a),
{
    lemma_before_irreflexive(encode_utf8(a));
    if key_before(a, b) && key_before(b, c) {
        lemma_before_transitive(encode_utf8(a), encode_utf8(b), encode_utf8(c));
    }
    if key_before(a, b) && key_before(b, a) {
        lemma_before_transitive(encode_utf8(a), encode_utf8(b), encode_utf8(a));
    }
}

/// How `a` stands to `b` in the order of keys.
fn rank(a: &str, b: &str) -> (r: Rank)
    ensures
        match r {
            Rank::Before => key_before(a@, b@),
            Rank::Same => a@ == b@,
            Rank::After => key_before(b@, a@),
        },
{
    let x = a.as_bytes();
    let y = b.as_bytes();
    proof {
        encode_utf8_decode_utf8(a@);
        encode_utf8_decode_utf8(b@);
    }
    let mut i: usize = 0;
    while i < x.len() && i < y.len()
        invariant
            i <= x@.len(),
            i <= y@.len(),
            x@ == encode_utf8(a@),
            y@ == encode_utf8(b@),
            forall|k: int| 0 <= k < i ==> x@[k] == y@[k],
        decreases x@.len() - i,
    {
        if x[i] != y[i] {
            proof {
                lemma_before_after_prefix(x@, y@, i as int);
                lemma_before_after_prefix(y@, x@, i as int);
            }
            if x[i] < y[i] {
                return Rank::Before;
            } else {
                return Rank::After;
            }
        }
        i += 1;
    }
    proof {
        lemma_before_after_prefix(x@, y@, i as int);
        lemma_before_after_prefix(y@, x@, i as int);
    }
    if i < y.len() {
        Rank::Before
    } else if i < x.len() {
        Rank::After
    } else {
        assert(x@ =~= y@);
        Rank::Same
    }
}

/// A map from strings to values. Its entries stand in key order, so no key
/// occurs twice and walking them yields the keys in ascending byte order.
#[derive(Debug, PartialEq, Eq)]
pub struct StringMap<V> {
    pub(crate) entries: Vec<(String, V)>,
}

impl<V> StringMap<V> {
    /// Each entry's key comes before the keys of the later entries.
    #[verifier::type_invariant]
    pub(crate) open spec fn in_key_order(self) -> bool {
        sorted(self.entries@)
    }

    /// The entries in the order in which they are walked.
    pub closed spec fn listing(self) -> Seq<(Seq<char>, V)> {
        self.entries@.map_values(|e: (String, V)| (e.0@, e.1))
    }
}

pub(crate) open spec fn sorted<V>(entries: Seq<(String, V)>) -> bool {
    forall|i: int, j: int|
        0 <= i < j < entries.len() ==> key_before(
            #[trigger] entries[i].0@,
            #[trigger] entries[j].0@,
        )
}

pub(crate) open spec fn has_key<V>(entries: Seq<(String, V)>, key: Seq<char>) -> bool {
    exists|i: int| 0 <= i < entries.len() && #[trigger] entries[i].0@ == key
}

pub(crate) open spec fn position<V>(entries: Seq<(String, V)>, key: Seq<char>) -> int {
    choose|i: int| 0 <= i < entries.len() && #[trigger] entries[i].0@ == key
}

pub(crate) open spec fn as_map<V>(entries: Seq<(String, V)>) -> Map<Seq<char>, V> {
    Map::new(|k: Seq<char>| has_key(entries, k), |k: Seq<char>| entries[position(entries, k)].1)
}

impl<V> View for StringMap<V> {
    type V = Map<Seq<char>, V>;

    closed spec fn view(&self) -> Map<Seq<char>, V> {
        as_map(self.entries@)
    }
}

pub(crate) proof fn lemma_view_is_entries<V>(map: StringMap<V>)
    ensures
        map@ == as_map(map.entries@),
{
}

pub(crate) proof fn lemma_position<V>(entries: Seq<(String, V)>, i: int)
    requires
        sorted(entries),
        0 <= i < entries.len(),
    ensures
        has_key(entries, entries[i].0@),
        position(entries, entries[i].0@) == i,
{
    let j = position(entries, entries[i].0@);
    lemma_key_order(entries[i].0@, entries[j].0@, entries[i].0@);
}

pub(crate) open spec fn belongs_at<V>(
    entries: Seq<(String, V)>,
    key: Seq<char>,
    at: int,
) -> bool {
    &&& 0 <= at <= entries.len()
    &&& forall|i: int| 0 <= i < at ==> key_before(#[trigger] entries[i].0@, key)
    &&& forall|i: int| at <= i < entries.len() ==> key_before(key, #[trigger] entries[i].0@)
}

/// Each further entry adds its key.
pub(crate) proof fn lemma_one_more<V>(entries: Seq<(String, V)>, i: int)
    requires
        sorted(entries),
        0 <= i < entries.len(),
    ensures
        as_map(entries.take(i + 1)) == as_map(entries.take(i)).insert(entries[i].0@, entries[i].1),
{
    let before = entries.take(i);
    assert forall|k: int| 0 <= k < i implies key_before(#[trigger] before[k].0@, entries[i].0@) by {
        assert(before[k] == entries[k]);
    }
    assert(!has_key(before, entries[i].0@)) by {
        if has_key(before, entries[i].0@) {
            let k = position(before, entries[i].0@);
            lemma_key_order(before[k].0@, entries[i].0@, before[k].0@);
        }
    }
    lemma_placed(before, i, entries[i]);
    assert(entries.take(i + 1) =~= before.insert(i, entries[i]));
}

/// Replacing the entry of a key changes that key's value alone.
proof fn lemma_replaced<V>(before: Seq<(String, V)>, at: int, entry: (String, V))
    requires
        sorted(before),
        0 <= at < before.len(),
        before[at].0@ == entry.0@,
    ensures
        sorted(before.update(at, entry)),
        as_map(before.update(at, entry)) == as_map(before).insert(entry.0@, entry.1),
{
    let after = before.update(at, entry);
    assert(forall|i: int| 0 <= i < before.len() ==> #[trigger] after[i].0@ == before[i].0@);
    assert forall|k: Seq<char>| has_key(before, k) implies #[trigger] has_key(after, k)
        && after[position(after, k)].1 == (if k == entry.0@ {
        entry.1
    } else {
        before[position(before, k)].1
    }) by {
        let i = position(before, k);
        assert(after[i].0@ == k);
        lemma_position(after, i);
        if k == entry.0@ {
            lemma_position(after, at);
        }
    }
    assert forall|k: Seq<char>| #[trigger] has_key(after, k) implies has_key(before, k) by {
        assert(before[position(after, k)].0@ == k);
    }
    assert(has_key(before, entry.0@));
    assert(as_map(after) =~= as_map(before).insert(entry.0@, entry.1));
}

/// Placing an entry where its key belongs adds that key alone.
proof fn lemma_placed<V>(before: Seq<(String, V)>, at: int, entry: (String, V))
    requires
        sorted(before),
        !has_key(before, entry.0@),
        belongs_at(before, entry.0@, at),
    ensures
        sorted(before.insert(at, entry)),
        as_map(before.insert(at, entry)) == as_map(before).insert(entry.0@, entry.1),
{
    let after = before.insert(at, entry);
    assert forall|i: int| 0 <= i < after.len() implies #[trigger] after[i] == (if i < at {
        before[i]
    } else if i == at {
        entry
    } else {
        before[i - 1]
    }) by {}
    assert forall|i: int, j: int| 0 <= i < j < after.len() implies key_before(
        #[trigger] after[i].0@,
        #[trigger] after[j].0@,
    ) by {}
    lemma_position(after, at);
    assert forall|k: Seq<char>| has_key(before, k) implies #[trigger] has_key(after, k)
        && after[position(after, k)].1 == before[position(before, k)].1 by {
        let i = position(before, k);
        let j = if i < at {
            i
        } else {
            i + 1
        };
        assert(after[j] == before[i]);
        lemma_position(after, j);
    }
    assert forall|k: Seq<char>| #[trigger] has_key(after, k) && k != entry.0@ implies has_key(
        before,
        k,
    ) by {
        let j = position(after, k);
        let i = if j < at {
            j
        } else {
            j - 1
        };
        assert(after[j] == before[i]);
        assert(before[i].0@ == k);
    }
    assert(as_map(after) =~= as_map(before).insert(entry.0@, entry.1));
}

/// Taking an entry out removes its key alone.
proof fn lemma_taken<V>(before: Seq<(String, V)>, at: int)
    requires
        sorted(before),
        0 <= at < before.len(),
    ensures
        sorted(before.remove(at)),
        as_map(before.remove(at)) == as_map(before).remove(before[at].0@),
{
    let after = before.remove(at);
    assert forall|i: int| 0 <= i < after.len() implies #[trigger] after[i] == (if i < at {
        before[i]
    } else {
        before[i + 1]
    }) by {}
    assert forall|k: Seq<char>| #[trigger] has_key(after, k) implies has_key(before, k) && k
        != before[at].0@ && after[position(after, k)].1 == before[position(before, k)].1 by {
        let j = position(after, k);
        let i = if j < at {
            j
        } else {
            j + 1
        };
        assert(after[j] == before[i]);
        lemma_position(before, i);
        lemma_position(before, at);
    }
    assert forall|k: Seq<char>| has_key(before, k) && k != before[at].0@ implies #[trigger] has_key(
        after,
        k,
    ) by {
        let i = position(before, k);
        let j = if i < at {
            i
        } else {
            i - 1
        };
        assert(after[j] == before[i]);
    }
    assert(as_map(after) =~= as_map(before).remove(before[at].0@));
}

impl<V> StringMap<V> {
    /// The empty map.
    pub fn new() -> (map: Self)
        ensures
            map@ == Map::<Seq<char>, V>::empty(),
    {
        let map = StringMap { entries: Vec::new() };
        assert(map@ =~= Map::<Seq<char>, V>::empty());
        map
    }

    /// The number of keys. The listing names every key.
    pub fn len(&self) -> (n: usize)
        ensures
            n == self.listing().len(),
            forall|k: Seq<char>| #[trigger]
                self@.contains_key(k) ==> exists|i: int|
                    0 <= i < n && #[trigger] self.listing()[i].0 == k,
    {
        assert forall|k: Seq<char>| #[trigger] self@.contains_key(k) implies exists|i: int|
            0 <= i < self.listing().len() && #[trigger] self.listing()[i].0 == k by {
            let i = position(self.entries@, k);
            assert(self.listing()[i].0 == k);
        }
        self.entries.len()
    }

    /// Where `key` stands: its entry's index and `true`, or the index at
    /// which an entry for it belongs and `false`.
    fn search(&self, key: &str) -> (found: (usize, bool))
        ensures
            found.1 == has_key(self.entries@, key@),
            found.1 ==> found.0 < self.entries@.len() && self.entries@[found.0 as int].0@ == key@,
            !found.1 ==> belongs_at(self.entries@, key@, found.0 as int),
    {
        proof {
            use_type_invariant(self);
        }
        let mut lo: usize = 0;
        let mut hi: usize = self.entries.len();
        while lo < hi
            invariant
                lo <= hi <= self.entries@.len(),
                sorted(self.entries@),
                forall|i: int| 0 <= i < lo ==> key_before(#[trigger] self.entries@[i].0@, key@),
                forall|i: int|
                    hi <= i < self.entries@.len() ==> key_before(
                        key@,
                        #[trigger] self.entries@[i].0@,
                    ),
            decreases hi - lo,
        {
            let mid: usize = lo + (hi - lo) / 2;
            match rank(&self.entries[mid].0, key) {
                Rank::Same => {
                    return (mid, true);
                },
                Rank::Before => {
                    assert forall|i: int| 0 <= i < mid + 1 implies key_before(
                        #[trigger] self.entries@[i].0@,
                        key@,
                    ) by {
                        lemma_key_order(self.entries@[i].0@, self.entries@[mid as int].0@, key@);
                    }
                    lo = mid + 1;
                },
                Rank::After => {
                    assert forall|i: int| mid <= i < self.entries@.len() implies key_before(
                        key@,
                        #[trigger] self.entries@[i].0@,
                    ) by {
                        lemma_key_order(key@, self.entries@[mid as int].0@, self.entries@[i].0@);
                    }
                    hi = mid;
                },
            }
        }
        assert forall|i: int| 0 <= i < self.entries@.len() implies #[trigger] self.entries@[i].0@
            != key@ by {
            lemma_key_order(key@, self.entries@[i].0@, key@);
        }
        (lo, false)
    }

    /// The value of `key`, if the map holds it.
    pub fn get(&self, key: &str) -> (value: Option<&V>)
        ensures
            value == (if self@.contains_key(key@) {
                Some(&self@[key@])
            } else {
                None
            }),
    {
        let found = self.search(key);
        if found.1 {
            proof {
                use_type_invariant(self);
                lemma_position(self.entries@, found.0 as int);
            }
            Some(&self.entries[found.0].1)
        } else {
            None
        }
    }

    /// Sets `key` to `value`.
    pub fn insert(&mut self, key: String, value: V)
        ensures
            final(self)@ == old(self)@.insert(key@, value),
    {
        proof {
            use_type_invariant(&*self);
        }
        let found = self.search(&key);
        let ghost before = self.entries@;
        let mut entries: Vec<(String, V)> = Vec::new();
        std::mem::swap(&mut entries, &mut self.entries);
        let at: usize = found.0;
        if found.1 {
            proof {
                lemma_replaced(before, at as int, (key, value));
            }
            entries.set(at, (key, value));
        } else {
            proof {
                lemma_placed(before, at as int, (key, value));
            }
            entries.insert(at, (key, value));
        }
        self.entries = entries;
    }

    /// Takes `key` out of the map, with its value if it had one.
    pub fn remove(&mut self, key: &str) -> (value: Option<V>)
        ensures
            final(self)@ == old(self)@.remove(key@),
            value == (if old(self)@.contains_key(key@) {
                Some(old(self)@[key@])
            } else {
                None
            }),
    {
        proof {
            use_type_invariant(&*self);
        }
        let found = self.search(key);
        let ghost before = self.entries@;
        if !found.1 {
            assert(as_map(before) =~= as_map(before).remove(key@));
            return None;
        }
        proof {
            lemma_position(before, found.0 as int);
            lemma_taken(before, found.0 as int);
        }
        let mut entries: Vec<(String, V)> = Vec::new();
        std::mem::swap(&mut entries, &mut self.entries);
        let taken = entries.remove(found.0);
        self.entries = entries;
        Some(taken.1)
    }
}

impl<V> StringMap<V> {
    /// The entry at `index` of the listing. The keys before it in the
    /// listing come before it in key order.
    pub fn entry(&self, index: usize) -> (e: (&String, &V))
        requires
            index < self.listing().len(),
        ensures
            (e.0@, *e.1) == self.listing()[index as int],
            self@.contains_key(e.0@),
            self@[e.0@] == *e.1,
            forall|i: int|
                0 <= i < index ==> key_before(#[trigger] self.listing()[i].0, e.0@),
    {
        proof {
            use_type_invariant(self);
            lemma_position(self.entries@, index as int);
        }
        let e = &self.entries[index];
        (&e.0, &e.1)
    }
}

/// A map from text to text, as text.
pub open spec fn texts(map: Map<Seq<char>, String>) -> Map<Seq<char>, Seq<char>> {
    map.map_values(|s: String| s@)
}

impl Clone for StringMap<String> {
    fn clone(&self) -> (copy: Self)
        ensures
            copy@ == self@,
    {
        proof {
            use_type_invariant(self);
        }
        let mut entries: Vec<(String, String)> = Vec::new();
        let mut i: usize = 0;
        while i < self.entries.len()
            invariant
                i <= self.entries@.len(),
                entries@ == self.entries@.take(i as int),
            decreases self.entries@.len() - i,
        {
            let e = &self.entries[i];
            entries.push((e.0.clone(), e.1.clone()));
            i += 1;
            assert(entries@ =~= self.entries@.take(i as int));
        }
        assert(entries@ =~= self.entries@);
        StringMap { entries }
    }
}

} // verus!
