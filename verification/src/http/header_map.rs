//! Ordered maps from header names to values.

use vstd::prelude::*;

use crate::http::headers::{
    response_header_category, RequestHeader, ResponseHeader, REQUEST_HEADER_COUNT,
};
use crate::text::{chars_of, compare_chars, text_lt, TextOrder};
use crate::text::{lemma_text_lt_irreflexive, lemma_text_lt_total, lemma_text_lt_transitive};

verus! {

/// The order of header keys: first by rank, then by name.
pub open spec fn key_lt(a: (u8, Seq<char>), b: (u8, Seq<char>)) -> bool {
    a.0 < b.0 || (a.0 == b.0 && text_lt(a.1, b.1))
}

/// No key comes before itself.
pub proof fn lemma_key_lt_irreflexive(a: (u8, Seq<char>))
    ensures
        !key_lt(a, a),
{
    lemma_text_lt_irreflexive(a.1);
}

/// The order of keys is transitive.
pub proof fn lemma_key_lt_transitive(a: (u8, Seq<char>), b: (u8, Seq<char>), c: (u8, Seq<char>))
    requires
        key_lt(a, b),
        key_lt(b, c),
    ensures
        key_lt(a, c),
{
    if a.0 == b.0 && b.0 == c.0 {
        lemma_text_lt_transitive(a.1, b.1, c.1);
    }
}

/// Of two different keys, one comes before the other.
pub proof fn lemma_key_lt_total(a: (u8, Seq<char>), b: (u8, Seq<char>))
    ensures
        a == b || key_lt(a, b) || key_lt(b, a),
{
    lemma_text_lt_total(a.1, b.1);
}

/// A header name that can key a `HeaderMap`: the map keeps its entries in the order of
/// their keys and holds at most one entry per key.
pub trait HeaderKey: View<V = (nat, Seq<char>)> + Sized {
    /// The key by which a header with this view is ordered and found.
    spec fn key_of(v: (nat, Seq<char>)) -> (u8, Seq<char>);

    /// Computes the key of this header.
    fn key(&self) -> (r: (u8, Vec<char>))
        ensures
            (r.0, r.1@) == Self::key_of(self@),
    ;

    /// The name of this header as it is written out.
    fn header_name(&self) -> (r: String)
        ensures
            r@ == self@.1,
    ;

    /// A copy of this header.
    fn copy_key(&self) -> (r: Self)
        ensures
            r@ == self@,
    ;
}

impl HeaderKey for RequestHeader {
    /// Request headers are ordered by their position among the named headers, and custom
    /// headers after them by name.
    open spec fn key_of(v: (nat, Seq<char>)) -> (u8, Seq<char>) {
        if v.0 < REQUEST_HEADER_COUNT as nat {
            (v.0 as u8, Seq::empty())
        } else {
            (REQUEST_HEADER_COUNT, v.1)
        }
    }

    fn key(&self) -> (r: (u8, Vec<char>)) {
        let name = self.name();
        let rank = self.rank();
        if rank < REQUEST_HEADER_COUNT {
            (rank, Vec::new())
        } else {
            (rank, chars_of(name.as_str()))
        }
    }

    fn header_name(&self) -> (r: String) {
        self.name()
    }

    fn copy_key(&self) -> (r: Self) {
        self.duplicate()
    }
}

impl HeaderKey for ResponseHeader {
    /// Response headers are ordered by category, then by name.
    open spec fn key_of(v: (nat, Seq<char>)) -> (u8, Seq<char>) {
        (response_header_category(v.0), v.1)
    }

    fn key(&self) -> (r: (u8, Vec<char>)) {
        let name = self.name();
        (self.category(), chars_of(name.as_str()))
    }

    fn header_name(&self) -> (r: String) {
        self.name()
    }

    fn copy_key(&self) -> (r: Self) {
        self.duplicate()
    }
}

/// Whether entries are in strictly increasing order of their keys.
pub open spec fn sorted_by_key<K: HeaderKey>(entries: Seq<((nat, Seq<char>), Seq<char>)>) -> bool {
    forall|i: int, j: int|
        0 <= i < j < entries.len() ==> key_lt(
            #[trigger] K::key_of(entries[i].0),
            #[trigger] K::key_of(entries[j].0),
        )
}

/// The value held for a key.
pub open spec fn lookup<K: HeaderKey>(
    entries: Seq<((nat, Seq<char>), Seq<char>)>,
    key: (u8, Seq<char>),
) -> Option<Seq<char>>
    decreases entries.len(),
{
    if entries.len() == 0 {
        None
    } else if K::key_of(entries[0].0) == key {
        Some(entries[0].1)
    } else {
        lookup::<K>(entries.drop_first(), key)
    }
}

/// The entries after setting the value of a header: an entry with the same key keeps
/// its header and takes the new value; otherwise a new entry goes in before the first
/// entry with a greater key.
pub open spec fn insert_entry<K: HeaderKey>(
    entries: Seq<((nat, Seq<char>), Seq<char>)>,
    header: (nat, Seq<char>),
    value: Seq<char>,
) -> Seq<((nat, Seq<char>), Seq<char>)>
    decreases entries.len(),
{
    if entries.len() == 0 {
        seq![(header, value)]
    } else if K::key_of(entries[0].0) == K::key_of(header) {
        entries.update(0, (entries[0].0, value))
    } else if key_lt(K::key_of(header), K::key_of(entries[0].0)) {
        seq![(header, value)] + entries
    } else {
        seq![entries[0]] + insert_entry::<K>(entries.drop_first(), header, value)
    }
}

/// The entries without the one with the given key.
pub open spec fn remove_entry<K: HeaderKey>(
    entries: Seq<((nat, Seq<char>), Seq<char>)>,
    key: (u8, Seq<char>),
) -> Seq<((nat, Seq<char>), Seq<char>)>
    decreases entries.len(),
{
    if entries.len() == 0 {
        entries
    } else if K::key_of(entries[0].0) == key {
        entries.drop_first()
    } else {
        seq![entries[0]] + remove_entry::<K>(entries.drop_first(), key)
    }
}

/// A map from header names to values, kept in the order of the header keys, with at
/// most one entry per key.
#[derive(Debug, PartialEq, Eq)]
pub struct HeaderMap<K: HeaderKey> {
    entries: Vec<(K, String)>,
}

/// The headers of a request, in the order of the header enumeration.
pub type RequestHeaderMap = HeaderMap<RequestHeader>;

/// The headers of a response, ordered by category and then by name.
pub type ResponseHeaderMap = HeaderMap<ResponseHeader>;

impl<K: HeaderKey> View for HeaderMap<K> {
    type V = Seq<((nat, Seq<char>), Seq<char>)>;

    /// The entries in order, each as the header's view and the value's text.
    closed spec fn view(&self) -> Seq<((nat, Seq<char>), Seq<char>)> {
        self.entries@.map_values(|e: (K, String)| (e.0@, e.1@))
    }
}

impl<K: HeaderKey> HeaderMap<K> {
    #[verifier::type_invariant]
    spec fn well_formed(self) -> bool {
        sorted_by_key::<K>(self@)
    }

    /// Creates an empty map.
    pub fn new() -> (r: Self)
        ensures
            r@ == Seq::<((nat, Seq<char>), Seq<char>)>::empty(),
    {
        let r = HeaderMap { entries: Vec::new() };
        assert(r@ =~= Seq::<((nat, Seq<char>), Seq<char>)>::empty());
        r
    }

    /// The number of entries.
    pub fn len(&self) -> (r: usize)
        ensures
            r == self@.len(),
    {
        self.entries.len()
    }

    /// Whether the map has no entries.
    pub fn is_empty(&self) -> (r: bool)
        ensures
            r == (self@.len() == 0),
    {
        self.entries.len() == 0
    }

    /// The header and value of the entry at the given position.
    pub fn entry_at(&self, i: usize) -> (r: (&K, &String))
        requires
            i < self@.len(),
        ensures
            (r.0@, r.1@) == self@[i as int],
    {
        let e = &self.entries[i];
        (&e.0, &e.1)
    }

    /// Finds the position of the first entry whose key is not below `key`.
    fn position(&self, key: &(u8, Vec<char>)) -> (r: usize)
        ensures
            r <= self@.len(),
            forall|j: int| 0 <= j < r ==> key_lt(#[trigger] K::key_of(self@[j].0), (key.0, key.1@)),
            r < self@.len() ==> !key_lt(K::key_of(self@[r as int].0), (key.0, key.1@)),
    {
        proof {
            use_type_invariant(self);
        }
        let mut i: usize = 0;
        while i < self.entries.len()
            invariant
                i <= self.entries@.len(),
                self@.len() == self.entries@.len(),
                forall|j: int| 0 <= j < i ==> key_lt(#[trigger] K::key_of(self@[j].0), (key.0, key.1@)),
            decreases self.entries.len() - i,
        {
            let k = self.entries[i].0.key();
            assert(self@[i as int].0 == self.entries@[i as int].0@);
            let below = if k.0 < key.0 {
                true
            } else if k.0 == key.0 {
                compare_chars(&k.1, &key.1) == TextOrder::Less
            } else {
                false
            };
            if !below {
                return i;
            }
            i = i + 1;
        }
        i
    }

    /// The value held for the given header.
    pub fn get(&self, header: &K) -> (r: Option<&String>)
        ensures
            match lookup::<K>(self@, K::key_of(header@)) {
                Some(v) => r matches Some(s) && s@ == v,
                None => r is None,
            },
    {
        proof {
            use_type_invariant(self);
        }
        let key = header.key();
        let i = self.position(&key);
        if i < self.entries.len() {
            let k = self.entries[i].0.key();
            if k.0 == key.0 && compare_chars(&k.1, &key.1) == TextOrder::Equal {
                proof {
                    lemma_lookup_at::<K>(self@, i as int);
                }
                return Some(&self.entries[i].1);
            }
        }
        proof {
            lemma_lookup_absent::<K>(self@, K::key_of(header@), i as int);
        }
        None
    }

    /// Whether the map holds a value for the given header.
    pub fn contains(&self, header: &K) -> (r: bool)
        ensures
            r == lookup::<K>(self@, K::key_of(header@)) is Some,
    {
        self.get(header).is_some()
    }

    /// Sets the value for the given header, returning the value it replaced.
    pub fn insert(&mut self, header: K, value: String) -> (r: Option<String>)
        ensures
            final(self)@ == insert_entry::<K>(old(self)@, header@, value@),
            match lookup::<K>(old(self)@, K::key_of(header@)) {
                Some(v) => r matches Some(s) && s@ == v,
                None => r is None,
            },
    {
        proof {
            use_type_invariant(&*self);
        }
        let ghost old_view = self@;
        let key = header.key();
        let i = self.position(&key);
        let mut entries = Vec::new();
        std::mem::swap(&mut entries, &mut self.entries);
        assert(entries@.map_values(|e: (K, String)| (e.0@, e.1@)) == old_view);
        let mut same = false;
        if i < entries.len() {
            let k = entries[i].0.key();
            same = k.0 == key.0 && compare_chars(&k.1, &key.1) == TextOrder::Equal;
        }
        let r;
        if same {
            let old_entry = entries.remove(i);
            let old_value = old_entry.1;
            entries.insert(i, (old_entry.0, value));
            r = Some(old_value);
            proof {
                lemma_insert_at_equal::<K>(old_view, header@, value@, i as int);
                lemma_lookup_at::<K>(old_view, i as int);
            }
        } else {
            entries.insert(i, (header, value));
            r = None;
            proof {
                lemma_insert_at_gap::<K>(old_view, header@, value@, i as int);
                lemma_lookup_absent::<K>(old_view, K::key_of(header@), i as int);
            }
        }
        proof {
            lemma_insert_sorted::<K>(old_view, header@, value@);
            assert(entries@.map_values(|e: (K, String)| (e.0@, e.1@)) =~= insert_entry::<K>(
                old_view,
                header@,
                value@,
            ));
        }
        self.entries = entries;
        r
    }

    /// Removes the entry for the given header, returning its value.
    pub fn remove(&mut self, header: &K) -> (r: Option<String>)
        ensures
            final(self)@ == remove_entry::<K>(old(self)@, K::key_of(header@)),
            match lookup::<K>(old(self)@, K::key_of(header@)) {
                Some(v) => r matches Some(s) && s@ == v,
                None => r is None,
            },
    {
        proof {
            use_type_invariant(&*self);
        }
        let ghost old_view = self@;
        let key = header.key();
        let i = self.position(&key);
        let mut entries = Vec::new();
        std::mem::swap(&mut entries, &mut self.entries);
        assert(entries@.map_values(|e: (K, String)| (e.0@, e.1@)) == old_view);
        let mut same = false;
        if i < entries.len() {
            let k = entries[i].0.key();
            same = k.0 == key.0 && compare_chars(&k.1, &key.1) == TextOrder::Equal;
        }
        if same {
            let old_entry = entries.remove(i);
            proof {
                lemma_remove_at::<K>(old_view, K::key_of(header@), i as int);
                lemma_lookup_at::<K>(old_view, i as int);
                lemma_remove_sorted::<K>(old_view, K::key_of(header@));
                assert(entries@.map_values(|e: (K, String)| (e.0@, e.1@)) =~= remove_entry::<K>(
                    old_view,
                    K::key_of(header@),
                ));
            }
            self.entries = entries;
            Some(old_entry.1)
        } else {
            proof {
                lemma_lookup_absent::<K>(old_view, K::key_of(header@), i as int);
                lemma_remove_absent::<K>(old_view, K::key_of(header@));
            }
            self.entries = entries;
            None
        }
    }
}

proof fn lemma_lookup_at<K: HeaderKey>(entries: Seq<((nat, Seq<char>), Seq<char>)>, i: int)
    requires
        sorted_by_key::<K>(entries),
        0 <= i < entries.len(),
    ensures
        lookup::<K>(entries, K::key_of(entries[i].0)) == Some(entries[i].1),
    decreases i,
{
    if i > 0 {
        lemma_key_lt_irreflexive(K::key_of(entries[0].0));
        assert(key_lt(K::key_of(entries[0].0), K::key_of(entries[i].0)));
        lemma_drop_first_sorted::<K>(entries);
        lemma_lookup_at::<K>(entries.drop_first(), i - 1);
    }
}

proof fn lemma_drop_first_sorted<K: HeaderKey>(entries: Seq<((nat, Seq<char>), Seq<char>)>)
    requires
        sorted_by_key::<K>(entries),
        entries.len() > 0,
    ensures
        sorted_by_key::<K>(entries.drop_first()),
{
    let d = entries.drop_first();
    assert forall|i: int, j: int| 0 <= i < j < d.len() implies key_lt(
        #[trigger] K::key_of(d[i].0),
        #[trigger] K::key_of(d[j].0),
    ) by {
        assert(d[i] == entries[i + 1]);
        assert(d[j] == entries[j + 1]);
    }
}

/// A key below the entry at `i` and above every entry before it is held by no entry.
proof fn lemma_lookup_absent<K: HeaderKey>(
    entries: Seq<((nat, Seq<char>), Seq<char>)>,
    key: (u8, Seq<char>),
    i: int,
)
    requires
        sorted_by_key::<K>(entries),
        0 <= i <= entries.len(),
        forall|j: int| 0 <= j < i ==> key_lt(#[trigger] K::key_of(entries[j].0), key),
        i < entries.len() ==> K::key_of(entries[i].0) != key,
        i < entries.len() ==> !key_lt(K::key_of(entries[i].0), key),
    ensures
        lookup::<K>(entries, key) is None,
    decreases entries.len(),
{
    if entries.len() > 0 {
        if i > 0 {
            lemma_key_lt_irreflexive(key);
            assert(key_lt(K::key_of(entries[0].0), key));
            lemma_drop_first_sorted::<K>(entries);
            let d = entries.drop_first();
            assert forall|j: int| 0 <= j < i - 1 implies key_lt(#[trigger] K::key_of(d[j].0), key) by {
                assert(d[j] == entries[j + 1]);
            }
            lemma_lookup_absent::<K>(d, key, i - 1);
        } else {
            // the first entry's key is above `key`, and so are all the others
            lemma_key_lt_total(K::key_of(entries[0].0), key);
            lemma_lookup_all_above::<K>(entries, key);
        }
    }
}

proof fn lemma_lookup_all_above<K: HeaderKey>(
    entries: Seq<((nat, Seq<char>), Seq<char>)>,
    key: (u8, Seq<char>),
)
    requires
        sorted_by_key::<K>(entries),
        entries.len() > 0 ==> key_lt(key, K::key_of(entries[0].0)),
    ensures
        lookup::<K>(entries, key) is None,
    decreases entries.len(),
{
    if entries.len() > 0 {
        lemma_key_lt_irreflexive(key);
        lemma_drop_first_sorted::<K>(entries);
        let d = entries.drop_first();
        if d.len() > 0 {
            assert(d[0] == entries[1]);
            assert(key_lt(K::key_of(entries[0].0), K::key_of(entries[1].0)));
            lemma_key_lt_transitive(key, K::key_of(entries[0].0), K::key_of(d[0].0));
        }
        lemma_lookup_all_above::<K>(d, key);
    }
}

proof fn lemma_insert_at_equal<K: HeaderKey>(
    entries: Seq<((nat, Seq<char>), Seq<char>)>,
    header: (nat, Seq<char>),
    value: Seq<char>,
    i: int,
)
    requires
        sorted_by_key::<K>(entries),
        0 <= i < entries.len(),
        forall|j: int| 0 <= j < i ==> key_lt(#[trigger] K::key_of(entries[j].0), K::key_of(header)),
        K::key_of(entries[i].0) == K::key_of(header),
    ensures
        insert_entry::<K>(entries, header, value) == entries.update(i, (entries[i].0, value)),
    decreases i,
{
    if i > 0 {
        lemma_key_lt_irreflexive(K::key_of(header));
        lemma_key_lt_total(K::key_of(entries[0].0), K::key_of(header));
        assert(key_lt(K::key_of(entries[0].0), K::key_of(header)));
        let d = entries.drop_first();
        lemma_drop_first_sorted::<K>(entries);
        assert forall|j: int| 0 <= j < i - 1 implies key_lt(#[trigger] K::key_of(d[j].0), K::key_of(header)) by {
            assert(d[j] == entries[j + 1]);
        }
        lemma_insert_at_equal::<K>(d, header, value, i - 1);
        assert(!key_lt(K::key_of(header), K::key_of(entries[0].0))) by {
            if key_lt(K::key_of(header), K::key_of(entries[0].0)) {
                lemma_key_lt_transitive(K::key_of(header), K::key_of(entries[0].0), K::key_of(header));
            }
        }
        assert(seq![entries[0]] + d.update(i - 1, (d[i - 1].0, value)) =~= entries.update(
            i,
            (entries[i].0, value),
        ));
    }
}

proof fn lemma_insert_at_gap<K: HeaderKey>(
    entries: Seq<((nat, Seq<char>), Seq<char>)>,
    header: (nat, Seq<char>),
    value: Seq<char>,
    i: int,
)
    requires
        sorted_by_key::<K>(entries),
        0 <= i <= entries.len(),
        forall|j: int| 0 <= j < i ==> key_lt(#[trigger] K::key_of(entries[j].0), K::key_of(header)),
        i < entries.len() ==> K::key_of(entries[i].0) != K::key_of(header),
        i < entries.len() ==> !key_lt(K::key_of(entries[i].0), K::key_of(header)),
    ensures
        insert_entry::<K>(entries, header, value) == entries.insert(i, (header, value)),
    decreases i,
{
    if entries.len() == 0 {
        assert(entries.insert(i, (header, value)) =~= seq![(header, value)]);
    } else if i > 0 {
        lemma_key_lt_irreflexive(K::key_of(header));
        assert(key_lt(K::key_of(entries[0].0), K::key_of(header)));
        assert(!key_lt(K::key_of(header), K::key_of(entries[0].0))) by {
            if key_lt(K::key_of(header), K::key_of(entries[0].0)) {
                lemma_key_lt_transitive(K::key_of(header), K::key_of(entries[0].0), K::key_of(header));
            }
        }
        let d = entries.drop_first();
        lemma_drop_first_sorted::<K>(entries);
        assert forall|j: int| 0 <= j < i - 1 implies key_lt(#[trigger] K::key_of(d[j].0), K::key_of(header)) by {
            assert(d[j] == entries[j + 1]);
        }
        if i - 1 < d.len() {
            assert(d[i - 1] == entries[i]);
        }
        lemma_insert_at_gap::<K>(d, header, value, i - 1);
        assert(seq![entries[0]] + d.insert(i - 1, (header, value)) =~= entries.insert(i, (header, value)));
    } else {
        lemma_key_lt_total(K::key_of(entries[0].0), K::key_of(header));
        assert(seq![(header, value)] + entries =~= entries.insert(0, (header, value)));
    }
}

/// Setting a value keeps the entries in strictly increasing order of their keys.
pub proof fn lemma_insert_sorted<K: HeaderKey>(
    entries: Seq<((nat, Seq<char>), Seq<char>)>,
    header: (nat, Seq<char>),
    value: Seq<char>,
)
    requires
        sorted_by_key::<K>(entries),
    ensures
        sorted_by_key::<K>(insert_entry::<K>(entries, header, value)),
        insert_entry::<K>(entries, header, value).len() > 0,
        K::key_of(insert_entry::<K>(entries, header, value)[0].0) == K::key_of(header) || (
        entries.len() > 0 && K::key_of(insert_entry::<K>(entries, header, value)[0].0)
            == K::key_of(entries[0].0)),
    decreases entries.len(),
{
    let r = insert_entry::<K>(entries, header, value);
    if entries.len() == 0 {
    } else if K::key_of(entries[0].0) == K::key_of(header) {
        assert forall|i: int, j: int| 0 <= i < j < r.len() implies key_lt(
            #[trigger] K::key_of(r[i].0),
            #[trigger] K::key_of(r[j].0),
        ) by {
            assert(r[i].0 == entries[i].0);
            assert(r[j].0 == entries[j].0);
        }
    } else if key_lt(K::key_of(header), K::key_of(entries[0].0)) {
        assert forall|i: int, j: int| 0 <= i < j < r.len() implies key_lt(
            #[trigger] K::key_of(r[i].0),
            #[trigger] K::key_of(r[j].0),
        ) by {
            if i == 0 {
                assert(r[j] == entries[j - 1]);
                if j - 1 > 0 {
                    lemma_key_lt_transitive(
                        K::key_of(header),
                        K::key_of(entries[0].0),
                        K::key_of(entries[j - 1].0),
                    );
                }
            } else {
                assert(r[i] == entries[i - 1]);
                assert(r[j] == entries[j - 1]);
            }
        }
    } else {
        let d = entries.drop_first();
        lemma_drop_first_sorted::<K>(entries);
        lemma_insert_sorted::<K>(d, header, value);
        let t = insert_entry::<K>(d, header, value);
        lemma_key_lt_total(K::key_of(entries[0].0), K::key_of(header));
        assert(key_lt(K::key_of(entries[0].0), K::key_of(t[0].0))) by {
            if K::key_of(t[0].0) != K::key_of(header) {
                assert(d[0] == entries[1]);
            }
        }
        assert forall|i: int, j: int| 0 <= i < j < r.len() implies key_lt(
            #[trigger] K::key_of(r[i].0),
            #[trigger] K::key_of(r[j].0),
        ) by {
            if i == 0 {
                assert(r[j] == t[j - 1]);
                if j - 1 > 0 {
                    lemma_key_lt_transitive(
                        K::key_of(entries[0].0),
                        K::key_of(t[0].0),
                        K::key_of(t[j - 1].0),
                    );
                }
            } else {
                assert(r[i] == t[i - 1]);
                assert(r[j] == t[j - 1]);
            }
        }
    }
}

proof fn lemma_remove_at<K: HeaderKey>(
    entries: Seq<((nat, Seq<char>), Seq<char>)>,
    key: (u8, Seq<char>),
    i: int,
)
    requires
        sorted_by_key::<K>(entries),
        0 <= i < entries.len(),
        forall|j: int| 0 <= j < i ==> key_lt(#[trigger] K::key_of(entries[j].0), key),
        K::key_of(entries[i].0) == key,
    ensures
        remove_entry::<K>(entries, key) == entries.remove(i),
    decreases i,
{
    if i > 0 {
        lemma_key_lt_irreflexive(key);
        assert(key_lt(K::key_of(entries[0].0), key));
        let d = entries.drop_first();
        lemma_drop_first_sorted::<K>(entries);
        assert forall|j: int| 0 <= j < i - 1 implies key_lt(#[trigger] K::key_of(d[j].0), key) by {
            assert(d[j] == entries[j + 1]);
        }
        lemma_remove_at::<K>(d, key, i - 1);
        assert(seq![entries[0]] + d.remove(i - 1) =~= entries.remove(i));
    } else {
        assert(entries.drop_first() =~= entries.remove(0));
    }
}

proof fn lemma_remove_absent<K: HeaderKey>(
    entries: Seq<((nat, Seq<char>), Seq<char>)>,
    key: (u8, Seq<char>),
)
    requires
        lookup::<K>(entries, key) is None,
    ensures
        remove_entry::<K>(entries, key) == entries,
    decreases entries.len(),
{
    if entries.len() > 0 {
        lemma_remove_absent::<K>(entries.drop_first(), key);
        assert(seq![entries[0]] + entries.drop_first() =~= entries);
    }
}

/// Removing an entry keeps the entries in strictly increasing order of their keys.
pub proof fn lemma_remove_sorted<K: HeaderKey>(
    entries: Seq<((nat, Seq<char>), Seq<char>)>,
    key: (u8, Seq<char>),
)
    requires
        sorted_by_key::<K>(entries),
    ensures
        sorted_by_key::<K>(remove_entry::<K>(entries, key)),
        forall|x: ((nat, Seq<char>), Seq<char>)|
            #![trigger remove_entry::<K>(entries, key).contains(x)]
            remove_entry::<K>(entries, key).contains(x) ==> entries.contains(x),
    decreases entries.len(),
{
    let r = remove_entry::<K>(entries, key);
    if entries.len() == 0 {
    } else if K::key_of(entries[0].0) == key {
        lemma_drop_first_sorted::<K>(entries);
        assert forall|x: ((nat, Seq<char>), Seq<char>)| r.contains(x) implies entries.contains(x) by {
            let k = choose|k: int| 0 <= k < r.len() && r[k] == x;
            assert(entries[k + 1] == x);
        }
    } else {
        let d = entries.drop_first();
        lemma_drop_first_sorted::<K>(entries);
        lemma_remove_sorted::<K>(d, key);
        let t = remove_entry::<K>(d, key);
        assert forall|x: ((nat, Seq<char>), Seq<char>)| r.contains(x) implies entries.contains(x) by {
            let k = choose|k: int| 0 <= k < r.len() && r[k] == x;
            if k == 0 {
                assert(entries[0] == x);
            } else {
                assert(t[k - 1] == x);
                assert(t.contains(x));
                let m = choose|m: int| 0 <= m < d.len() && d[m] == x;
                assert(entries[m + 1] == x);
            }
        }
        assert forall|i: int, j: int| 0 <= i < j < r.len() implies key_lt(
            #[trigger] K::key_of(r[i].0),
            #[trigger] K::key_of(r[j].0),
        ) by {
            if i == 0 {
                assert(r[j] == t[j - 1]);
                assert(t.contains(t[j - 1]));
                let m = choose|m: int| 0 <= m < d.len() && d[m] == t[j - 1];
                assert(d[m] == entries[m + 1]);
            } else {
                assert(r[i] == t[i - 1]);
                assert(r[j] == t[j - 1]);
            }
        }
    }
}

/// Reading a header just after setting it gives the value that was set.
pub proof fn lemma_lookup_after_insert<K: HeaderKey>(
    entries: Seq<((nat, Seq<char>), Seq<char>)>,
    header: (nat, Seq<char>),
    value: Seq<char>,
    other: (u8, Seq<char>),
)
    requires
        sorted_by_key::<K>(entries),
    ensures
        lookup::<K>(insert_entry::<K>(entries, header, value), K::key_of(header)) == Some(value),
        other != K::key_of(header) ==> lookup::<K>(insert_entry::<K>(entries, header, value), other)
            == lookup::<K>(entries, other),
    decreases entries.len(),
{
    if entries.len() == 0 {
        let r = insert_entry::<K>(entries, header, value);
        assert(r.drop_first() =~= entries);
    } else if K::key_of(entries[0].0) == K::key_of(header) {
        let r = insert_entry::<K>(entries, header, value);
        assert(r.drop_first() =~= entries.drop_first());
    } else if key_lt(K::key_of(header), K::key_of(entries[0].0)) {
        let r = insert_entry::<K>(entries, header, value);
        assert(r.drop_first() =~= entries);
    } else {
        lemma_drop_first_sorted::<K>(entries);
        lemma_lookup_after_insert::<K>(entries.drop_first(), header, value, other);
        let r = insert_entry::<K>(entries, header, value);
        assert(r.drop_first() =~= insert_entry::<K>(entries.drop_first(), header, value));
    }
}

/// After removing a header, the map holds no value for it and the same values for others.
pub proof fn lemma_lookup_after_remove<K: HeaderKey>(
    entries: Seq<((nat, Seq<char>), Seq<char>)>,
    key: (u8, Seq<char>),
    other: (u8, Seq<char>),
)
    requires
        sorted_by_key::<K>(entries),
    ensures
        lookup::<K>(remove_entry::<K>(entries, key), key) is None,
        other != key ==> lookup::<K>(remove_entry::<K>(entries, key), other) == lookup::<K>(
            entries,
            other,
        ),
    decreases entries.len(),
{
    if entries.len() == 0 {
    } else if K::key_of(entries[0].0) == key {
        lemma_drop_first_sorted::<K>(entries);
        let d = entries.drop_first();
        if d.len() > 0 {
            assert(d[0] == entries[1]);
            assert(key_lt(key, K::key_of(d[0].0)));
        }
        lemma_lookup_all_above::<K>(d, key);
    } else {
        lemma_drop_first_sorted::<K>(entries);
        lemma_lookup_after_remove::<K>(entries.drop_first(), key, other);
        let r = remove_entry::<K>(entries, key);
        assert(r.drop_first() =~= remove_entry::<K>(entries.drop_first(), key));
    }
}

impl<K: HeaderKey> Clone for HeaderMap<K> {
    /// A copy of the map, with the same entries.
    fn clone(&self) -> (r: Self)
        ensures
            r@ == self@,
    {
        proof {
            use_type_invariant(self);
        }
        let mut entries: Vec<(K, String)> = Vec::new();
        let mut i: usize = 0;
        while i < self.entries.len()
            invariant
                i <= self.entries@.len(),
                self@.len() == self.entries@.len(),
                entries@.map_values(|e: (K, String)| (e.0@, e.1@)) == self@.take(i as int),
            decreases self.entries.len() - i,
        {
            let k = self.entries[i].0.copy_key();
            let v = self.entries[i].1.clone();
            let ghost before = entries@;
            entries.push((k, v));
            proof {
                assert(self@[i as int] == (self.entries@[i as int].0@, self.entries@[i as int].1@));
                assert(entries@.map_values(|e: (K, String)| (e.0@, e.1@)) =~= before.map_values(
                    |e: (K, String)| (e.0@, e.1@),
                ).push((k@, v@)));
                assert(self@.take(i + 1) =~= self@.take(i as int).push(self@[i as int]));
            }
            i = i + 1;
        }
        assert(self@.take(i as int) =~= self@);
        HeaderMap { entries }
    }
}

/// Whether the first key comes before the second.
fn key_precedes(a: &(u8, Vec<char>), b: &(u8, Vec<char>)) -> (r: bool)
    ensures
        r == key_lt((a.0, a.1@), (b.0, b.1@)),
{
    a.0 < b.0 || (a.0 == b.0 && compare_chars(&a.1, &b.1) == TextOrder::Less)
}

impl RequestHeader {
    /// Whether this header comes before the other: named headers in the order of the
    /// enumeration, then custom headers by name.
    pub fn precedes(&self, other: &RequestHeader) -> (r: bool)
        ensures
            r == key_lt(RequestHeader::key_of(self@), RequestHeader::key_of(other@)),
    {
        key_precedes(&self.key(), &other.key())
    }
}

impl ResponseHeader {
    /// Whether this header is written before the other in a response: by category
    /// (general, response, entity, others), then by name.
    pub fn precedes(&self, other: &ResponseHeader) -> (r: bool)
        ensures
            r == key_lt(ResponseHeader::key_of(self@), ResponseHeader::key_of(other@)),
    {
        key_precedes(&self.key(), &other.key())
    }
}

/// The entries after setting, in turn, each of the given entries' headers to its value,
/// starting from `base`.
pub open spec fn insert_all_from<K: HeaderKey>(
    base: Seq<((nat, Seq<char>), Seq<char>)>,
    entries: Seq<((nat, Seq<char>), Seq<char>)>,
) -> Seq<((nat, Seq<char>), Seq<char>)>
    decreases entries.len(),
{
    if entries.len() == 0 {
        base
    } else {
        insert_all_from::<K>(
            insert_entry::<K>(base, entries[0].0, entries[0].1),
            entries.drop_first(),
        )
    }
}

/// Setting a header whose key comes after every key of the entries adds it at the end.
proof fn lemma_insert_at_end<K: HeaderKey>(
    entries: Seq<((nat, Seq<char>), Seq<char>)>,
    header: (nat, Seq<char>),
    value: Seq<char>,
)
    requires
        forall|i: int| 0 <= i < entries.len() ==> key_lt(#[trigger] K::key_of(entries[i].0), K::key_of(header)),
    ensures
        insert_entry::<K>(entries, header, value) == entries.push((header, value)),
    decreases entries.len(),
{
    if entries.len() > 0 {
        let first = K::key_of(entries[0].0);
        assert(key_lt(first, K::key_of(header)));
        lemma_key_lt_irreflexive(first);
        if key_lt(K::key_of(header), first) {
            lemma_key_lt_transitive(first, K::key_of(header), first);
        }
        let rest = entries.drop_first();
        assert forall|i: int| 0 <= i < rest.len() implies key_lt(#[trigger] K::key_of(rest[i].0), K::key_of(header)) by {
            assert(rest[i] == entries[i + 1]);
        }
        lemma_insert_at_end::<K>(rest, header, value);
        assert(seq![entries[0]] + rest.push((header, value)) =~= entries.push((header, value)));
    } else {
        assert(seq![(header, value)] =~= entries.push((header, value)));
    }
}

/// Setting, from the first `k`, the remaining headers of entries kept in the order of
/// their keys gives the entries.
proof fn lemma_insert_rest_sorted<K: HeaderKey>(entries: Seq<((nat, Seq<char>), Seq<char>)>, k: int)
    requires
        sorted_by_key::<K>(entries),
        0 <= k <= entries.len(),
    ensures
        insert_all_from::<K>(entries.take(k), entries.skip(k)) == entries,
    decreases entries.len() - k,
{
    if k == entries.len() {
        assert(entries.take(k) =~= entries);
        assert(entries.skip(k).len() == 0);
    } else {
        let e = entries[k];
        assert(entries.skip(k)[0] == e);
        assert forall|i: int| 0 <= i < entries.take(k).len() implies key_lt(
            #[trigger] K::key_of(entries.take(k)[i].0),
            K::key_of(e.0),
        ) by {
            assert(entries.take(k)[i] == entries[i]);
        }
        lemma_insert_at_end::<K>(entries.take(k), e.0, e.1);
        assert(entries.take(k).push(e) =~= entries.take(k + 1));
        assert(entries.skip(k).drop_first() =~= entries.skip(k + 1));
        lemma_insert_rest_sorted::<K>(entries, k + 1);
    }
}

/// Setting, one after the other, the headers of entries kept in the order of their keys
/// builds those same entries: reading back the header lines of a written map in order
/// gives the map back.
pub proof fn lemma_insert_all_sorted<K: HeaderKey>(entries: Seq<((nat, Seq<char>), Seq<char>)>)
    requires
        sorted_by_key::<K>(entries),
    ensures
        insert_all_from::<K>(Seq::empty(), entries) == entries,
{
    lemma_insert_rest_sorted::<K>(entries, 0);
    assert(entries.take(0) =~= Seq::<((nat, Seq<char>), Seq<char>)>::empty());
    assert(entries.skip(0) =~= entries);
}

/// Setting the headers of some entries and then one more header is setting the headers of
/// the entries with that one at the end.
pub proof fn lemma_insert_all_from_push<K: HeaderKey>(
    base: Seq<((nat, Seq<char>), Seq<char>)>,
    entries: Seq<((nat, Seq<char>), Seq<char>)>,
    e: ((nat, Seq<char>), Seq<char>),
)
    ensures
        insert_all_from::<K>(base, entries.push(e)) == insert_entry::<K>(
            insert_all_from::<K>(base, entries),
            e.0,
            e.1,
        ),
    decreases entries.len(),
{
    if entries.len() == 0 {
        let empty = Seq::<((nat, Seq<char>), Seq<char>)>::empty();
        assert(entries.push(e)[0] == e);
        assert(entries.push(e).drop_first() =~= empty);
        assert(insert_all_from::<K>(insert_entry::<K>(base, e.0, e.1), empty) == insert_entry::<K>(
            base,
            e.0,
            e.1,
        ));
    } else {
        let next = insert_entry::<K>(base, entries[0].0, entries[0].1);
        assert(entries.push(e)[0] == entries[0]);
        assert(entries.push(e).drop_first() =~= entries.drop_first().push(e));
        lemma_insert_all_from_push::<K>(next, entries.drop_first(), e);
    }
}

} // verus!
