//! Tag mappings and string sets with a deterministic encoding order.
//!
//! Keys are held unique and ascending by code point, so that iterating the
//! entries always yields the same wire bytes for the same contents.

use crate::strcmp::{lemma_lex_asym, lemma_lex_trichotomy, lex_lt, str_compare, str_eq, KeyOrder};
use vstd::prelude::*;
use vstd::string::*;

verus! {

/// The keys of the entries are strictly ascending (hence unique).
pub open spec fn keys_sorted(s: Seq<(Seq<char>, Seq<char>)>) -> bool {
    forall|i: int| 0 <= i && i + 1 < s.len() ==> lex_lt(#[trigger] s[i].0, s[i + 1].0)
}

/// The entries with `(k, v)` placed at its sorted position, replacing an
/// entry whose key is already `k`.
pub open spec fn insert_sorted(
    s: Seq<(Seq<char>, Seq<char>)>,
    k: Seq<char>,
    v: Seq<char>,
) -> Seq<(Seq<char>, Seq<char>)>
    decreases s.len(),
{
    if s.len() == 0 {
        seq![(k, v)]
    } else if lex_lt(k, s[0].0) {
        seq![(k, v)] + s
    } else if k == s[0].0 {
        seq![(k, v)] + s.drop_first()
    } else {
        seq![s[0]] + insert_sorted(s.drop_first(), k, v)
    }
}

/// Placing an entry at the position the scan found is what `insert_sorted`
/// describes.
proof fn lemma_insert_sorted_at(s: Seq<(Seq<char>, Seq<char>)>, k: Seq<char>, v: Seq<char>, p: int)
    requires
        0 <= p <= s.len(),
        forall|i: int| 0 <= i < p ==> lex_lt(#[trigger] s[i].0, k),
        p < s.len() ==> !lex_lt(s[p].0, k),
    ensures
        p < s.len() && s[p].0 == k ==> insert_sorted(s, k, v) == s.update(p, (k, v)),
        !(p < s.len() && s[p].0 == k) ==> insert_sorted(s, k, v) == s.insert(p, (k, v)),
    decreases s.len(),
{
    if s.len() == 0 {
        s.insert_ensures(0, (k, v));
        assert(insert_sorted(s, k, v) =~= s.insert(0, (k, v)));
    } else if p == 0 {
        if s[0].0 == k {
            if lex_lt(k, s[0].0) {
                lemma_lex_asym(k, s[0].0);
            }
            assert(seq![(k, v)] + s.drop_first() =~= s.update(0, (k, v)));
        } else {
            lemma_lex_trichotomy(k, s[0].0);
            s.insert_ensures(0, (k, v));
            assert(seq![(k, v)] + s =~= s.insert(0, (k, v)));
        }
    } else {
        lemma_lex_asym(s[0].0, k);
        let s1 = s.drop_first();
        assert(forall|i: int| 0 <= i < p - 1 ==> lex_lt(#[trigger] s1[i].0, k)) by {
            assert(forall|i: int| 0 <= i < s1.len() ==> s1[i] == #[trigger] s[i + 1]);
        }
        lemma_insert_sorted_at(s1, k, v, p - 1);
        assert(insert_sorted(s, k, v) == seq![s[0]] + insert_sorted(s1, k, v));
        if p < s.len() && s[p].0 == k {
            assert(s1[p - 1] == s[p]);
            assert(seq![s[0]] + s1.update(p - 1, (k, v)) =~= s.update(p, (k, v)));
        } else {
            s1.insert_ensures(p - 1, (k, v));
            s.insert_ensures(p, (k, v));
            assert(seq![s[0]] + s1.insert(p - 1, (k, v)) =~= s.insert(p, (k, v)));
        }
    }
}

/// Inserting into entries with sorted keys leaves the keys sorted.
proof fn lemma_insert_sorted_keeps_sorted(s: Seq<(Seq<char>, Seq<char>)>, k: Seq<char>, v: Seq<char>)
    requires
        keys_sorted(s),
    ensures
        keys_sorted(insert_sorted(s, k, v)),
    decreases s.len(),
{
    if s.len() == 0 {
    } else if lex_lt(k, s[0].0) {
        let t = seq![(k, v)] + s;
        assert forall|i: int| 0 <= i && i + 1 < t.len() implies lex_lt(#[trigger] t[i].0, t[i + 1].0) by {
            if i > 0 {
                assert(t[i] == s[i - 1] && t[i + 1] == s[i]);
            }
        }
    } else if k == s[0].0 {
        let t = seq![(k, v)] + s.drop_first();
        assert forall|i: int| 0 <= i && i + 1 < t.len() implies lex_lt(#[trigger] t[i].0, t[i + 1].0) by {
            if i == 0 {
                assert(t[1] == s.drop_first()[0] && s.drop_first()[0] == s[1]);
            } else {
                assert(t[i] == s[i] && t[i + 1] == s[i + 1]);
            }
        }
    } else {
        lemma_lex_trichotomy(k, s[0].0);
        let s1 = s.drop_first();
        assert(forall|i: int| 0 <= i < s1.len() ==> s1[i] == #[trigger] s[i + 1]);
        lemma_insert_sorted_keeps_sorted(s1, k, v);
        let t1 = insert_sorted(s1, k, v);
        let t = seq![s[0]] + t1;
        // the head of the inserted tail is either the new entry or the old
        // second entry; the old head precedes both
        assert(t1.len() > 0 && (t1[0] == (k, v) || (s1.len() > 0 && t1[0] == s1[0])));
        assert forall|i: int| 0 <= i && i + 1 < t.len() implies lex_lt(#[trigger] t[i].0, t[i + 1].0) by {
            if i == 0 {
                assert(t[1] == t1[0]);
            } else {
                assert(t[i] == t1[i - 1] && t[i + 1] == t1[i]);
            }
        }
    }
}

/// A tag mapping with unique keys and deterministic (ascending) iteration
/// order for encoding.
#[derive(Debug, Clone, PartialEq, Eq)]
pub struct TagMap {
    pub entries: Vec<(String, String)>,
}

impl View for TagMap {
    type V = Seq<(Seq<char>, Seq<char>)>;

    open spec fn view(&self) -> Seq<(Seq<char>, Seq<char>)> {
        self.entries@.map_values(|p: (String, String)| (p.0@, p.1@))
    }
}

/// Where the key belongs among entries with sorted keys.
fn find_insert_pos(entries: &Vec<(String, String)>, key: &str) -> (p: usize)
    ensures
        p <= entries@.len(),
        forall|i: int| 0 <= i < p ==> lex_lt(#[trigger] entries@[i].0@, key@),
        p < entries@.len() ==> !lex_lt(entries@[p as int].0@, key@),
{
    let n = entries.len();
    let mut p: usize = 0;
    while p < n
        invariant
            0 <= p <= n,
            n == entries@.len(),
            forall|i: int| 0 <= i < p ==> lex_lt(#[trigger] entries@[i].0@, key@),
        decreases n - p,
    {
        match str_compare(entries[p].0.as_str(), key) {
            KeyOrder::Less => {
                p = p + 1;
            },
            KeyOrder::Equal => {
                proof {
                    if lex_lt(entries@[p as int].0@, key@) {
                        lemma_lex_asym(entries@[p as int].0@, key@);
                    }
                }
                return p;
            },
            KeyOrder::Greater => {
                proof {
                    lemma_lex_asym(key@, entries@[p as int].0@);
                }
                return p;
            },
        }
    }
    p
}

impl TagMap {
    pub open spec fn wf(&self) -> bool {
        keys_sorted(self@)
    }

    /// An empty mapping.
    pub fn new() -> (r: TagMap)
        ensures
            r.wf(),
            r@ == Seq::<(Seq<char>, Seq<char>)>::empty(),
    {
        let r = TagMap { entries: Vec::new() };
        proof {
            assert(r@ =~= Seq::<(Seq<char>, Seq<char>)>::empty());
        }
        r
    }

    /// How many tags the mapping holds.
    pub fn len(&self) -> (n: usize)
        ensures
            n == self@.len(),
    {
        self.entries.len()
    }

    /// Puts `value` under `key`, replacing any value already there.
    pub fn insert(&mut self, key: String, value: String)
        requires
            old(self).wf(),
        ensures
            final(self).wf(),
            final(self)@ == insert_sorted(old(self)@, key@, value@),
    {
        let ghost s = self@;
        let ghost e0 = self.entries@;
        let p = find_insert_pos(&self.entries, key.as_str());
        proof {
            assert(forall|i: int| 0 <= i < s.len() ==> s[i] == (#[trigger] e0[i].0@, e0[i].1@));
            lemma_insert_sorted_at(s, key@, value@, p as int);
            lemma_insert_sorted_keeps_sorted(s, key@, value@);
        }
        if p < self.entries.len() && str_eq(self.entries[p].0.as_str(), key.as_str()) {
            self.entries.remove(p);
            self.entries.insert(p, (key, value));
            proof {
                let e1 = e0.remove(p as int);
                e0.remove_ensures(p as int);
                e1.insert_ensures(p as int, (key, value));
                assert(self.entries@ == e1.insert(p as int, (key, value)));
                assert(forall|i: int|
                    0 <= i < self@.len() ==> self@[i] == (
                    #[trigger] self.entries@[i].0@,
                    self.entries@[i].1@,
                    ));
                assert(self@ =~= s.update(p as int, (key@, value@)));
            }
        } else {
            self.entries.insert(p, (key, value));
            proof {
                e0.insert_ensures(p as int, (key, value));
                s.insert_ensures(p as int, (key@, value@));
                assert(self.entries@ == e0.insert(p as int, (key, value)));
                assert(forall|i: int|
                    0 <= i < self@.len() ==> self@[i] == (
                    #[trigger] self.entries@[i].0@,
                    self.entries@[i].1@,
                    ));
                assert(self@ =~= s.insert(p as int, (key@, value@)));
            }
        }
    }
}

/// A set of strings held unique and ascending by code point, the order in
/// which its members are encoded.
#[derive(Debug, Clone, PartialEq, Eq)]
pub struct StrSet {
    pub map: TagMap,
}

impl View for StrSet {
    type V = Seq<Seq<char>>;

    open spec fn view(&self) -> Seq<Seq<char>> {
        self.map@.map_values(|p: (Seq<char>, Seq<char>)| p.0)
    }
}

impl StrSet {
    pub open spec fn wf(&self) -> bool {
        self.map.wf()
    }

    /// An empty set.
    pub fn new() -> (r: StrSet)
        ensures
            r.wf(),
            r@ == Seq::<Seq<char>>::empty(),
    {
        let r = StrSet { map: TagMap::new() };
        proof {
            assert(r@ =~= Seq::<Seq<char>>::empty());
        }
        r
    }

    /// Adds a member; adding one already present changes nothing of the
    /// member sequence.
    pub fn insert(&mut self, value: String)
        requires
            old(self).wf(),
        ensures
            final(self).wf(),
            final(self)@ == insert_sorted(old(self).map@, value@, Seq::<char>::empty()).map_values(
                |p: (Seq<char>, Seq<char>)| p.0,
            ),
    {
        self.map.insert(value, String::new());
    }

    /// How many members the set holds.
    pub fn len(&self) -> (n: usize)
        ensures
            n == self@.len(),
    {
        self.map.len()
    }

    /// The member at position `i` of the ascending order.
    pub fn get(&self, i: usize) -> (r: &String)
        requires
            i < self@.len(),
        ensures
            r@ == self@[i as int],
    {
        proof {
            assert(self@[i as int] == self.map@[i as int].0);
            assert(self.map@[i as int] == (
                self.map.entries@[i as int].0@,
                self.map.entries@[i as int].1@,
            ));
        }
        &self.map.entries[i].0
    }
}

} // verus!
