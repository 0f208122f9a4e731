//! A string-to-string map kept sorted by key, as `BTreeMap<String, String>`
//! keeps it: lookups by key, and iteration in ascending key order.
use crate::text::chars_of;
use vstd::prelude::*;

verus! {

/// Lexicographic order of character sequences by code point, which is
/// the byte order of their UTF-8 encodings (the order of `String`).
pub open spec fn str_less(a: Seq<char>, b: Seq<char>) -> bool
    decreases a.len(),
{
    if a.len() == 0 {
        b.len() > 0
    } else if b.len() == 0 {
        false
    } else if a[0] != b[0] {
        (a[0] as u32) < (b[0] as u32)
    } else {
        str_less(a.drop_first(), b.drop_first())
    }
}

pub proof fn lemma_str_less_irreflexive(a: Seq<char>)
    ensures
        !str_less(a, a),
    decreases a.len(),
{
    if a.len() > 0 {
        lemma_str_less_irreflexive(a.drop_first());
    }
}

pub proof fn lemma_str_less_total(a: Seq<char>, b: Seq<char>)
    ensures
        a == b || str_less(a, b) || str_less(b, a),
    decreases a.len(),
{
    if a.len() > 0 && b.len() > 0 {
        if a[0] == b[0] {
            lemma_str_less_total(a.drop_first(), b.drop_first());
            if a.drop_first() == b.drop_first() {
                assert(a =~= seq![a[0]] + a.drop_first());
                assert(b =~= seq![b[0]] + b.drop_first());
            }
        } else {
            vstd::utf8::char_u32_cast(a[0], a[0] as u32);
            vstd::utf8::char_u32_cast(b[0], b[0] as u32);
        }
    } else if a.len() == 0 && b.len() == 0 {
        assert(a =~= b);
    }
}

pub proof fn lemma_str_less_transitive(a: Seq<char>, b: Seq<char>, c: Seq<char>)
    requires
        str_less(a, b),
        str_less(b, c),
    ensures
        str_less(a, c),
    decreases a.len(),
{
    if a.len() > 0 && b.len() > 0 && c.len() > 0 {
        if a[0] == b[0] && b[0] == c[0] {
            lemma_str_less_transitive(a.drop_first(), b.drop_first(), c.drop_first());
        }
    }
}

pub proof fn lemma_str_less_asymmetric(a: Seq<char>, b: Seq<char>)
    requires
        str_less(a, b),
    ensures
        !str_less(b, a),
        a != b,
{
    lemma_str_less_irreflexive(a);
    if str_less(b, a) {
        lemma_str_less_transitive(a, b, a);
    }
}

pub enum KeyOrder {
    Less,
    Equal,
    Greater,
}

/// Compares two strings in the order of `String`.
pub fn compare_keys(a: &str, b: &str) -> (r: KeyOrder)
    ensures
        r is Less <==> str_less(a@, b@),
        r is Equal <==> a@ == b@,
        r is Greater <==> str_less(b@, a@),
{
    let va = chars_of(a);
    let vb = chars_of(b);
    let mut i: usize = 0;
    proof {
        assert(va@.subrange(0, 0) =~= vb@.subrange(0, 0));
    }
    while i < va.len() && i < vb.len() && va[i] == vb[i]
        invariant
            i <= va.len(),
            i <= vb.len(),
            va@ == a@,
            vb@ == b@,
            va@.subrange(0, i as int) == vb@.subrange(0, i as int),
        decreases va.len() - i,
    {
        proof {
            assert(va@.subrange(0, i + 1) =~= va@.subrange(0, i as int).push(va@[i as int]));
            assert(vb@.subrange(0, i + 1) =~= vb@.subrange(0, i as int).push(vb@[i as int]));
        }
        i = i + 1;
    }
    proof {
        lemma_str_less_common_prefix(va@, vb@, i as int);
        lemma_str_less_common_prefix(vb@, va@, i as int);
        let ar = va@.subrange(i as int, va@.len() as int);
        let br = vb@.subrange(i as int, vb@.len() as int);
        if i < va.len() {
            assert(ar[0] == va@[i as int]);
        }
        if i < vb.len() {
            assert(br[0] == vb@[i as int]);
        }
    }
    if i == va.len() && i == vb.len() {
        proof {
            assert(va@ =~= va@.subrange(0, i as int));
            assert(vb@ =~= vb@.subrange(0, i as int));
            lemma_str_less_irreflexive(a@);
        }
        KeyOrder::Equal
    } else if i == va.len() {
        proof {
            lemma_str_less_asymmetric(a@, b@);
        }
        KeyOrder::Less
    } else if i == vb.len() {
        proof {
            lemma_str_less_asymmetric(b@, a@);
        }
        KeyOrder::Greater
    } else if (va[i] as u32) < (vb[i] as u32) {
        proof {
            lemma_str_less_asymmetric(a@, b@);
        }
        KeyOrder::Less
    } else {
        proof {
            vstd::utf8::char_u32_cast(va@[i as int], va@[i as int] as u32);
            vstd::utf8::char_u32_cast(vb@[i as int], vb@[i as int] as u32);
            lemma_str_less_asymmetric(b@, a@);
        }
        KeyOrder::Greater
    }
}

/// Past a common prefix of length `i`, the order is decided by what follows.
proof fn lemma_str_less_common_prefix(a: Seq<char>, b: Seq<char>, i: int)
    requires
        0 <= i <= a.len(),
        i <= b.len(),
        a.subrange(0, i) == b.subrange(0, i),
    ensures
        str_less(a, b) == str_less(a.subrange(i, a.len() as int), b.subrange(i, b.len() as int)),
        a.len() == i && b.len() == i ==> a == b,
    decreases i,
{
    if i > 0 {
        assert(a[0] == a.subrange(0, i)[0]);
        assert(b[0] == b.subrange(0, i)[0]);
        assert(a.drop_first().subrange(0, i - 1) =~= a.subrange(0, i).drop_first());
        assert(b.drop_first().subrange(0, i - 1) =~= b.subrange(0, i).drop_first());
        lemma_str_less_common_prefix(a.drop_first(), b.drop_first(), i - 1);
        assert(a.drop_first().subrange(i - 1, a.len() - 1) =~= a.subrange(i, a.len() as int));
        assert(b.drop_first().subrange(i - 1, b.len() - 1) =~= b.subrange(i, b.len() as int));
        if a.len() == i && b.len() == i {
            assert(a =~= a.subrange(0, i));
            assert(b =~= b.subrange(0, i));
        }
    } else {
        assert(a.subrange(0, a.len() as int) =~= a);
        assert(b.subrange(0, b.len() as int) =~= b);
        if a.len() == 0 && b.len() == 0 {
            assert(a =~= b);
        }
    }
}

/// Keys strictly ascending.
pub open spec fn sorted_keys(e: Seq<(Seq<char>, Seq<char>)>) -> bool {
    forall|i: int, j: int| 0 <= i < j < e.len() ==> str_less(#[trigger] e[i].0, #[trigger] e[j].0)
}

/// The map that a sorted list of pairs stands for.
pub open spec fn pairs_map(e: Seq<(Seq<char>, Seq<char>)>) -> Map<Seq<char>, Seq<char>> {
    Map::new(|k: Seq<char>| has_key(e, k), |k: Seq<char>| e[key_index(e, k)].1)
}

pub open spec fn has_key(e: Seq<(Seq<char>, Seq<char>)>, k: Seq<char>) -> bool {
    exists|i: int| 0 <= i < e.len() && #[trigger] e[i].0 == k
}

pub open spec fn key_index(e: Seq<(Seq<char>, Seq<char>)>, k: Seq<char>) -> int {
    choose|i: int| 0 <= i < e.len() && #[trigger] e[i].0 == k
}

pub proof fn lemma_pairs_map_lookup(e: Seq<(Seq<char>, Seq<char>)>, i: int)
    requires
        sorted_keys(e),
        0 <= i < e.len(),
    ensures
        pairs_map(e).contains_key(e[i].0),
        pairs_map(e)[e[i].0] == e[i].1,
{
    let k = e[i].0;
    assert(exists|j: int| 0 <= j < e.len() && #[trigger] e[j].0 == k);
    assert(has_key(e, k));
    let j = key_index(e, k);
    if j < i {
        assert(str_less(e[j].0, e[i].0));
        lemma_str_less_asymmetric(e[j].0, e[i].0);
    } else if i < j {
        assert(str_less(e[i].0, e[j].0));
        lemma_str_less_asymmetric(e[i].0, e[j].0);
    }
    assert(j == i);
    assert(pairs_map(e)[k] == e[j].1);
}

/// A map from environment variable names to values, ordered by name.
#[derive(Debug)]
pub struct EnvMap {
    entries: Vec<(String, String)>,
}

impl EnvMap {
    /// The pairs in ascending key order.
    pub closed spec fn pairs(&self) -> Seq<(Seq<char>, Seq<char>)> {
        Seq::new(self.entries@.len(), |i: int| (self.entries@[i].0@, self.entries@[i].1@))
    }

    #[verifier::type_invariant]
    closed spec fn inv(&self) -> bool {
        sorted_keys(self.pairs())
    }

    /// The map is the one that the pairs stand for.
    pub proof fn lemma_pairs(&self)
        ensures
            self@ == pairs_map(self.pairs()),
    {
    }

    pub fn new() -> (m: Self)
        ensures
            m@ == Map::<Seq<char>, Seq<char>>::empty(),
            m.pairs() == Seq::<(Seq<char>, Seq<char>)>::empty(),
    {
        let m = EnvMap { entries: Vec::new() };
        assert(m.pairs() =~= Seq::<(Seq<char>, Seq<char>)>::empty());
        assert(pairs_map(m.pairs()) =~= Map::<Seq<char>, Seq<char>>::empty());
        m
    }

    pub fn len(&self) -> (n: usize)
        ensures
            n == self.pairs().len(),
    {
        self.entries.len()
    }

    pub fn key_at(&self, i: usize) -> (k: &String)
        requires
            i < self.pairs().len(),
        ensures
            k@ == self.pairs()[i as int].0,
    {
        &self.entries[i].0
    }

    pub fn value_at(&self, i: usize) -> (v: &String)
        requires
            i < self.pairs().len(),
        ensures
            v@ == self.pairs()[i as int].1,
    {
        &self.entries[i].1
    }

    /// Position of the first key that is not below `key`, and whether it
    /// equals `key`.
    fn search(&self, key: &str) -> (r: (usize, bool))
        ensures
            r.0 <= self.pairs().len(),
            forall|j: int| 0 <= j < r.0 ==> str_less(#[trigger] self.pairs()[j].0, key@),
            r.0 < self.pairs().len() ==> !str_less(self.pairs()[r.0 as int].0, key@),
            r.1 <==> (r.0 < self.pairs().len() && self.pairs()[r.0 as int].0 == key@),
    {
        proof {
            use_type_invariant(self);
        }
        let mut i: usize = 0;
        while i < self.entries.len()
            invariant
                i <= self.entries.len(),
                self.pairs().len() == self.entries.len(),
                forall|j: int| 0 <= j < i ==> str_less(#[trigger] self.pairs()[j].0, key@),
            decreases self.entries.len() - i,
        {
            match compare_keys(self.entries[i].0.as_str(), key) {
                KeyOrder::Less => {},
                KeyOrder::Equal => {
                    return (i, true);
                },
                KeyOrder::Greater => {
                    proof {
                        lemma_str_less_asymmetric(key@, self.pairs()[i as int].0);
                    }
                    return (i, false);
                },
            }
            i = i + 1;
        }
        (i, false)
    }

    pub fn get(&self, key: &str) -> (r: Option<&String>)
        ensures
            r is Some <==> self@.contains_key(key@),
            r is Some ==> r->0@ == self@[key@],
    {
        proof {
            use_type_invariant(self);
        }
        let (i, found) = self.search(key);
        if found {
            proof {
                lemma_pairs_map_lookup(self.pairs(), i as int);
            }
            Some(&self.entries[i].1)
        } else {
            proof {
                if self@.contains_key(key@) {
                    let j = choose|j: int| 0 <= j < self.pairs().len() && #[trigger] self.pairs()[j].0 == key@;
                    if j < i {
                        lemma_str_less_irreflexive(key@);
                    } else if j > i {
                        lemma_str_less_total(self.pairs()[i as int].0, key@);
                        lemma_str_less_asymmetric(self.pairs()[i as int].0, self.pairs()[j].0);
                        assert(str_less(self.pairs()[i as int].0, self.pairs()[j].0));
                    }
                }
            }
            None
        }
    }

    pub fn contains_key(&self, key: &str) -> (b: bool)
        ensures
            b == self@.contains_key(key@),
    {
        self.get(key).is_some()
    }

    /// Sets `key` to `value`, replacing an earlier value.
    pub fn insert(&mut self, key: String, value: String)
        ensures
            final(self)@ == old(self)@.insert(key@, value@),
    {
        proof {
            use_type_invariant(&*self);
        }
        let ghost old_pairs = self.pairs();
        let (i, found) = self.search(key.as_str());
        let ghost kv = key@;
        let ghost vv = value@;
        if found {
            let mut entries: Vec<(String, String)> = Vec::new();
            std::mem::swap(&mut entries, &mut self.entries);
            entries.set(i, (key, value));
            let ghost new_pairs = Seq::new(entries@.len(), |j: int| (entries@[j].0@, entries@[j].1@));
            proof {
                assert(new_pairs =~= old_pairs.update(i as int, (kv, vv)));
                assert forall|a: int, b: int| 0 <= a < b < new_pairs.len() implies str_less(
                    #[trigger] new_pairs[a].0,
                    #[trigger] new_pairs[b].0,
                ) by {
                    assert(str_less(old_pairs[a].0, old_pairs[b].0));
                }
                lemma_map_after_update(old_pairs, i as int, kv, vv);
            }
            self.entries = entries;
            proof {
                assert(self.pairs() =~= new_pairs);
            }
        } else {
            let mut entries: Vec<(String, String)> = Vec::new();
            std::mem::swap(&mut entries, &mut self.entries);
            entries.insert(i, (key, value));
            let ghost new_pairs = Seq::new(entries@.len(), |j: int| (entries@[j].0@, entries@[j].1@));
            proof {
                assert(new_pairs =~= old_pairs.insert(i as int, (kv, vv)));
                assert forall|j: int| i <= j < old_pairs.len() implies str_less(
                    kv,
                    #[trigger] old_pairs[j].0,
                ) by {
                    lemma_str_less_total(old_pairs[i as int].0, kv);
                    if j > i {
                        lemma_str_less_transitive(kv, old_pairs[i as int].0, old_pairs[j].0);
                    }
                }
                assert forall|a: int, b: int| 0 <= a < b < new_pairs.len() implies str_less(
                    #[trigger] new_pairs[a].0,
                    #[trigger] new_pairs[b].0,
                ) by {
                    if b < i {
                        assert(str_less(old_pairs[a].0, old_pairs[b].0));
                    } else if b == i {
                    } else if a < i {
                        lemma_str_less_transitive(old_pairs[a].0, kv, old_pairs[b - 1].0);
                    } else if a == i {
                    } else {
                        assert(str_less(old_pairs[a - 1].0, old_pairs[b - 1].0));
                    }
                }
                lemma_map_after_insert(old_pairs, i as int, kv, vv);
            }
            self.entries = entries;
            proof {
                assert(self.pairs() =~= new_pairs);
            }
        }
    }

    /// Sets `key` to `value` only when `key` has no value yet
    /// (`entry(key).or_insert(value)`).
    pub fn insert_if_absent(&mut self, key: String, value: String)
        ensures
            final(self)@ == (if old(self)@.contains_key(key@) {
                old(self)@
            } else {
                old(self)@.insert(key@, value@)
            }),
    {
        if !self.contains_key(key.as_str()) {
            self.insert(key, value);
        }
    }


    /// Adds every entry of `other`, replacing earlier values of its keys.
    pub fn extend_from(&mut self, other: &EnvMap)
        ensures
            final(self)@ == old(self)@.union_prefer_right(other@),
    {
        proof {
            use_type_invariant(other);
        }
        let ghost start = self@;
        let ghost op = other.pairs();
        let mut i: usize = 0;
        proof {
            assert(op.take(0) =~= Seq::<(Seq<char>, Seq<char>)>::empty());
            assert(pairs_map(op.take(0)) =~= Map::<Seq<char>, Seq<char>>::empty());
            assert(start.union_prefer_right(pairs_map(op.take(0))) =~= start);
        }
        while i < other.entries.len()
            invariant
                i <= other.entries.len(),
                op == other.pairs(),
                op.len() == other.entries.len(),
                sorted_keys(op),
                self@ == start.union_prefer_right(pairs_map(op.take(i as int))),
            decreases other.entries.len() - i,
        {
            let k = other.entries[i].0.clone();
            let v = other.entries[i].1.clone();
            let ghost kv = k@;
            let ghost vv = v@;
            self.insert(k, v);
            proof {
                let pre = op.take(i as int);
                let post = op.take(i + 1);
                assert(post =~= pre.insert(i as int, (kv, vv)));
                assert(sorted_keys(pre));
                assert(sorted_keys(post));
                lemma_map_after_insert(pre, i as int, kv, vv);
                assert(start.union_prefer_right(pairs_map(post)) =~= start.union_prefer_right(
                    pairs_map(pre),
                ).insert(kv, vv));
            }
            i = i + 1;
        }
        assert(op.take(op.len() as int) =~= op);
    }

    /// A copy with the same entries.
    pub fn duplicate(&self) -> (r: Self)
        ensures
            r@ == self@,
            r.pairs() == self.pairs(),
    {
        proof {
            use_type_invariant(self);
        }
        let mut entries: Vec<(String, String)> = Vec::new();
        let mut i: usize = 0;
        while i < self.entries.len()
            invariant
                i <= self.entries.len(),
                entries@.len() == i,
                forall|j: int|
                    0 <= j < i ==> (#[trigger] entries@[j]).0@ == self.entries@[j].0@
                        && entries@[j].1@ == self.entries@[j].1@,
            decreases self.entries.len() - i,
        {
            let k = self.entries[i].0.clone();
            let v = self.entries[i].1.clone();
            entries.push((k, v));
            i = i + 1;
        }
        proof {
            let np = Seq::new(entries@.len(), |j: int| (entries@[j].0@, entries@[j].1@));
            assert(np =~= self.pairs());
        }
        let r = EnvMap { entries };
        proof {
            assert(r.pairs() =~= self.pairs());
        }
        r
    }
}

impl View for EnvMap {
    type V = Map<Seq<char>, Seq<char>>;

    closed spec fn view(&self) -> Map<Seq<char>, Seq<char>> {
        pairs_map(self.pairs())
    }
}

proof fn lemma_map_after_update(e: Seq<(Seq<char>, Seq<char>)>, i: int, k: Seq<char>, v: Seq<char>)
    requires
        sorted_keys(e),
        0 <= i < e.len(),
        e[i].0 == k,
    ensures
        pairs_map(e.update(i, (k, v))) == pairs_map(e).insert(k, v),
{
    let n = e.update(i, (k, v));
    assert(sorted_keys(n)) by {
        assert forall|a: int, b: int| 0 <= a < b < n.len() implies str_less(
            #[trigger] n[a].0,
            #[trigger] n[b].0,
        ) by {
            assert(str_less(e[a].0, e[b].0));
        }
    }
    assert forall|x: Seq<char>| #[trigger] pairs_map(n).contains_key(x) == pairs_map(e).insert(k, v).contains_key(x) by {
        if pairs_map(e).contains_key(x) {
            let j = choose|j: int| 0 <= j < e.len() && #[trigger] e[j].0 == x;
            assert(n[j].0 == x);
        }
        if pairs_map(n).contains_key(x) {
            let j = choose|j: int| 0 <= j < n.len() && #[trigger] n[j].0 == x;
            assert(e[j].0 == x);
        }
        if x == k {
            assert(n[i].0 == x);
        }
    }
    assert forall|x: Seq<char>| #[trigger] pairs_map(n).contains_key(x) implies pairs_map(n)[x] == pairs_map(e).insert(k, v)[x] by {
        let j = choose|j: int| 0 <= j < n.len() && #[trigger] n[j].0 == x;
        lemma_pairs_map_lookup(n, j);
        if j != i {
            assert(e[j] == n[j]);
            lemma_pairs_map_lookup(e, j);
            lemma_str_less_total(x, k);
            if j < i {
                lemma_str_less_asymmetric(e[j].0, e[i].0);
            } else {
                lemma_str_less_asymmetric(e[i].0, e[j].0);
            }
        }
    }
    assert(pairs_map(n) =~= pairs_map(e).insert(k, v));
}

proof fn lemma_map_after_insert(e: Seq<(Seq<char>, Seq<char>)>, i: int, k: Seq<char>, v: Seq<char>)
    requires
        sorted_keys(e),
        sorted_keys(e.insert(i, (k, v))),
        0 <= i <= e.len(),
    ensures
        pairs_map(e.insert(i, (k, v))) == pairs_map(e).insert(k, v),
{
    let n = e.insert(i, (k, v));
    assert forall|x: Seq<char>| #[trigger] pairs_map(n).contains_key(x) == pairs_map(e).insert(k, v).contains_key(x) by {
        if pairs_map(e).contains_key(x) {
            let j = choose|j: int| 0 <= j < e.len() && #[trigger] e[j].0 == x;
            if j < i {
                assert(n[j].0 == x);
            } else {
                assert(n[j + 1].0 == x);
            }
        }
        if pairs_map(n).contains_key(x) {
            let j = choose|j: int| 0 <= j < n.len() && #[trigger] n[j].0 == x;
            if j < i {
                assert(e[j].0 == x);
            } else if j > i {
                assert(e[j - 1].0 == x);
            }
        }
        if x == k {
            assert(n[i].0 == x);
        }
    }
    assert forall|x: Seq<char>| #[trigger] pairs_map(n).contains_key(x) implies pairs_map(n)[x] == pairs_map(e).insert(k, v)[x] by {
        let j = choose|j: int| 0 <= j < n.len() && #[trigger] n[j].0 == x;
        lemma_pairs_map_lookup(n, j);
        if j < i {
            assert(e[j] == n[j]);
            lemma_pairs_map_lookup(e, j);
            lemma_str_less_asymmetric(n[j].0, n[i].0);
        } else if j > i {
            assert(e[j - 1] == n[j]);
            lemma_pairs_map_lookup(e, j - 1);
            lemma_str_less_asymmetric(n[i].0, n[j].0);
        } else {
            lemma_pairs_map_lookup(n, i);
        }
    }
    assert(pairs_map(n) =~= pairs_map(e).insert(k, v));
}

} // verus!
