//! The voice pack cache: packs by voice name, the least recently used dropped once
//! more than `VOICE_CACHE_LIMIT` are held.

use vstd::prelude::*;
use crate::text::str_eq;

verus! {

/// How many packs the cache holds.
pub const VOICE_CACHE_LIMIT: usize = 16;

/// Packs by voice name, the least recently used first.
pub struct VoiceCache<V> {
    entries: Vec<(String, V)>,
}

/// Entries as names in chars and packs.
pub open spec fn entry_views<V>(es: Seq<(String, V)>) -> Seq<(Seq<char>, V)> {
    es.map_values(|e: (String, V)| (e.0@, e.1))
}

/// Entry `i` holds `name`.
pub open spec fn key_at<V>(s: Seq<(Seq<char>, V)>, name: Seq<char>, i: int) -> bool {
    0 <= i < s.len() && s[i].0 == name
}

/// Some entry holds `name`.
pub open spec fn has_key<V>(s: Seq<(Seq<char>, V)>, name: Seq<char>) -> bool {
    exists|i: int| key_at(s, name, i)
}

/// No name is held twice.
pub open spec fn distinct_keys<V>(s: Seq<(Seq<char>, V)>) -> bool {
    forall|i: int, j: int| 0 <= i < s.len() && 0 <= j < s.len() && i != j ==> s[i].0 != s[j].0
}

/// The entries after `name` is put in with `pack`: an entry of that name is
/// replaced and moves to the end; a new one goes at the end, and the least recently
/// used entry is dropped when that makes one too many.
pub open spec fn inserted<V>(s: Seq<(Seq<char>, V)>, name: Seq<char>, pack: V) -> Seq<(Seq<char>, V)> {
    if has_key(s, name) {
        s.remove(choose|i: int| key_at(s, name, i)).push((name, pack))
    } else if s.len() + 1 > VOICE_CACHE_LIMIT {
        s.push((name, pack)).drop_first()
    } else {
        s.push((name, pack))
    }
}

impl<V> View for VoiceCache<V> {
    type V = Seq<(Seq<char>, V)>;

    closed spec fn view(&self) -> Seq<(Seq<char>, V)> {
        entry_views(self.entries@)
    }
}

impl<V: Clone> VoiceCache<V> {
    /// The cache holds each name once, and no more than its limit.
    pub open spec fn wf(&self) -> bool {
        distinct_keys(self@) && self@.len() <= VOICE_CACHE_LIMIT
    }

    /// An empty cache.
    pub fn new() -> (r: Self)
        ensures
            r.wf(),
            r@ == Seq::<(Seq<char>, V)>::empty(),
    {
        let r = VoiceCache { entries: Vec::new() };
        assert(r@ =~= Seq::<(Seq<char>, V)>::empty());
        r
    }

    /// Where `name` is held, if it is.
    fn position(&self, name: &str) -> (r: Option<usize>)
        requires
            self.wf(),
        ensures
            match r {
                Some(i) => key_at(self@, name@, i as int),
                None => !has_key(self@, name@),
            },
    {
        let mut k: usize = 0;
        while k < self.entries.len()
            invariant
                k <= self.entries@.len(),
                self@ == entry_views(self.entries@),
                forall|j: int| 0 <= j < k ==> self@[j].0 != name@,
            decreases self.entries@.len() - k,
        {
            assert(self@[k as int].0 == self.entries@[k as int].0@);
            if str_eq(self.entries[k].0.as_str(), name) {
                return Some(k);
            }
            k += 1;
        }
        None
    }

    /// The pack held for `name`, if any (a clone); a hit makes `name` the most
    /// recently used.
    pub fn get(&mut self, name: &str) -> (r: Option<V>)
        requires
            old(self).wf(),
        ensures
            final(self).wf(),
            final(self)@ == loaded(old(self)@, name@, None),
            match r {
                Some(v) => exists|i: int|
                    key_at(old(self)@, name@, i) && cloned(old(self)@[i].1, v) && final(self)@ == old(
                        self,
                    )@.remove(i).push(old(self)@[i]),
                None => !has_key(old(self)@, name@) && final(self)@ == old(self)@,
            },
    {
        match self.position(name) {
            None => None,
            Some(k) => {
                let ghost before = self@;
                let ghost c = choose|i: int| key_at(before, name@, i);
                assert(c == k) by {
                    if c != k {
                        assert(before[c].0 == before[k as int].0);
                    }
                }
                let e = self.entries.remove(k);
                let v = e.1.clone();
                self.entries.push(e);
                assert(self@ =~= before.remove(k as int).push(before[k as int]));
                assert(distinct_keys(self@)) by {
                    assert forall|i: int, j: int|
                        0 <= i < self@.len() && 0 <= j < self@.len() && i != j implies self@[i].0 != self@[j].0 by {
                        let oi = if i < k { i } else if i < self@.len() - 1 { i + 1 } else { k as int };
                        let oj = if j < k { j } else if j < self@.len() - 1 { j + 1 } else { k as int };
                        assert(self@[i] == before[oi]);
                        assert(self@[j] == before[oj]);
                    }
                }
                Some(v)
            },
        }
    }

    /// Put `pack` in for `name` (see `inserted`).
    pub fn insert(&mut self, name: String, pack: V)
        requires
            old(self).wf(),
        ensures
            final(self).wf(),
            final(self)@ == inserted(old(self)@, name@, pack),
    {
        let ghost before = self@;
        let ghost nv = name@;
        match self.position(name.as_str()) {
            Some(k) => {
                let ghost c = choose|i: int| key_at(before, nv, i);
                assert(c == k) by {
                    if c != k {
                        assert(before[c].0 == before[k as int].0);
                    }
                }
                self.entries.remove(k);
                self.entries.push((name, pack));
                assert(self@ =~= before.remove(k as int).push((nv, pack)));
                assert(distinct_keys(self@)) by {
                    assert forall|i: int, j: int|
                        0 <= i < self@.len() && 0 <= j < self@.len() && i != j implies self@[i].0 != self@[j].0 by {
                        let oi = if i < k { i } else if i < self@.len() - 1 { i + 1 } else { k as int };
                        let oj = if j < k { j } else if j < self@.len() - 1 { j + 1 } else { k as int };
                        if i < self@.len() - 1 {
                            assert(self@[i] == before[oi]);
                        }
                        if j < self@.len() - 1 {
                            assert(self@[j] == before[oj]);
                        }
                    }
                }
            },
            None => {
                let ghost grown = before.push((nv, pack));
                assert(distinct_keys(grown)) by {
                    assert forall|i: int, j: int|
                        0 <= i < grown.len() && 0 <= j < grown.len() && i != j implies grown[i].0 != grown[j].0 by {
                        if i == before.len() {
                            assert(!key_at(before, nv, j));
                        }
                        if j == before.len() {
                            assert(!key_at(before, nv, i));
                        }
                    }
                }
                self.entries.push((name, pack));
                assert(self@ =~= grown);
                if self.entries.len() > VOICE_CACHE_LIMIT {
                    self.entries.remove(0);
                    assert(self@ =~= grown.drop_first());
                    assert(distinct_keys(self@)) by {
                        assert forall|i: int, j: int|
                            0 <= i < self@.len() && 0 <= j < self@.len() && i != j implies self@[i].0 != self@[j].0 by {
                            assert(self@[i] == grown[i + 1]);
                            assert(self@[j] == grown[j + 1]);
                        }
                    }
                }
            },
        }
    }

    /// Drop every pack.
    pub fn clear(&mut self)
        ensures
            final(self).wf(),
            final(self)@ == Seq::<(Seq<char>, V)>::empty(),
    {
        self.entries = Vec::new();
        assert(self@ =~= Seq::<(Seq<char>, V)>::empty());
    }

    /// Whether a pack is held for `name`.
    pub fn contains(&self, name: &str) -> (r: bool)
        requires
            self.wf(),
        ensures
            r == has_key(self@, name@),
    {
        self.position(name).is_some()
    }

    /// The names held, the least recently used first.
    pub fn order(&self) -> (r: Vec<String>)
        ensures
            r.deep_view() == self@.map_values(|e: (Seq<char>, V)| e.0),
    {
        let mut out: Vec<String> = Vec::new();
        let mut k: usize = 0;
        while k < self.entries.len()
            invariant
                k <= self.entries@.len(),
                self@ == entry_views(self.entries@),
                out.deep_view() == self@.map_values(|e: (Seq<char>, V)| e.0).take(k as int),
            decreases self.entries@.len() - k,
        {
            let s = String::from_str(self.entries[k].0.as_str());
            assert(self@[k as int].0 == self.entries@[k as int].0@);
            let ghost before = out.deep_view();
            let ghost sv = s@;
            out.push(s);
            assert(out.deep_view() =~= before.push(sv));
            assert(out.deep_view() =~= self@.map_values(|e: (Seq<char>, V)| e.0).take(k + 1));
            k += 1;
        }
        assert(self@.map_values(|e: (Seq<char>, V)| e.0).take(k as int) =~= self@.map_values(
            |e: (Seq<char>, V)| e.0,
        ));
        out
    }
}

// ---------------------------------------------------------------------------
// Repeated loads
// ---------------------------------------------------------------------------

/// The names an entry list holds, in order.
pub open spec fn keys_of<V>(s: Seq<(Seq<char>, V)>) -> Seq<Seq<char>> {
    s.map_values(|e: (Seq<char>, V)| e.0)
}

/// The cache after loading `name` through it: a hit (`get`) makes the name the most
/// recently used; a miss puts in what the provider gave (`insert`), or leaves the
/// cache as it was when the provider gave nothing.
pub open spec fn loaded<V>(s: Seq<(Seq<char>, V)>, name: Seq<char>, fetched: Option<V>) -> Seq<(Seq<char>, V)> {
    if has_key(s, name) {
        let i = choose|i: int| key_at(s, name, i);
        s.remove(i).push(s[i])
    } else {
        match fetched {
            Some(p) => inserted(s, name, p),
            None => s,
        }
    }
}

/// The cache after the loads `loads` (each a name and what the provider would give
/// for it), in order, from `s`.
pub open spec fn load_all<V>(s: Seq<(Seq<char>, V)>, loads: Seq<(Seq<char>, Option<V>)>) -> Seq<(Seq<char>, V)>
    decreases loads.len(),
{
    if loads.len() == 0 {
        s
    } else {
        loaded(load_all(s, loads.drop_last()), loads.last().0, loads.last().1)
    }
}

/// The last `VOICE_CACHE_LIMIT` names of `r`.
pub open spec fn most_recent(r: Seq<Seq<char>>) -> Seq<Seq<char>> {
    if r.len() <= VOICE_CACHE_LIMIT {
        r
    } else {
        r.skip(r.len() - VOICE_CACHE_LIMIT)
    }
}

/// `r` with `name` made the last (most recent) one.
pub open spec fn made_recent(r: Seq<Seq<char>>, name: Seq<char>) -> Seq<Seq<char>> {
    if r.contains(name) {
        r.remove(choose|j: int| 0 <= j < r.len() && r[j] == name).push(name)
    } else {
        r.push(name)
    }
}

/// The names loaded successfully (served from the cache, or given by the
/// provider), each once, in the order of their last load, the most recent last.
pub open spec fn recency<V>(loads: Seq<(Seq<char>, Option<V>)>) -> Seq<Seq<char>>
    decreases loads.len(),
{
    if loads.len() == 0 {
        Seq::empty()
    } else {
        let r = recency(loads.drop_last());
        let n = loads.last().0;
        if most_recent(r).contains(n) || loads.last().1 is Some {
            made_recent(r, n)
        } else {
            r
        }
    }
}

proof fn lemma_keys_distinct<V>(s: Seq<(Seq<char>, V)>)
    requires
        distinct_keys(s),
    ensures
        keys_of(s).no_duplicates(),
        forall|n: Seq<char>| has_key(s, n) <==> #[trigger] keys_of(s).contains(n),
{
    assert forall|n: Seq<char>| has_key(s, n) <==> #[trigger] keys_of(s).contains(n) by {
        if has_key(s, n) {
            let i = choose|i: int| key_at(s, n, i);
            assert(keys_of(s)[i] == n);
        }
        if keys_of(s).contains(n) {
            let i = choose|i: int| 0 <= i < keys_of(s).len() && keys_of(s)[i] == n;
            assert(key_at(s, n, i));
        }
    }
}

proof fn lemma_made_recent_distinct(r: Seq<Seq<char>>, n: Seq<char>)
    requires
        r.no_duplicates(),
    ensures
        made_recent(r, n).no_duplicates(),
        made_recent(r, n).len() == if r.contains(n) { r.len() } else { r.len() + 1 },
        made_recent(r, n).contains(n),
{
    let m = made_recent(r, n);
    if r.contains(n) {
        let j = choose|j: int| 0 <= j < r.len() && r[j] == n;
        let q = r.remove(j);
        assert(forall|a: int| 0 <= a < q.len() ==> q[a] == if a < j { r[a] } else { r[a + 1] });
        assert forall|a: int, b: int| 0 <= a < m.len() && 0 <= b < m.len() && a != b implies m[a] != m[b] by {
            if a < q.len() && b < q.len() {
                let ra = if a < j { a } else { a + 1 };
                let rb = if b < j { b } else { b + 1 };
                assert(m[a] == r[ra] && m[b] == r[rb]);
            } else if a < q.len() {
                let ra = if a < j { a } else { a + 1 };
                assert(m[a] == r[ra]);
            } else if b < q.len() {
                let rb = if b < j { b } else { b + 1 };
                assert(m[b] == r[rb]);
            }
        }
        assert(m[m.len() - 1] == n);
    } else {
        assert forall|a: int, b: int| 0 <= a < m.len() && 0 <= b < m.len() && a != b implies m[a] != m[b] by {
            if a < r.len() && b < r.len() {
                assert(m[a] == r[a] && m[b] == r[b]);
            } else if a < r.len() {
                assert(m[a] == r[a]);
            } else if b < r.len() {
                assert(m[b] == r[b]);
            }
        }
        assert(m[m.len() - 1] == n);
    }
}

/// The cache holds exactly the most recently loaded names, in order of use.
proof fn lemma_load_all_keys<V>(loads: Seq<(Seq<char>, Option<V>)>)
    ensures
        distinct_keys(load_all(Seq::empty(), loads)),
        load_all(Seq::<(Seq<char>, V)>::empty(), loads).len() <= VOICE_CACHE_LIMIT,
        recency(loads).no_duplicates(),
        keys_of(load_all(Seq::<(Seq<char>, V)>::empty(), loads)) == most_recent(recency(loads)),
    decreases loads.len(),
{
    let e = Seq::<(Seq<char>, V)>::empty();
    if loads.len() == 0 {
        assert(keys_of(e) =~= Seq::<Seq<char>>::empty());
    } else {
        let pre = loads.drop_last();
        lemma_load_all_keys(pre);
        let s = load_all(e, pre);
        let r = recency(pre);
        let n = loads.last().0;
        let f = loads.last().1;
        let k = keys_of(s);
        lemma_keys_distinct(s);
        lemma_made_recent_distinct(r, n);
        let off: int = if r.len() <= VOICE_CACHE_LIMIT { 0 } else { r.len() - VOICE_CACHE_LIMIT };
        assert(k =~= r.skip(off));
        if has_key(s, n) {
            let i = choose|i: int| key_at(s, n, i);
            let t = s.remove(i).push(s[i]);
            assert(k[i] == n);
            assert(most_recent(r).contains(n));
            assert(r.contains(n)) by {
                assert(r[i + off] == n);
            }
            let j = choose|j: int| 0 <= j < r.len() && r[j] == n;
            assert(j == i + off) by {
                assert(r[i + off] == n);
            }
            let r2 = r.remove(j).push(n);
            assert forall|a: int| 0 <= a < keys_of(t).len() implies #[trigger] keys_of(t)[a] == r2.skip(off)[a] by {
                if a < s.len() - 1 {
                    if a < i {
                        assert(t[a] == s[a]);
                        assert(k[a] == r[a + off]);
                    } else {
                        assert(t[a] == s[a + 1]);
                        assert(k[a + 1] == r[a + 1 + off]);
                    }
                } else {
                    assert(t[a] == s[i]);
                }
            }
            assert(keys_of(t) =~= r2.skip(off));
            assert(distinct_keys(t)) by {
                assert forall|a: int, b: int| 0 <= a < t.len() && 0 <= b < t.len() && a != b implies t[a].0 != t[b].0 by {
                    assert(keys_of(t)[a] == t[a].0 && keys_of(t)[b] == t[b].0);
                    assert(r2[a + off] == keys_of(t)[a] && r2[b + off] == keys_of(t)[b]);
                }
            }
        } else {
            assert(!k.contains(n));
            assert(!most_recent(r).contains(n));
            match f {
                None => {
                    assert(recency(loads) == r);
                },
                Some(p) => {
                    let t = inserted(s, n, p);
                    assert(recency(loads) == made_recent(r, n));
                    if r.contains(n) {
                        let j = choose|j: int| 0 <= j < r.len() && r[j] == n;
                        assert(j < off) by {
                            if j >= off {
                                assert(k[j - off] == n);
                            }
                        }
                        assert(off > 0);
                        let r2 = r.remove(j).push(n);
                        assert(s.len() + 1 > VOICE_CACHE_LIMIT);
                        assert(t == s.push((n, p)).drop_first());
                        assert forall|a: int| 0 <= a < keys_of(t).len() implies #[trigger] keys_of(t)[a] == r2.skip(off)[a] by {
                            if a < s.len() - 1 {
                                assert(t[a] == s[a + 1]);
                                assert(k[a + 1] == r[a + 1 + off]);
                            }
                        }
                        assert(keys_of(t) =~= r2.skip(off));
                    } else {
                        let r2 = r.push(n);
                        if r.len() + 1 <= VOICE_CACHE_LIMIT {
                            assert(t == s.push((n, p)));
                            assert forall|a: int| 0 <= a < keys_of(t).len() implies #[trigger] keys_of(t)[a] == r2[a] by {
                                if a < s.len() {
                                    assert(t[a] == s[a]);
                                    assert(k[a] == r[a]);
                                }
                            }
                            assert(keys_of(t) =~= r2);
                        } else {
                            assert(t == s.push((n, p)).drop_first());
                            assert forall|a: int| 0 <= a < keys_of(t).len() implies #[trigger] keys_of(t)[a] == r2.skip(r2.len() - VOICE_CACHE_LIMIT)[a] by {
                                if a < s.len() - 1 {
                                    assert(t[a] == s[a + 1]);
                                    assert(k[a + 1] == r[a + 1 + off]);
                                }
                            }
                            assert(keys_of(t) =~= r2.skip(r2.len() - VOICE_CACHE_LIMIT));
                        }
                    }
                    assert(distinct_keys(t)) by {
                        let m = most_recent(made_recent(r, n));
                        let mr = made_recent(r, n);
                        let o2: int = mr.len() - m.len();
                        assert forall|a: int, b: int| 0 <= a < t.len() && 0 <= b < t.len() && a != b implies t[a].0 != t[b].0 by {
                            assert(keys_of(t)[a] == t[a].0 && keys_of(t)[b] == t[b].0);
                            assert(mr[a + o2] == m[a] && mr[b + o2] == m[b]);
                        }
                    }
                },
            }
        }
    }
}

/// Loading through the cache: after any loads, a name is served from the cache
/// (the provider is not asked for it) exactly when it is among the
/// `VOICE_CACHE_LIMIT` most recently loaded names, and the cache holds those names,
/// the least recently used first.
pub proof fn law_cache_serves_recent_names<V>(loads: Seq<(Seq<char>, Option<V>)>, name: Seq<char>)
    ensures
        keys_of(load_all(Seq::<(Seq<char>, V)>::empty(), loads)) == most_recent(recency(loads)),
        has_key(load_all(Seq::<(Seq<char>, V)>::empty(), loads), name) <==> most_recent(recency(loads)).contains(name),
{
    lemma_load_all_keys(loads);
    lemma_keys_distinct(load_all(Seq::<(Seq<char>, V)>::empty(), loads));
}

} // verus!
