//! String-keyed maps and `{{ name }}` variable expansion.
use vstd::prelude::*;
use vstd::string::*;
use crate::text::{
    append_range, append_str, chars_of, find_pair, find_pair_from, find_pair_in, lemma_seq_lt_asym,
    lemma_seq_lt_total, lemma_seq_lt_trans, seq_lt, str_eq,
    str_less, string_of_range, trim,
    trim_bounds,
};

verus! {

/// The map a sequence of `(key, value)` entries denotes: a later entry for a
/// key wins over an earlier one.
pub open spec fn entries_map<V>(s: Seq<(String, V)>) -> Map<Seq<char>, V>
    decreases s.len(),
{
    if s.len() == 0 {
        Map::empty()
    } else {
        entries_map(s.drop_last()).insert(s.last().0@, s.last().1)
    }
}

/// Like [`entries_map`], with each string value taken by its view.
pub open spec fn entries_str_map(s: Seq<(String, String)>) -> Map<Seq<char>, Seq<char>>
    decreases s.len(),
{
    if s.len() == 0 {
        Map::empty()
    } else {
        entries_str_map(s.drop_last()).insert(s.last().0@, s.last().1@)
    }
}

/// No key occurs twice among the entries.
pub open spec fn distinct_keys<V>(s: Seq<(String, V)>) -> bool {
    forall|i: int, j: int| 0 <= i < j < s.len() ==> s[i].0@ != s[j].0@
}

pub proof fn lemma_entries_map_at<V>(s: Seq<(String, V)>, i: int)
    requires
        distinct_keys(s),
        0 <= i < s.len(),
    ensures
        entries_map(s).contains_key(s[i].0@),
        entries_map(s)[s[i].0@] == s[i].1,
    decreases s.len(),
{
    if i < s.len() - 1 {
        lemma_entries_map_at(s.drop_last(), i);
    }
}

pub proof fn lemma_entries_map_absent<V>(s: Seq<(String, V)>, k: Seq<char>)
    requires
        forall|i: int| 0 <= i < s.len() ==> s[i].0@ != k,
    ensures
        !entries_map(s).contains_key(k),
    decreases s.len(),
{
    if s.len() > 0 {
        lemma_entries_map_absent(s.drop_last(), k);
    }
}

pub proof fn lemma_entries_map_dom<V>(s: Seq<(String, V)>, k: Seq<char>)
    ensures
        entries_map(s).contains_key(k) <==> exists|i: int| 0 <= i < s.len() && s[i].0@ == k,
    decreases s.len(),
{
    if s.len() > 0 {
        lemma_entries_map_dom(s.drop_last(), k);
        if entries_map(s.drop_last()).contains_key(k) {
            let i = choose|i: int| 0 <= i < s.len() - 1 && s.drop_last()[i].0@ == k;
            assert(s[i].0@ == k);
        }
        if exists|i: int| 0 <= i < s.len() && s[i].0@ == k {
            let i = choose|i: int| 0 <= i < s.len() && s[i].0@ == k;
            if i < s.len() - 1 {
                assert(s.drop_last()[i].0@ == k);
            }
        }
    }
}

pub proof fn lemma_entries_map_update<V>(s: Seq<(String, V)>, i: int, k: String, v: V)
    requires
        distinct_keys(s),
        0 <= i < s.len(),
        s[i].0@ == k@,
    ensures
        entries_map(s.update(i, (k, v))) == entries_map(s).insert(k@, v),
    decreases s.len(),
{
    let u = s.update(i, (k, v));
    if i == s.len() - 1 {
        assert(u.drop_last() == s.drop_last());
        assert(entries_map(u) =~= entries_map(s).insert(k@, v));
    } else {
        assert(u.drop_last() == s.drop_last().update(i, (k, v)));
        lemma_entries_map_update(s.drop_last(), i, k, v);
        assert(s.last().0@ != k@);
        assert(entries_map(u) =~= entries_map(s).insert(k@, v));
    }
}

pub proof fn lemma_entries_str_map_agrees(s: Seq<(String, String)>, k: Seq<char>)
    ensures
        entries_str_map(s).contains_key(k) == entries_map(s).contains_key(k),
        entries_map(s).contains_key(k) ==> entries_str_map(s)[k] == entries_map(s)[k]@,
    decreases s.len(),
{
    if s.len() > 0 {
        lemma_entries_str_map_agrees(s.drop_last(), k);
    }
}

/// An insertion-ordered map from strings to values in which every key occurs
/// once.
pub struct StrMap<V> {
    entries: Vec<(String, V)>,
}

impl<V> StrMap<V> {
    #[verifier::type_invariant]
    spec fn keys_distinct(self) -> bool {
        distinct_keys(self.entries@)
    }

    /// The entries, in insertion order.
    pub closed spec fn entries_spec(self) -> Seq<(String, V)> {
        self.entries@
    }

    /// The map the entries denote.
    pub open spec fn map(self) -> Map<Seq<char>, V> {
        entries_map(self.entries_spec())
    }

    /// An empty map.
    pub fn new() -> (m: Self)
        ensures
            m.entries_spec() == Seq::<(String, V)>::empty(),
            m.map() == Map::<Seq<char>, V>::empty(),
    {
        let m = StrMap { entries: Vec::new() };
        assert(m.map() =~= Map::<Seq<char>, V>::empty());
        m
    }

    /// The entries, in insertion order.
    pub fn entries(&self) -> (r: &Vec<(String, V)>)
        ensures
            r@ == self.entries_spec(),
            distinct_keys(r@),
    {
        proof {
            use_type_invariant(self);
        }
        &self.entries
    }

    /// Number of keys.
    pub fn len(&self) -> (n: usize)
        ensures
            n == self.entries_spec().len(),
    {
        self.entries.len()
    }

    /// Position of `key` among the entries.
    pub fn position(&self, key: &str) -> (r: Option<usize>)
        ensures
            match r {
                Some(i) => i < self.entries_spec().len() && self.entries_spec()[i as int].0@ == key@,
                None => forall|i: int|
                    0 <= i < self.entries_spec().len() ==> self.entries_spec()[i].0@ != key@,
            },
    {
        let mut i: usize = 0;
        while i < self.entries.len()
            invariant
                i <= self.entries@.len(),
                forall|j: int| 0 <= j < i ==> self.entries@[j].0@ != key@,
            decreases self.entries@.len() - i,
        {
            if str_eq(self.entries[i].0.as_str(), key) {
                return Some(i);
            }
            i = i + 1;
        }
        None
    }

    /// The value stored under `key`.
    pub fn get(&self, key: &str) -> (r: Option<&V>)
        ensures
            match r {
                Some(v) => self.map().contains_key(key@) && *v == self.map()[key@],
                None => !self.map().contains_key(key@),
            },
    {
        proof {
            use_type_invariant(self);
        }
        match self.position(key) {
            Some(i) => {
                proof {
                    lemma_entries_map_at(self.entries_spec(), i as int);
                }
                Some(&self.entries[i].1)
            },
            None => {
                proof {
                    lemma_entries_map_absent(self.entries_spec(), key@);
                }
                None
            },
        }
    }

    /// Whether `key` is present.
    pub fn contains_key(&self, key: &str) -> (r: bool)
        ensures
            r == self.map().contains_key(key@),
    {
        self.get(key).is_some()
    }

    /// Stores `value` under `key`; an existing entry keeps its position.
    pub fn insert(&mut self, key: String, value: V)
        ensures
            final(self).map() == old(self).map().insert(key@, value),
            forall|i: int|
                0 <= i < old(self).entries_spec().len() && old(self).entries_spec()[i].0@ == key@
                    ==> final(self).entries_spec() == old(self).entries_spec().update(
                    i,
                    (key, value),
                ),
            (forall|i: int|
                0 <= i < old(self).entries_spec().len() ==> old(self).entries_spec()[i].0@
                    != key@) ==> final(self).entries_spec() == old(self).entries_spec().push(
                (key, value),
            ),
    {
        proof {
            use_type_invariant(&*self);
        }
        match self.position(key.as_str()) {
            Some(i) => {
                let ghost old_entries = self.entries@;
                proof {
                    lemma_entries_map_update(old_entries, i as int, key, value);
                }
                let mut entries = Vec::new();
                std::mem::swap(&mut entries, &mut self.entries);
                entries.set(i, (key, value));
                assert(entries@ == old_entries.update(i as int, (key, value)));
                assert(distinct_keys(entries@)) by {
                    assert forall|a: int, b: int| 0 <= a < b < entries@.len() implies entries@[a].0@
                        != entries@[b].0@ by {
                        assert(old_entries[a].0@ != old_entries[b].0@);
                    }
                }
                self.entries = entries;
            },
            None => {
                let ghost old_entries = self.entries@;
                let mut entries = Vec::new();
                std::mem::swap(&mut entries, &mut self.entries);
                let ghost kv = key@;
                entries.push((key, value));
                assert(entries@.drop_last() == old_entries);
                assert(distinct_keys(entries@)) by {
                    assert forall|a: int, b: int| 0 <= a < b < entries@.len() implies entries@[a].0@
                        != entries@[b].0@ by {
                        if b == entries@.len() - 1 {
                            assert(old_entries[a].0@ != kv);
                        } else {
                            assert(old_entries[a].0@ != old_entries[b].0@);
                        }
                    }
                }
                self.entries = entries;
            },
        }
    }
}

impl StrMap<String> {
    /// The map the entries denote, each value taken by its view.
    pub open spec fn str_map(self) -> Map<Seq<char>, Seq<char>> {
        entries_str_map(self.entries_spec())
    }

    /// The value stored under `key`, by view.
    pub proof fn lemma_str_map(&self, k: Seq<char>)
        ensures
            self.str_map().contains_key(k) == self.map().contains_key(k),
            self.map().contains_key(k) ==> self.str_map()[k] == self.map()[k]@,
    {
        lemma_entries_str_map_agrees(self.entries_spec(), k);
    }

    /// Builds a map from `(key, value)` pairs; a later pair for a key wins.
    pub fn from_pairs(pairs: &Vec<(String, String)>) -> (m: Self)
        ensures
            m.str_map() == entries_str_map(pairs@),
    {
        let mut m = StrMap::new();
        let mut i: usize = 0;
        assert(m.str_map() =~= entries_str_map(pairs@.take(0)));
        while i < pairs.len()
            invariant
                i <= pairs@.len(),
                m.str_map() == entries_str_map(pairs@.take(i as int)),
            decreases pairs@.len() - i,
        {
            let k = pairs[i].0.clone();
            let v = pairs[i].1.clone();
            m.insert_str(k, v);
            proof {
                assert(pairs@.take(i + 1).drop_last() == pairs@.take(i as int));
            }
            i = i + 1;
        }
        assert(pairs@.take(pairs@.len() as int) == pairs@);
        m
    }

    /// Stores `value` under `key`, with the effect on the viewed map stated.
    pub fn insert_str(&mut self, key: String, value: String)
        ensures
            final(self).str_map() == old(self).str_map().insert(key@, value@),
            final(self).map() == old(self).map().insert(key@, value),
    {
        let ghost k = key@;
        let ghost v = value@;
        self.insert(key, value);
        proof {
            let fm = final(self).str_map();
            let om = old(self).str_map();
            assert forall|q: Seq<char>| #[trigger] fm.contains_key(q) == om.insert(k, v).contains_key(q)
                by {
                final(self).lemma_str_map(q);
                old(self).lemma_str_map(q);
            }
            assert forall|q: Seq<char>| fm.contains_key(q) implies #[trigger] fm[q] == om.insert(
                k,
                v,
            )[q] by {
                final(self).lemma_str_map(q);
                old(self).lemma_str_map(q);
            }
            assert(fm =~= om.insert(k, v));
        }
    }

    /// Copies every entry of `other` into `self`, overwriting existing keys
    /// (`HashMap::extend`).
    pub fn extend_from(&mut self, other: &StrMap<String>)
        ensures
            final(self).str_map() == old(self).str_map().union_prefer_right(other.str_map()),
    {
        let src = other.entries();
        let mut i: usize = 0;
        while i < src.len()
            invariant
                i <= src@.len(),
                src@ == other.entries_spec(),
                self.str_map() == old(self).str_map().union_prefer_right(
                    entries_str_map(src@.take(i as int)),
                ),
            decreases src@.len() - i,
        {
            let k = src[i].0.clone();
            let v = src[i].1.clone();
            self.insert_str(k, v);
            proof {
                assert(src@.take(i + 1).drop_last() == src@.take(i as int));
                assert(self.str_map() =~= old(self).str_map().union_prefer_right(
                    entries_str_map(src@.take(i + 1)),
                ));
            }
            i = i + 1;
        }
        assert(src@.take(src@.len() as int) == src@);
    }

    /// Deep copy.
    pub fn clone_map(&self) -> (m: StrMap<String>)
        ensures
            m.str_map() == self.str_map(),
            m.entries_spec() == self.entries_spec(),
    {
        proof {
            use_type_invariant(self);
        }
        let mut entries: Vec<(String, String)> = Vec::new();
        let mut i: usize = 0;
        while i < self.entries.len()
            invariant
                i <= self.entries@.len(),
                entries@ == self.entries@.take(i as int),
            decreases self.entries@.len() - i,
        {
            let k = self.entries[i].0.clone();
            let v = self.entries[i].1.clone();
            entries.push((k, v));
            assert(entries@ =~= self.entries@.take(i + 1));
            i = i + 1;
        }
        assert(self.entries@.take(self.entries@.len() as int) == self.entries@);
        StrMap { entries }
    }
}

/// The result of expanding every `{{ name }}` placeholder of `t` that starts at
/// or after `pos`: the text from `pos` with each placeholder whose trimmed name
/// is a key of `vars` replaced by its value. A placeholder with an unknown name
/// is kept verbatim; an unterminated `{{` ends the expansion.
pub open spec fn expand_from(t: Seq<char>, pos: int, vars: Map<Seq<char>, Seq<char>>) -> Seq<char>
    decreases t.len() - pos,
{
    if pos < 0 || pos > t.len() {
        Seq::empty()
    } else {
        let start = find_pair_from(t, '{', '{', pos);
        if start < 0 {
            t.subrange(pos, t.len() as int)
        } else {
            let end = find_pair_from(t, '}', '}', start + 2);
            if end < 0 {
                t.subrange(pos, t.len() as int)
            } else {
                proof {
                    lemma_find_pair_range(t, '{', '{', pos);
                    lemma_find_pair_range(t, '}', '}', start + 2);
                }
                let key = trim(t.subrange(start + 2, end));
                t.subrange(pos, start) + (if vars.contains_key(key) {
                    vars[key]
                } else {
                    t.subrange(start, end + 2)
                }) + expand_from(t, end + 2, vars)
            }
        }
    }
}

/// `text` with its placeholders expanded against `vars` (see [`expand_from`]).
pub open spec fn expand(text: Seq<char>, vars: Map<Seq<char>, Seq<char>>) -> Seq<char> {
    expand_from(text, 0, vars)
}

pub proof fn lemma_find_pair_range(s: Seq<char>, a: char, b: char, from: int)
    ensures
        find_pair_from(s, a, b, from) == -1 || (from <= find_pair_from(s, a, b, from)
            && find_pair_from(s, a, b, from) + 1 < s.len() && s[find_pair_from(s, a, b, from)] == a
            && s[find_pair_from(s, a, b, from) + 1] == b),
    decreases s.len() - from,
{
    if !(from < 0 || from + 1 >= s.len()) && !(s[from] == a && s[from + 1] == b) {
        lemma_find_pair_range(s, a, b, from + 1);
    }
}

/// Replaces every `{{ name }}` placeholder in `text` with the corresponding value.
///
/// Substitution is purely textual and happens before any command parsing: a
/// value is spliced verbatim into the surrounding string. Unknown placeholders
/// and an unterminated `{{` are left untouched.
pub fn apply_vars(text: &str, vars: &StrMap<String>) -> (r: String)
    ensures
        r@ == expand(text@, vars.str_map()),
{
    let t = chars_of(text);
    let ghost m = vars.str_map();
    let mut out = String::new();
    let mut pos: usize = 0;
    loop
        invariant
            t@ == text@,
            m == vars.str_map(),
            pos <= t@.len(),
            out@ + expand_from(t@, pos as int, m) == expand(t@, m),
        decreases t@.len() - pos,
    {
        let start = find_pair_in(&t, '{', '{', pos);
        proof {
            lemma_find_pair_range(t@, '{', '{', pos as int);
        }
        match start {
            None => {
                append_range(&mut out, &t, pos, t.len());
                return out;
            },
            Some(st) => {
                let end = find_pair_in(&t, '}', '}', st + 2);
                proof {
                    lemma_find_pair_range(t@, '}', '}', st + 2);
                }
                match end {
                    None => {
                        append_range(&mut out, &t, pos, t.len());
                        return out;
                    },
                    Some(e) => {
                        let ghost before = out@;
                        append_range(&mut out, &t, pos, st);
                        let (ka, kb) = trim_bounds(&t, st + 2, e);
                        let key = string_of_range(&t, ka, kb);
                        proof {
                            vars.lemma_str_map(key@);
                        }
                        match vars.get(key.as_str()) {
                            Some(val) => {
                                append_str(&mut out, val.as_str());
                            },
                            None => {
                                append_range(&mut out, &t, st, e + 2);
                            },
                        }
                        pos = e + 2;
                    },
                }
            },
        }
    }
}

proof fn lemma_expand_from_no_known(t: Seq<char>, pos: int, vars: Map<Seq<char>, Seq<char>>)
    requires
        0 <= pos <= t.len(),
        forall|k: Seq<char>| !vars.contains_key(k),
    ensures
        expand_from(t, pos, vars) == t.subrange(pos, t.len() as int),
    decreases t.len() - pos,
{
    let start = find_pair_from(t, '{', '{', pos);
    lemma_find_pair_range(t, '{', '{', pos);
    if start >= 0 {
        let end = find_pair_from(t, '}', '}', start + 2);
        lemma_find_pair_range(t, '}', '}', start + 2);
        if end >= 0 {
            lemma_expand_from_no_known(t, end + 2, vars);
            assert(t.subrange(pos, start) + t.subrange(start, end + 2) + t.subrange(
                end + 2,
                t.len() as int,
            ) =~= t.subrange(pos, t.len() as int));
        }
    }
}

/// Unknown placeholders are left untouched: expanding against variables of
/// which none is defined gives the text back unchanged.
pub proof fn law_expand_without_vars_is_identity(text: Seq<char>)
    ensures
        expand(text, Map::empty()) == text,
{
    lemma_expand_from_no_known(text, 0, Map::empty());
    assert(text.subrange(0, text.len() as int) == text);
}

/// Text without any `{{` passes through unchanged, whatever the variables.
pub proof fn law_expand_plain_text(text: Seq<char>, vars: Map<Seq<char>, Seq<char>>)
    requires
        find_pair(text, '{', '{') == -1,
    ensures
        expand(text, vars) == text,
{
    assert(text.subrange(0, text.len() as int) == text);
}

/// The views of string pairs.
pub open spec fn pair_views(s: Seq<(String, String)>) -> Seq<(Seq<char>, Seq<char>)> {
    s.map_values(|e: (String, String)| (e.0@, e.1@))
}

/// `s` with `x` inserted before the first entry whose key is greater than
/// the key of `x`.
pub open spec fn insert_by_key(s: Seq<(Seq<char>, Seq<char>)>, x: (Seq<char>, Seq<char>)) -> Seq<
    (Seq<char>, Seq<char>),
>
    decreases s.len(),
{
    if s.len() == 0 {
        seq![x]
    } else if seq_lt(x.0, s[0].0) {
        seq![x] + s
    } else {
        seq![s[0]] + insert_by_key(s.drop_first(), x)
    }
}

/// The entries of `s` ordered by key (stable), as iterating a `BTreeMap`
/// built from them would give them when keys are distinct.
pub open spec fn sort_by_key(s: Seq<(Seq<char>, Seq<char>)>) -> Seq<(Seq<char>, Seq<char>)>
    decreases s.len(),
{
    if s.len() == 0 {
        Seq::empty()
    } else {
        insert_by_key(sort_by_key(s.drop_last()), s.last())
    }
}

proof fn lemma_insert_by_key_at(s: Seq<(Seq<char>, Seq<char>)>, x: (Seq<char>, Seq<char>), p: int)
    requires
        0 <= p <= s.len(),
        forall|q: int| 0 <= q < p ==> !seq_lt(x.0, #[trigger] s[q].0),
        p < s.len() ==> seq_lt(x.0, s[p].0),
    ensures
        insert_by_key(s, x) == s.take(p) + seq![x] + s.skip(p),
    decreases s.len(),
{
    if s.len() == 0 {
        assert(s.take(p) + seq![x] + s.skip(p) =~= seq![x]);
    } else if p == 0 {
        assert(s.take(0) + seq![x] + s.skip(0) =~= seq![x] + s);
    } else {
        let t = s.drop_first();
        assert forall|q: int| 0 <= q < p - 1 implies !seq_lt(x.0, #[trigger] t[q].0) by {
            assert(t[q] == s[q + 1]);
        }
        lemma_insert_by_key_at(t, x, p - 1);
        assert(seq![s[0]] + (t.take(p - 1) + seq![x] + t.skip(p - 1)) =~= s.take(p) + seq![x]
            + s.skip(p));
    }
}

/// The keys of `s` increase strictly.
pub open spec fn keys_increasing(s: Seq<(Seq<char>, Seq<char>)>) -> bool {
    forall|i: int, j: int| 0 <= i < j < s.len() ==> seq_lt(#[trigger] s[i].0, #[trigger] s[j].0)
}

/// `s` lists exactly the entries of `m`.
pub open spec fn lists_map(s: Seq<(Seq<char>, Seq<char>)>, m: Map<Seq<char>, Seq<char>>) -> bool {
    &&& forall|i: int| 0 <= i < s.len() ==> m.contains_key(#[trigger] s[i].0) && m[s[i].0] == s[i].1
    &&& forall|k: Seq<char>| #[trigger] m.contains_key(k) ==> exists|i: int| 0 <= i < s.len() && s[i].0 == k
}

/// The listing of a map in key order: its entries, keys strictly
/// increasing. There is one such listing for each finite map.
pub open spec fn sorted_listing(s: Seq<(Seq<char>, Seq<char>)>, m: Map<Seq<char>, Seq<char>>) -> bool {
    keys_increasing(s) && lists_map(s, m)
}

proof fn lemma_insert_listing(
    sorted: Seq<(Seq<char>, Seq<char>)>,
    x: (Seq<char>, Seq<char>),
    p: int,
    m: Map<Seq<char>, Seq<char>>,
)
    requires
        sorted_listing(sorted, m),
        !m.contains_key(x.0),
        0 <= p <= sorted.len(),
        forall|q: int| 0 <= q < p ==> !seq_lt(x.0, #[trigger] sorted[q].0),
        p < sorted.len() ==> seq_lt(x.0, sorted[p].0),
    ensures
        sorted_listing(sorted.take(p) + seq![x] + sorted.skip(p), m.insert(x.0, x.1)),
{
    let n = sorted.take(p) + seq![x] + sorted.skip(p);
    let m2 = m.insert(x.0, x.1);
    assert forall|i: int| 0 <= i < n.len() implies #[trigger] n[i] == if i < p {
        sorted[i]
    } else if i == p {
        x
    } else {
        sorted[i - 1]
    } by {}
    assert forall|a: int, b: int| 0 <= a < b < n.len() implies seq_lt(#[trigger] n[a].0, #[trigger] n[b].0) by {
        if a < p {
            assert(m.contains_key(sorted[a].0));
            lemma_seq_lt_total(x.0, sorted[a].0);
            if b == p {
            } else {
                if b - 1 > a {
                    assert(seq_lt(sorted[a].0, sorted[b - 1].0));
                }
            }
        } else if a == p {
            if b - 1 > p {
                assert(seq_lt(sorted[p].0, sorted[b - 1].0));
                lemma_seq_lt_trans(x.0, sorted[p].0, sorted[b - 1].0);
            }
        } else {
            assert(seq_lt(sorted[a - 1].0, sorted[b - 1].0));
        }
    }
    assert forall|k: Seq<char>| #[trigger] m2.contains_key(k) implies exists|i: int|
        0 <= i < n.len() && n[i].0 == k by {
        if k == x.0 {
            assert(n[p].0 == k);
        } else {
            let j = choose|j: int| 0 <= j < sorted.len() && sorted[j].0 == k;
            if j < p {
                assert(n[j].0 == k);
            } else {
                assert(n[j + 1].0 == k);
            }
        }
    }
    assert forall|i: int| 0 <= i < n.len() implies m2.contains_key(#[trigger] n[i].0) && m2[n[i].0] == n[i].1 by {
        if i < p {
            assert(m.contains_key(sorted[i].0));
        } else if i > p {
            assert(m.contains_key(sorted[i - 1].0));
        }
    }
}

/// The entries of a map ordered by key.
pub fn sorted_entries(m: &StrMap<String>) -> (r: Vec<(String, String)>)
    ensures
        pair_views(r@) == sort_by_key(pair_views(m.entries_spec())),
        sorted_listing(pair_views(r@), m.str_map()),
{
    let src = m.entries();
    let mut out: Vec<(String, String)> = Vec::new();
    let mut i: usize = 0;
    assert(pair_views(src@).take(0) == Seq::<(Seq<char>, Seq<char>)>::empty());
    assert(pair_views(out@) =~= sort_by_key(pair_views(src@).take(0)));
    while i < src.len()
        invariant
            i <= src@.len(),
            src@ == m.entries_spec(),
            distinct_keys(src@),
            pair_views(out@) == sort_by_key(pair_views(src@).take(i as int)),
            sorted_listing(pair_views(out@), entries_str_map(src@.take(i as int))),
        decreases src@.len() - i,
    {
        let k = src[i].0.clone();
        let v = src[i].1.clone();
        let ghost x = (k@, v@);
        let ghost sorted = pair_views(out@);
        let mut p: usize = 0;
        while p < out.len() && !str_less(k.as_str(), out[p].0.as_str())
            invariant
                p <= out@.len(),
                sorted == pair_views(out@),
                x == (k@, v@),
                forall|q: int| 0 <= q < p ==> !seq_lt(x.0, #[trigger] sorted[q].0),
            decreases out@.len() - p,
        {
            p = p + 1;
        }
        proof {
            lemma_insert_by_key_at(sorted, x, p as int);
            assert(pair_views(src@).take(i + 1).drop_last() == pair_views(src@).take(i as int));
            assert(pair_views(src@).take(i + 1).last() == x);
            let pre = src@.take(i as int);
            assert forall|q: int| 0 <= q < pre.len() implies pre[q].0@ != x.0 by {
                assert(pre[q] == src@[q]);
            }
            lemma_entries_map_absent(pre, x.0);
            lemma_entries_str_map_agrees(pre, x.0);
            lemma_insert_listing(sorted, x, p as int, entries_str_map(pre));
            assert(src@.take(i + 1).drop_last() == pre);
            assert(entries_str_map(src@.take(i + 1)) == entries_str_map(pre).insert(x.0, x.1));
        }
        out.insert(p, (k, v));
        assert(pair_views(out@) =~= sorted.take(p as int) + seq![x] + sorted.skip(p as int));
        i = i + 1;
    }
    assert(pair_views(src@).take(src@.len() as int) == pair_views(src@));
    assert(src@.take(src@.len() as int) == src@);
    out
}

/// Precedence of variable sources: built-ins, then manifest `vars`, then
/// command-line overrides, later sources winning.
pub open spec fn layered_vars(
    builtins: Map<Seq<char>, Seq<char>>,
    manifest: Option<Map<Seq<char>, Seq<char>>>,
    cli: Map<Seq<char>, Seq<char>>,
) -> Map<Seq<char>, Seq<char>> {
    let base = match manifest {
        Some(mv) => builtins.union_prefer_right(mv),
        None => builtins,
    };
    base.union_prefer_right(cli)
}

/// A variable resolves to its command-line override when there is one,
/// else to the manifest's value, else to the built-in; a name none of them
/// defines stays undefined.
pub proof fn law_variable_precedence(
    builtins: Map<Seq<char>, Seq<char>>,
    manifest: Option<Map<Seq<char>, Seq<char>>>,
    cli: Map<Seq<char>, Seq<char>>,
    k: Seq<char>,
)
    ensures
        cli.contains_key(k) ==> layered_vars(builtins, manifest, cli).contains_key(k) && layered_vars(
            builtins,
            manifest,
            cli,
        )[k] == cli[k],
        !cli.contains_key(k) && manifest is Some && manifest->0.contains_key(k) ==> layered_vars(
            builtins,
            manifest,
            cli,
        ).contains_key(k) && layered_vars(builtins, manifest, cli)[k] == manifest->0[k],
        !cli.contains_key(k) && !(manifest is Some && manifest->0.contains_key(k)) ==> (layered_vars(
            builtins,
            manifest,
            cli,
        ).contains_key(k) <==> builtins.contains_key(k)) && (builtins.contains_key(k) ==> layered_vars(
            builtins,
            manifest,
            cli,
        )[k] == builtins[k]),
{
}

} // verus!
