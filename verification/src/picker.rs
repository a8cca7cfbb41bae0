//! Headless picker and command models; dialogs are thin renderers over these.
use vstd::prelude::*;
use crate::order::{KeyView, SortKey, stable_order, stable_sort_of, stable_witness};
use crate::text::{
    contains, contains_seq, eq_ascii_ci, eq_ignore_ascii_case, has_prefix, is_whitespace, is_ws,
    leading_ws, lowercase, owned, split_whitespace, starts_with, str_eq, to_lowercase,
    trim_start, trim_start_offset, word_len, words,
};

verus! {

#[derive(Debug, PartialEq, Eq)]
pub struct ModelOption {
    pub id: String,
    pub provider: String,
    pub recent: bool,
    pub favorite: bool,
}

impl Clone for ModelOption {
    fn clone(&self) -> (r: Self)
        ensures
            r == *self,
    {
        ModelOption {
            id: self.id.clone(),
            provider: self.provider.clone(),
            recent: self.recent,
            favorite: self.favorite,
        }
    }
}

impl ModelOption {
    pub fn provider_label(&self) -> (r: String)
        ensures
            r@ == self.provider@,
    {
        self.provider.clone()
    }
}

/// A model is listed for a (lower-cased) query when the query is empty or
/// occurs in its lower-cased id or provider.
pub open spec fn model_matches(m: ModelOption, q: Seq<char>) -> bool {
    q.len() == 0 || contains_seq(lowercase(m.id@), q) || contains_seq(lowercase(m.provider@), q)
}

/// Favorites first, then recents, then by lower-cased provider and id.
pub open spec fn model_key(m: ModelOption) -> KeyView {
    (
        (if m.favorite { 0int } else { 2int }) + (if m.recent { 0int } else { 1int }),
        lowercase(m.provider@),
        lowercase(m.id@),
    )
}

/// `out` is the stable sort of `inp` by `model_key`.
pub open spec fn model_order(out: Seq<ModelOption>, inp: Seq<ModelOption>) -> bool {
    stable_sort_of(out, inp, |m: ModelOption| model_key(m))
}

pub open spec fn spec_fuzzy_models(models: Seq<ModelOption>, query: Seq<char>) -> Seq<ModelOption> {
    models.filter(|m: ModelOption| model_matches(m, lowercase(query)))
}

/// A filter whose test holds of everything keeps the whole sequence.
proof fn lemma_filter_keeps_all<A>(s: Seq<A>, p: spec_fn(A) -> bool)
    requires
        forall|x: A| #[trigger] p(x),
    ensures
        s.filter(p) == s,
    decreases s.len(),
{
    reveal_with_fuel(Seq::filter, 1);
    if s.len() == 0 {
        assert(s.filter(p) =~= s);
    } else {
        lemma_filter_keeps_all(s.drop_last(), p);
        assert(s.drop_last().push(s.last()) =~= s);
    }
}

/// The models that match `query`, favorites and recents first; an empty
/// query lists them all.
pub fn fuzzy_models(models: &[ModelOption], query: &str) -> (r: Vec<ModelOption>)
    ensures
        model_order(r@, spec_fuzzy_models(models@, query@)),
        query@.len() == 0 ==> model_order(r@, models@),
{
    let q = to_lowercase(query);
    proof {
        if query@.len() == 0 {
            lemma_filter_keeps_all(models@, |m: ModelOption| model_matches(m, lowercase(query@)));
        }
    }
    let ghost pred = |m: ModelOption| model_matches(m, lowercase(query@));
    let mut kept: Vec<ModelOption> = Vec::new();
    let mut keys: Vec<SortKey> = Vec::new();
    let mut i: usize = 0;
    while i < models.len()
        invariant
            i <= models@.len(),
            q@ == lowercase(query@),
            pred == (|m: ModelOption| model_matches(m, lowercase(query@))),
            kept@ == models@.take(i as int).filter(pred),
            keys@.len() == kept@.len(),
            forall|k: int| 0 <= k < keys@.len() ==> #[trigger] keys@[k].view_key() == model_key(kept@[k]),
        decreases models@.len() - i,
    {
        let m = &models[i];
        let id_lower = to_lowercase(m.id.as_str());
        let provider_lower = to_lowercase(m.provider.as_str());
        let hit = q.as_str().is_empty() || contains(id_lower.as_str(), q.as_str()) || contains(
            provider_lower.as_str(),
            q.as_str(),
        );
        proof {
            reveal_with_fuel(Seq::filter, 1);
            assert(models@.take(i + 1).drop_last() =~= models@.take(i as int));
        }
        if hit {
            let rank: i128 = (if m.favorite { 0 } else { 2 }) + (if m.recent { 0 } else { 1 });
            kept.push(m.clone());
            keys.push(SortKey { rank, first: provider_lower, second: id_lower });
        }
        i = i + 1;
    }
    assert(models@.take(models@.len() as int) =~= models@);
    let perm = stable_order(&keys);
    let mut out: Vec<ModelOption> = Vec::new();
    let mut j: usize = 0;
    while j < perm.len()
        invariant
            j <= perm@.len(),
            perm@.len() == kept@.len(),
            forall|t: int| 0 <= t < perm@.len() ==> #[trigger] perm@[t] < kept@.len(),
            out@.len() == j,
            forall|t: int| 0 <= t < j ==> #[trigger] out@[t] == kept@[perm@[t] as int],
        decreases perm@.len() - j,
    {
        out.push(kept[perm[j]].clone());
        j = j + 1;
    }
    proof {
        let src = perm@.map_values(|p: usize| p as int);
        let key = |m: ModelOption| model_key(m);
        assert(stable_witness(out@, kept@, key, src));
    }
    out
}

/// State shared by the model overlay and its renderer.
#[derive(Debug, Clone, PartialEq, Eq)]
pub struct ModelPicker {
    pub models: Vec<ModelOption>,
    pub query: String,
    pub selected: usize,
}

/// `((base as isize) + delta).rem_euclid(count as isize)`, for a non-zero count.
pub open spec fn wrapped(base: int, delta: int, count: int) -> int {
    let m = if count < 0 { -count } else { count };
    (base + delta) % m
}

/// The position reached by moving `delta` steps from `base` in a cyclic list
/// of `count` entries, computed without overflow.
fn wrap_index(base: isize, delta: isize, count: isize) -> (r: usize)
    requires
        count != 0,
    ensures
        r as int == wrapped(base as int, delta as int, count as int),
{
    let a: i128 = base as i128 + delta as i128;
    let m: i128 = if count < 0 { -(count as i128) } else { count as i128 };
    let mu: u128 = m as u128;
    let r: u128 = if a >= 0 {
        (a as u128) % mu
    } else {
        let t: u128 = ((-a) as u128) % mu;
        if t == 0 { 0 } else { mu - t }
    };
    proof {
        let ai = a as int;
        let mi = m as int;
        if a < 0 {
            let t = (-ai) % mi;
            assert((-ai) == ((-ai) / mi) * mi + t) by (nonlinear_arith)
                requires mi > 0, t == (-ai) % mi;
            if t == 0 {
                assert(ai == (-((-ai) / mi)) * mi) by (nonlinear_arith)
                    requires (-ai) == ((-ai) / mi) * mi;
                assert(ai % mi == 0) by (nonlinear_arith)
                    requires ai == (-((-ai) / mi)) * mi, mi > 0;
            } else {
                assert(ai == (-((-ai) / mi) - 1) * mi + (mi - t)) by (nonlinear_arith)
                    requires (-ai) == ((-ai) / mi) * mi + t;
                assert(0 < mi - t < mi);
                assert(ai % mi == mi - t) by (nonlinear_arith)
                    requires ai == (-((-ai) / mi) - 1) * mi + (mi - t), 0 < mi - t < mi;
            }
        }
    }
    r as usize
}

impl ModelPicker {
    pub fn new(models: Vec<ModelOption>) -> (p: Self)
        ensures
            p.models == models,
            p.query@ == Seq::<char>::empty(),
            p.selected == 0,
    {
        ModelPicker { models, query: String::new(), selected: 0 }
    }

    pub fn results(&self) -> (r: Vec<ModelOption>)
        ensures
            model_order(r@, spec_fuzzy_models(self.models@, self.query@)),
            self.query@.len() == 0 ==> model_order(r@, self.models@),
    {
        fuzzy_models(self.models.as_slice(), self.query.as_str())
    }

    /// Move the highlighted result by `delta`, wrapping around the results.
    pub fn move_selection(&mut self, delta: isize)
        ensures
            final(self).models == old(self).models,
            final(self).query == old(self).query,
            ({
                let count = spec_fuzzy_models(old(self).models@, old(self).query@).len();
                final(self).selected == if count > 0 {
                    wrapped((old(self).selected as isize) as int, delta as int, (count as isize) as int)
                } else {
                    0
                }
            }),
    {
        let count = self.results().len();
        if count > 0 {
            assert((count as isize) as int != 0) by (bit_vector)
                requires count > 0;
            self.selected = wrap_index(self.selected as isize, delta, count as isize);
        } else {
            self.selected = 0;
        }
    }

    pub fn selected_model(&self) -> (r: Option<ModelOption>)
        ensures
            ({
                let res = spec_fuzzy_models(self.models@, self.query@);
                &&& (self.selected < res.len()) == r.is_some()
                &&& r.is_some() ==> exists|out: Seq<ModelOption>|
                    stable_sort_of(out, res, |m: ModelOption| model_key(m)) && r == Some(out[self.selected as int])
            }),
    {
        let mut results = self.results();
        if self.selected < results.len() {
            Some(results.remove(self.selected))
        } else {
            None
        }
    }

    /// Flip the favorite mark of the first model with this id.
    pub fn toggle_favorite(&mut self, id: &str) -> (found: bool)
        ensures
            final(self).query == old(self).query,
            final(self).selected == old(self).selected,
            found == exists|i: int| 0 <= i < old(self).models@.len() && #[trigger] old(self).models@[i].id@ == id@,
            !found ==> final(self).models@ == old(self).models@,
            found ==> exists|i: int|
                0 <= i < old(self).models@.len() && old(self).models@[i].id@ == id@ && (forall|k: int|
                    0 <= k < i ==> #[trigger] old(self).models@[k].id@ != id@) && final(self).models@
                    == old(self).models@.update(i, ModelOption { favorite: !old(self).models@[i].favorite, ..old(self).models@[i] }),
    {
        match find_model(&self.models, id) {
            Some(i) => {
                let m = self.models[i].clone();
                let updated = ModelOption { favorite: !m.favorite, ..m };
                self.models.set(i, updated);
                true
            },
            None => false,
        }
    }

    /// Mark the first model with this id as recently used.
    pub fn mark_recent(&mut self, id: &str) -> (found: bool)
        ensures
            final(self).query == old(self).query,
            final(self).selected == old(self).selected,
            found == exists|i: int| 0 <= i < old(self).models@.len() && #[trigger] old(self).models@[i].id@ == id@,
            !found ==> final(self).models@ == old(self).models@,
            found ==> exists|i: int|
                0 <= i < old(self).models@.len() && old(self).models@[i].id@ == id@ && (forall|k: int|
                    0 <= k < i ==> #[trigger] old(self).models@[k].id@ != id@) && final(self).models@
                    == old(self).models@.update(i, ModelOption { recent: true, ..old(self).models@[i] }),
    {
        match find_model(&self.models, id) {
            Some(i) => {
                let m = self.models[i].clone();
                let updated = ModelOption { recent: true, ..m };
                self.models.set(i, updated);
                true
            },
            None => false,
        }
    }
}

fn find_model(models: &Vec<ModelOption>, id: &str) -> (r: Option<usize>)
    ensures
        match r {
            Some(i) => i < models@.len() && models@[i as int].id@ == id@ && forall|k: int|
                0 <= k < i ==> #[trigger] models@[k].id@ != id@,
            None => forall|k: int| 0 <= k < models@.len() ==> #[trigger] models@[k].id@ != id@,
        },
{
    let mut i: usize = 0;
    while i < models.len()
        invariant
            i <= models@.len(),
            forall|k: int| 0 <= k < i ==> #[trigger] models@[k].id@ != id@,
        decreases models@.len() - i,
    {
        if crate::text::str_eq(models[i].id.as_str(), id) {
            return Some(i);
        }
        i = i + 1;
    }
    None
}


/// A grouping of `s` by provider: one group per distinct provider, in order
/// of first appearance, each holding that provider's entries in order.
pub open spec fn is_grouping(g: Seq<(Seq<char>, Seq<ModelOption>)>, s: Seq<ModelOption>) -> bool {
    let names = g.map_values(|p: (Seq<char>, Seq<ModelOption>)| p.0);
    &&& forall|k: int|
        0 <= k < g.len() ==> #[trigger] g[k].1 == s.filter(|m: ModelOption| m.provider@ == g[k].0)
    &&& forall|k: int, l: int| 0 <= k < l < g.len() ==> #[trigger] g[k].0 != #[trigger] g[l].0
    &&& forall|i: int| 0 <= i < s.len() ==> names.contains(#[trigger] s[i].provider@)
    &&& forall|k: int| 0 <= k < g.len() ==> providers(s).contains(#[trigger] g[k].0)
    &&& forall|k: int, l: int, i: int|
        0 <= k < l < g.len() && 0 <= i < s.len() && #[trigger] s[i].provider@ == #[trigger] g[l].0
            ==> providers(s.take(i)).contains(#[trigger] g[k].0)
}

pub open spec fn group_view(g: Seq<(String, Vec<ModelOption>)>) -> Seq<(Seq<char>, Seq<ModelOption>)> {
    g.map_values(|p: (String, Vec<ModelOption>)| (p.0@, p.1@))
}

fn entries_for(s: &Vec<ModelOption>, provider: &String) -> (r: Vec<ModelOption>)
    ensures
        r@ == s@.filter(|m: ModelOption| m.provider@ == provider@),
{
    let ghost pred = |m: ModelOption| m.provider@ == provider@;
    let mut r: Vec<ModelOption> = Vec::new();
    let mut i: usize = 0;
    while i < s.len()
        invariant
            i <= s@.len(),
            pred == (|m: ModelOption| m.provider@ == provider@),
            r@ == s@.take(i as int).filter(pred),
        decreases s@.len() - i,
    {
        proof {
            reveal_with_fuel(Seq::filter, 1);
            assert(s@.take(i + 1).drop_last() =~= s@.take(i as int));
        }
        if str_eq(s[i].provider.as_str(), provider.as_str()) {
            r.push(s[i].clone());
        }
        i = i + 1;
    }
    assert(s@.take(s@.len() as int) =~= s@);
    r
}

pub open spec fn providers(s: Seq<ModelOption>) -> Seq<Seq<char>> {
    s.map_values(|m: ModelOption| m.provider@)
}

pub open spec fn texts(s: Seq<String>) -> Seq<Seq<char>> {
    s.map_values(|x: String| x@)
}

/// `keys` lists the distinct values of `pv` in order of first appearance;
/// `firsts` gives each one's first position.
pub open spec fn first_appearances(keys: Seq<Seq<char>>, firsts: Seq<int>, pv: Seq<Seq<char>>) -> bool {
    &&& firsts.len() == keys.len()
    &&& forall|k: int| 0 <= k < keys.len() ==> 0 <= #[trigger] firsts[k] < pv.len() && pv[firsts[k]] == keys[k]
    &&& forall|k: int, l: int| 0 <= k < l < keys.len() ==> #[trigger] firsts[k] < #[trigger] firsts[l]
    &&& forall|k: int, j: int| 0 <= k < keys.len() && 0 <= j < firsts[k] ==> #[trigger] pv[j] != #[trigger] keys[k]
    &&& forall|j: int| 0 <= j < pv.len() ==> keys.contains(#[trigger] pv[j])
}

fn provider_keys(s: &Vec<ModelOption>) -> (r: (Vec<String>, Ghost<Seq<int>>))
    ensures
        first_appearances(texts(r.0@), r.1@, providers(s@)),
{
    let ghost pv = providers(s@);
    let mut keys: Vec<String> = Vec::new();
    let ghost mut firsts: Seq<int> = Seq::empty();
    let mut i: usize = 0;
    while i < s.len()
        invariant
            i <= s@.len(),
            pv == providers(s@),
            pv.len() == s@.len(),
            firsts.len() == keys@.len(),
            forall|k: int| 0 <= k < keys@.len() ==> 0 <= #[trigger] firsts[k] < i && pv[firsts[k]] == texts(keys@)[k],
            forall|k: int, l: int| 0 <= k < l < keys@.len() ==> #[trigger] firsts[k] < #[trigger] firsts[l],
            forall|k: int, j: int| 0 <= k < keys@.len() && 0 <= j < firsts[k] ==> #[trigger] pv[j] != #[trigger] texts(keys@)[k],
            forall|j: int| 0 <= j < i ==> texts(keys@).contains(#[trigger] pv[j]),
        decreases s@.len() - i,
    {
        let mut found = false;
        let mut k: usize = 0;
        while k < keys.len() && !found
            invariant
                i < s@.len(),
                pv == providers(s@),
                k <= keys@.len(),
                found ==> texts(keys@).contains(pv[i as int]),
                !found ==> forall|t: int| 0 <= t < k ==> #[trigger] texts(keys@)[t] != pv[i as int],
            decreases keys@.len() - k + (if found { 0int } else { 1int }),
        {
            if str_eq(keys[k].as_str(), s[i].provider.as_str()) {
                assert(texts(keys@)[k as int] == pv[i as int]);
                found = true;
            } else {
                k = k + 1;
            }
        }
        let ghost old_keys = texts(keys@);
        if !found {
            keys.push(s[i].provider.clone());
            proof {
                firsts = firsts.push(i as int);
                assert(texts(keys@) =~= old_keys.push(pv[i as int]));
            }
        }
        proof {
            let nk = texts(keys@);
            assert forall|j: int| 0 <= j < i + 1 implies nk.contains(#[trigger] pv[j]) by {
                if j < i {
                    assert(old_keys.contains(pv[j]));
                    let k0 = choose|t: int| 0 <= t < old_keys.len() && old_keys[t] == pv[j];
                    assert(nk[k0] == old_keys[k0]);
                } else if !found {
                    assert(nk[old_keys.len() as int] == pv[j]);
                }
            }
        }
        i = i + 1;
    }
    (keys, Ghost(firsts))
}

proof fn lemma_grouping(g: Seq<(Seq<char>, Seq<ModelOption>)>, keys: Seq<Seq<char>>, firsts: Seq<int>, s: Seq<ModelOption>)
    requires
        g.len() == keys.len(),
        first_appearances(keys, firsts, providers(s)),
        forall|k: int| 0 <= k < g.len() ==> (#[trigger] g[k]).0 == keys[k] && g[k].1 == s.filter(|m: ModelOption| m.provider@ == keys[k]),
    ensures
        is_grouping(g, s),
{
    lemma_grouping_entries(g, keys, s);
    lemma_grouping_distinct(g, keys, firsts, s);
    lemma_grouping_covers(g, keys, firsts, s);
    lemma_grouping_order(g, keys, firsts, s);
}

proof fn lemma_grouping_entries(g: Seq<(Seq<char>, Seq<ModelOption>)>, keys: Seq<Seq<char>>, s: Seq<ModelOption>)
    requires
        g.len() == keys.len(),
        forall|k: int| 0 <= k < g.len() ==> (#[trigger] g[k]).0 == keys[k] && g[k].1 == s.filter(|m: ModelOption| m.provider@ == keys[k]),
    ensures
        forall|k: int| 0 <= k < g.len() ==> #[trigger] g[k].1 == s.filter(|m: ModelOption| m.provider@ == g[k].0),
{
    assert forall|k: int| 0 <= k < g.len() implies #[trigger] g[k].1 == s.filter(|m: ModelOption| m.provider@ == g[k].0) by {
        let key = keys[k];
        assert(g[k].0 == key);
        assert((|m: ModelOption| m.provider@ == g[k].0) =~= (|m: ModelOption| m.provider@ == key));
    }
}

proof fn lemma_grouping_distinct(g: Seq<(Seq<char>, Seq<ModelOption>)>, keys: Seq<Seq<char>>, firsts: Seq<int>, s: Seq<ModelOption>)
    requires
        g.len() == keys.len(),
        first_appearances(keys, firsts, providers(s)),
        forall|k: int| 0 <= k < g.len() ==> (#[trigger] g[k]).0 == keys[k],
    ensures
        forall|k: int, l: int| 0 <= k < l < g.len() ==> #[trigger] g[k].0 != #[trigger] g[l].0,
{
    let pv = providers(s);
    assert forall|k: int, l: int| 0 <= k < l < g.len() implies #[trigger] g[k].0 != #[trigger] g[l].0 by {
        assert(g[k].0 == keys[k] && g[l].0 == keys[l]);
        assert(pv[firsts[k]] == keys[k]);
        assert(firsts[k] < firsts[l]);
    }
}

proof fn lemma_grouping_covers(g: Seq<(Seq<char>, Seq<ModelOption>)>, keys: Seq<Seq<char>>, firsts: Seq<int>, s: Seq<ModelOption>)
    requires
        g.len() == keys.len(),
        first_appearances(keys, firsts, providers(s)),
        forall|k: int| 0 <= k < g.len() ==> (#[trigger] g[k]).0 == keys[k],
    ensures
        forall|i: int| 0 <= i < s.len() ==> g.map_values(|p: (Seq<char>, Seq<ModelOption>)| p.0).contains(#[trigger] s[i].provider@),
        forall|k: int| 0 <= k < g.len() ==> providers(s).contains(#[trigger] g[k].0),
{
    let pv = providers(s);
    let names = g.map_values(|p: (Seq<char>, Seq<ModelOption>)| p.0);
    assert(names =~= keys);
    assert forall|j: int| 0 <= j < s.len() implies names.contains(#[trigger] s[j].provider@) by {
        assert(pv[j] == s[j].provider@);
        assert(keys.contains(pv[j]));
    }
    assert forall|k: int| 0 <= k < g.len() implies pv.contains(#[trigger] g[k].0) by {
        assert(g[k].0 == keys[k]);
        let f = firsts[k];
        assert(pv[f] == keys[k]);
    }
}

proof fn lemma_grouping_order(g: Seq<(Seq<char>, Seq<ModelOption>)>, keys: Seq<Seq<char>>, firsts: Seq<int>, s: Seq<ModelOption>)
    requires
        g.len() == keys.len(),
        first_appearances(keys, firsts, providers(s)),
        forall|k: int| 0 <= k < g.len() ==> (#[trigger] g[k]).0 == keys[k],
    ensures
        forall|k: int, l: int, i: int|
            0 <= k < l < g.len() && 0 <= i < s.len() && #[trigger] s[i].provider@ == #[trigger] g[l].0
                ==> providers(s.take(i)).contains(#[trigger] g[k].0),
{
    let pv = providers(s);
    assert forall|k: int, l: int, j: int|
        0 <= k < l < g.len() && 0 <= j < s.len() && #[trigger] s[j].provider@ == #[trigger] g[l].0
        implies providers(s.take(j)).contains(#[trigger] g[k].0) by {
        assert(g[k].0 == keys[k] && g[l].0 == keys[l]);
        assert(firsts[k] < firsts[l]);
        assert(pv[j] == s[j].provider@);
        if j < firsts[l] {
            assert(pv[j] != keys[l]);
        }
        let f = firsts[k];
        assert(pv[f] == keys[k]);
        assert(providers(s.take(j))[f] == pv[f]);
    }
}

/// Group the matching models by provider, keeping the picker's order.
pub fn model_groups(models: &[ModelOption], query: &str) -> (r: Vec<(String, Vec<ModelOption>)>)
    ensures
        exists|out: Seq<ModelOption>|
            model_order(out, spec_fuzzy_models(models@, query@))
                && is_grouping(group_view(r@), out),
{
    let sorted = fuzzy_models(models, query);
    let (keys, firsts) = provider_keys(&sorted);
    let mut groups: Vec<(String, Vec<ModelOption>)> = Vec::new();
    let mut k: usize = 0;
    while k < keys.len()
        invariant
            k <= keys@.len(),
            groups@.len() == k,
            forall|t: int| 0 <= t < k ==> (#[trigger] groups@[t]).0@ == keys@[t]@ && groups@[t].1@ == sorted@.filter(|m: ModelOption| m.provider@ == keys@[t]@),
        decreases keys@.len() - k,
    {
        let entries = entries_for(&sorted, &keys[k]);
        groups.push((keys[k].clone(), entries));
        k = k + 1;
    }
    proof {
        let g = group_view(groups@);
        let kv = texts(keys@);
        assert forall|t: int| 0 <= t < g.len() implies (#[trigger] g[t]).0 == kv[t] && g[t].1 == sorted@.filter(|m: ModelOption| m.provider@ == kv[t]) by {
            assert(g[t] == (groups@[t].0@, groups@[t].1@));
        }
        lemma_grouping(g, kv, firsts@, sorted@);
    }
    groups
}

#[derive(Debug, PartialEq, Eq)]
pub struct AgentOption {
    pub name: String,
    pub in_tab_cycle: bool,
}

impl Clone for AgentOption {
    fn clone(&self) -> (r: Self)
        ensures
            r == *self,
    {
        AgentOption { name: self.name.clone(), in_tab_cycle: self.in_tab_cycle }
    }
}

#[derive(Debug, Clone, PartialEq, Eq)]
pub struct AgentPicker {
    pub agents: Vec<AgentOption>,
    pub query: String,
    pub selected: usize,
}

/// An agent is listed for a (lower-cased) query when the query is empty or
/// occurs in its lower-cased name.
pub open spec fn agent_matches(a: AgentOption, q: Seq<char>) -> bool {
    q.len() == 0 || contains_seq(lowercase(a.name@), q)
}

pub open spec fn spec_search_agents(agents: Seq<AgentOption>, query: Seq<char>) -> Seq<AgentOption> {
    agents.filter(|a: AgentOption| agent_matches(a, lowercase(query)))
}

pub fn search_agents(agents: &[AgentOption], query: &str) -> (r: Vec<AgentOption>)
    ensures
        r@ == spec_search_agents(agents@, query@),
        query@.len() == 0 ==> r@ == agents@,
{
    let q = to_lowercase(query);
    proof {
        if query@.len() == 0 {
            lemma_filter_keeps_all(agents@, |a: AgentOption| agent_matches(a, lowercase(query@)));
        }
    }
    let ghost pred = |a: AgentOption| agent_matches(a, lowercase(query@));
    let mut r: Vec<AgentOption> = Vec::new();
    let mut i: usize = 0;
    while i < agents.len()
        invariant
            i <= agents@.len(),
            q@ == lowercase(query@),
            pred == (|a: AgentOption| agent_matches(a, lowercase(query@))),
            r@ == agents@.take(i as int).filter(pred),
        decreases agents@.len() - i,
    {
        proof {
            reveal_with_fuel(Seq::filter, 1);
            assert(agents@.take(i + 1).drop_last() =~= agents@.take(i as int));
        }
        let name = to_lowercase(agents[i].name.as_str());
        if q.as_str().is_empty() || contains(name.as_str(), q.as_str()) {
            r.push(agents[i].clone());
        }
        i = i + 1;
    }
    assert(agents@.take(agents@.len() as int) =~= agents@);
    r
}

/// Move a cursor in a finite list, wrapping in either direction.
pub open spec fn spec_move_selection(selected: usize, count: usize, delta: isize) -> int {
    if count == 0 {
        0
    } else {
        let clamped: usize = if selected < count - 1 { selected } else { (count - 1) as usize };
        wrapped((clamped as isize) as int, delta as int, (count as isize) as int)
    }
}

pub fn move_selection(selected: usize, count: usize, delta: isize) -> (r: usize)
    ensures
        r as int == spec_move_selection(selected, count, delta),
{
    if count == 0 {
        0
    } else {
        let clamped = if selected < count - 1 { selected } else { count - 1 };
        assert((count as isize) as int != 0) by (bit_vector)
            requires count > 0;
        wrap_index(clamped as isize, delta, count as isize)
    }
}

impl AgentPicker {
    pub fn new(agents: Vec<AgentOption>) -> (p: Self)
        ensures
            p.agents == agents,
            p.query@ == Seq::<char>::empty(),
            p.selected == 0,
    {
        AgentPicker { agents, query: String::new(), selected: 0 }
    }

    pub fn results(&self) -> (r: Vec<AgentOption>)
        ensures
            r@ == spec_search_agents(self.agents@, self.query@),
            self.query@.len() == 0 ==> r@ == self.agents@,
    {
        search_agents(self.agents.as_slice(), self.query.as_str())
    }

    pub fn move_selection(&mut self, delta: isize)
        ensures
            final(self).agents == old(self).agents,
            final(self).query == old(self).query,
            ({
                let count = spec_search_agents(old(self).agents@, old(self).query@).len();
                final(self).selected == if count > 0 {
                    wrapped((old(self).selected as isize) as int, delta as int, (count as isize) as int)
                } else {
                    0
                }
            }),
    {
        let count = self.results().len();
        if count > 0 {
            assert((count as isize) as int != 0) by (bit_vector)
                requires count > 0;
            self.selected = wrap_index(self.selected as isize, delta, count as isize);
        } else {
            self.selected = 0;
        }
    }

    pub fn selected_agent(&self) -> (r: Option<AgentOption>)
        ensures
            ({
                let res = spec_search_agents(self.agents@, self.query@);
                r == if self.selected < res.len() { Some(res[self.selected as int]) } else { None }
            }),
    {
        let mut results = self.results();
        if self.selected < results.len() {
            Some(results.remove(self.selected))
        } else {
            None
        }
    }

    pub fn cycle(&self, current: Option<&str>, reverse: bool) -> (r: Option<String>)
        ensures
            r.is_some() == spec_next_agent(self.agents@, opt_view(current), reverse).is_some(),
            r.is_some() ==> r.unwrap()@ == spec_next_agent(self.agents@, opt_view(current), reverse).unwrap(),
    {
        next_agent(self.agents.as_slice(), current, reverse)
    }
}

pub open spec fn opt_view(o: Option<&str>) -> Option<Seq<char>> {
    match o {
        Some(s) => Some(s@),
        None => None,
    }
}

/// Index of the first agent at or after `k` whose name equals `name`
/// ignoring ASCII case, or -1.
pub open spec fn first_ci_match(choices: Seq<AgentOption>, name: Seq<char>, k: int) -> int
    decreases choices.len() - k,
{
    if k < 0 || k >= choices.len() {
        -1
    } else if eq_ascii_ci(choices[k].name@, name) {
        k
    } else {
        first_ci_match(choices, name, k + 1)
    }
}

/// The agent after (or, in reverse, before) `current` among those in the tab
/// cycle.  An unknown or absent current agent starts from the last (or first).
pub open spec fn spec_next_agent(agents: Seq<AgentOption>, current: Option<Seq<char>>, reverse: bool) -> Option<Seq<char>> {
    let choices = agents.filter(|a: AgentOption| a.in_tab_cycle);
    let n = choices.len() as int;
    if n == 0 {
        None
    } else {
        let fallback = if reverse { 0 } else { n - 1 };
        let found = match current {
            Some(name) => first_ci_match(choices, name, 0),
            None => -1,
        };
        let index = if found >= 0 { found } else { fallback };
        let next = if reverse { (index + n - 1) % n } else { (index + 1) % n };
        Some(choices[next].name@)
    }
}

/// The first element the filter keeps is the first element that passes.
proof fn lemma_filter_first<A>(s: Seq<A>, p: spec_fn(A) -> bool, j: int)
    requires
        0 <= j < s.len(),
        p(s[j]),
        forall|k: int| 0 <= k < j ==> !p(#[trigger] s[k]),
    ensures
        s.filter(p).len() > 0,
        s.filter(p)[0] == s[j],
    decreases s.len(),
{
    reveal_with_fuel(Seq::filter, 1);
    let d = s.drop_last();
    if j == s.len() - 1 {
        assert forall|k: int| 0 <= k < d.len() implies !p(#[trigger] d[k]) by {
            assert(d[k] == s[k]);
        }
        lemma_filter_none(d, p);
    } else {
        assert(d[j] == s[j]);
        assert forall|k: int| 0 <= k < j implies !p(#[trigger] d[k]) by {
            assert(d[k] == s[k]);
        }
        lemma_filter_first(d, p, j);
    }
}

proof fn lemma_filter_none<A>(s: Seq<A>, p: spec_fn(A) -> bool)
    requires
        forall|k: int| 0 <= k < s.len() ==> !p(#[trigger] s[k]),
    ensures
        s.filter(p).len() == 0,
    decreases s.len(),
{
    reveal_with_fuel(Seq::filter, 1);
    if s.len() > 0 {
        let d = s.drop_last();
        assert forall|k: int| 0 <= k < d.len() implies !p(#[trigger] d[k]) by {
            assert(d[k] == s[k]);
        }
        lemma_filter_none(d, p);
        assert(!p(s[s.len() - 1]));
    }
}

/// The last element the filter keeps is the last element that passes.
proof fn lemma_filter_last<A>(s: Seq<A>, p: spec_fn(A) -> bool, j: int)
    requires
        0 <= j < s.len(),
        p(s[j]),
        forall|k: int| j < k < s.len() ==> !p(#[trigger] s[k]),
    ensures
        s.filter(p).len() > 0,
        s.filter(p).last() == s[j],
    decreases s.len(),
{
    reveal_with_fuel(Seq::filter, 1);
    let d = s.drop_last();
    if j < s.len() - 1 {
        assert(d[j] == s[j]);
        assert(!p(s[s.len() - 1]));
        assert forall|k: int| j < k < d.len() implies !p(#[trigger] d[k]) by {
            assert(d[k] == s[k]);
        }
        lemma_filter_last(d, p, j);
    }
}

/// Every element the filter keeps comes from the sequence.
proof fn lemma_filter_from<A>(s: Seq<A>, p: spec_fn(A) -> bool, i: int)
    requires
        0 <= i < s.filter(p).len(),
    ensures
        exists|k: int| 0 <= k < s.len() && s[k] == #[trigger] s.filter(p)[i],
    decreases s.len(),
{
    reveal_with_fuel(Seq::filter, 1);
    let d = s.drop_last();
    if s.len() > 0 {
        if p(s.last()) && i == s.filter(p).len() - 1 {
            assert(s[s.len() - 1] == s.filter(p)[i]);
        } else {
            assert(s.filter(p)[i] == d.filter(p)[i]);
            lemma_filter_from(d, p, i);
            let k = choose|k: int| 0 <= k < d.len() && d[k] == #[trigger] d.filter(p)[i];
            assert(s[k] == d[k]);
        }
    }
}

proof fn lemma_no_ci_match(choices: Seq<AgentOption>, name: Seq<char>, k: int)
    requires
        0 <= k,
        forall|i: int| k <= i < choices.len() ==> !eq_ascii_ci(#[trigger] choices[i].name@, name),
    ensures
        first_ci_match(choices, name, k) == -1,
    decreases choices.len() - k,
{
    if k < choices.len() {
        lemma_no_ci_match(choices, name, k + 1);
    }
}

/// With no current agent, or one that names no agent of the tab cycle
/// (ignoring ASCII case), cycling forward gives the first agent of the
/// cycle and cycling backward the last one.
pub proof fn law_cycle_starts_at_the_ends(
    agents: Seq<AgentOption>,
    current: Option<Seq<char>>,
    reverse: bool,
    j: int,
)
    requires
        0 <= j < agents.len(),
        agents[j].in_tab_cycle,
        !reverse ==> forall|k: int| 0 <= k < j ==> !(#[trigger] agents[k]).in_tab_cycle,
        reverse ==> forall|k: int| j < k < agents.len() ==> !(#[trigger] agents[k]).in_tab_cycle,
        match current {
            Some(name) => forall|k: int|
                0 <= k < agents.len() && (#[trigger] agents[k]).in_tab_cycle ==> !eq_ascii_ci(
                    agents[k].name@,
                    name,
                ),
            None => true,
        },
    ensures
        spec_next_agent(agents, current, reverse) == Some(agents[j].name@),
{
    let p = |a: AgentOption| a.in_tab_cycle;
    let choices = agents.filter(p);
    if reverse {
        lemma_filter_last(agents, p, j);
    } else {
        lemma_filter_first(agents, p, j);
    }
    let n = choices.len() as int;
    match current {
        Some(name) => {
            assert forall|i: int| 0 <= i < choices.len() implies !eq_ascii_ci(
                #[trigger] choices[i].name@,
                name,
            ) by {
                lemma_filter_from(agents, p, i);
                agents.lemma_filter_pred(p, i);
                let k = choose|k: int| 0 <= k < agents.len() && agents[k] == #[trigger] agents.filter(p)[i];
                assert(agents[k].in_tab_cycle);
            }
            lemma_no_ci_match(choices, name, 0);
        },
        None => {},
    }
    if reverse {
        assert((0 + n - 1) % n == n - 1) by (nonlinear_arith)
            requires n > 0;
    } else {
        assert((n - 1 + 1) % n == 0) by (nonlinear_arith)
            requires n > 0;
    }
}

pub fn next_agent(agents: &[AgentOption], current: Option<&str>, reverse: bool) -> (r: Option<String>)
    ensures
        r.is_some() == spec_next_agent(agents@, opt_view(current), reverse).is_some(),
        r.is_some() ==> r.unwrap()@ == spec_next_agent(agents@, opt_view(current), reverse).unwrap(),
{
    let ghost pred = |a: AgentOption| a.in_tab_cycle;
    let mut choices: Vec<&AgentOption> = Vec::new();
    let mut i: usize = 0;
    while i < agents.len()
        invariant
            i <= agents@.len(),
            pred == (|a: AgentOption| a.in_tab_cycle),
            choices@.map_values(|a: &AgentOption| *a) == agents@.take(i as int).filter(pred),
        decreases agents@.len() - i,
    {
        proof {
            reveal_with_fuel(Seq::filter, 1);
            assert(agents@.take(i + 1).drop_last() =~= agents@.take(i as int));
        }
        let ghost before = choices@.map_values(|a: &AgentOption| *a);
        if agents[i].in_tab_cycle {
            choices.push(&agents[i]);
            assert(choices@.map_values(|a: &AgentOption| *a) =~= before.push(agents@[i as int]));
        }
        i = i + 1;
    }
    assert(agents@.take(agents@.len() as int) =~= agents@);
    let ghost cs = agents@.filter(pred);
    let n = choices.len();
    if n == 0 {
        return None;
    }
    assert(forall|t: int| 0 <= t < n ==> (#[trigger] choices@[t]) == cs[t]) by {
        assert forall|t: int| 0 <= t < n implies (#[trigger] choices@[t]) == cs[t] by {
            assert(choices@.map_values(|a: &AgentOption| *a)[t] == *choices@[t]);
        }
    }
    let mut index: usize = if reverse { 0 } else { n - 1 };
    match current {
        Some(name) => {
            let mut k: usize = 0;
            let mut found = false;
            while k < n && !found
                invariant
                    n == choices@.len(),
                    n == cs.len(),
                    forall|t: int| 0 <= t < n ==> (#[trigger] choices@[t]) == cs[t],
                    k <= n,
                    found ==> index < n && first_ci_match(cs, name@, 0) == index as int,
                    !found ==> first_ci_match(cs, name@, 0) == first_ci_match(cs, name@, k as int),
                    !found ==> index == if reverse { 0 } else { n - 1 },
                decreases n - k + (if found { 0int } else { 1 }),
            {
                if eq_ignore_ascii_case(choices[k].name.as_str(), name) {
                    found = true;
                    index = k;
                } else {
                    k = k + 1;
                }
            }
            if !found {
                assert(first_ci_match(cs, name@, k as int) == -1);
            }
        },
        None => {},
    }
    let next = if reverse {
        if index == 0 { n - 1 } else { index - 1 }
    } else {
        (index + 1) % n
    };
    proof {
        if reverse {
            if index == 0 {
                vstd::arithmetic::div_mod::lemma_small_mod((n - 1) as nat, n as nat);
            } else {
                vstd::arithmetic::div_mod::lemma_mod_add_multiples_vanish(index - 1, n as int);
                vstd::arithmetic::div_mod::lemma_small_mod((index - 1) as nat, n as nat);
            }
        }
    }
    Some(choices[next].name.clone())
}

#[derive(Debug, Clone, PartialEq, Eq)]
pub enum Command {
    Agent(Option<String>),
    Agents,
    Model(Option<String>),
}

#[derive(Debug, Clone, PartialEq, Eq)]
pub enum PickerAction {
    SelectModel(String),
    SelectAgent(String),
    ToggleFavorite(String),
    RecordRecentModel(String),
    OpenAgents,
    OpenModels,
    Dismiss,
}

/// The typed command a line of input names, if it is exactly one of
/// `/agent [name]`, `/agents` or `/model [id]` (command matched ignoring
/// case, surrounding whitespace ignored).
pub open spec fn spec_parse_command(input: Seq<char>) -> Option<(Seq<char>, Option<Seq<char>>)> {
    let ws = words(input);
    if ws.len() == 0 || ws.len() > 2 {
        None
    } else {
        let command = lowercase(ws[0]);
        let arg = if ws.len() == 2 { Some(ws[1]) } else { None };
        if command == "/agent"@ || command == "/model"@ || (command == "/agents"@ && arg.is_none()) {
            Some((command, arg))
        } else {
            None
        }
    }
}

pub open spec fn command_view(c: Command) -> (Seq<char>, Option<Seq<char>>) {
    match c {
        Command::Agent(a) => ("/agent"@, opt_string_view(a)),
        Command::Agents => ("/agents"@, None),
        Command::Model(m) => ("/model"@, opt_string_view(m)),
    }
}

pub open spec fn opt_string_view(o: Option<String>) -> Option<Seq<char>> {
    match o {
        Some(s) => Some(s@),
        None => None,
    }
}

pub fn parse_command(input: &str) -> (r: Option<Command>)
    ensures
        match r {
            Some(c) => spec_parse_command(input@) == Some(command_view(c)),
            None => spec_parse_command(input@).is_none(),
        },
{
    let mut words_v = split_whitespace(input);
    let ghost ws = words(input@);
    assert(words_v@.len() == ws.len());
    if words_v.len() == 0 || words_v.len() > 2 {
        return None;
    }
    assert(words_v@[0]@ == ws[0]);
    let command = to_lowercase(words_v[0].as_str());
    let arg = if words_v.len() == 2 {
        assert(words_v@[1]@ == ws[1]);
        Some(words_v.pop().unwrap())
    } else {
        None
    };
    if str_eq(command.as_str(), "/agent") {
        Some(Command::Agent(arg))
    } else if str_eq(command.as_str(), "/agents") && arg.is_none() {
        Some(Command::Agents)
    } else if str_eq(command.as_str(), "/model") {
        Some(Command::Model(arg))
    } else {
        None
    }
}

/// The command being completed and its argument prefix: the first run of
/// non-whitespace after leading whitespace, and whatever follows the single
/// whitespace character after it, with leading whitespace removed.
pub open spec fn spec_command_parts(input: Seq<char>) -> (Seq<char>, Seq<char>) {
    let t = trim_start(input);
    let k = word_len(t) as int;
    (t.take(k), if k < t.len() { trim_start(t.skip(k + 1)) } else { Seq::empty() })
}

pub fn command_parts(input: &str) -> (r: Option<(&str, &str)>)
    ensures
        r.is_some(),
        r.unwrap().0@ == spec_command_parts(input@).0,
        r.unwrap().1@ == spec_command_parts(input@).1,
{
    let n = input.unicode_len();
    let start = trim_start_offset(input);
    let trimmed = input.substring_char(start, n);
    assert(trimmed@ =~= trim_start(input@));
    let m = trimmed.unicode_len();
    let mut k: usize = 0;
    while k < m && !is_whitespace(trimmed.get_char(k))
        invariant
            m == trimmed@.len(),
            k <= m,
            forall|j: int| 0 <= j < k ==> !is_ws(#[trigger] trimmed@[j]),
        decreases m - k,
    {
        k = k + 1;
    }
    proof {
        word_len_at(trimmed@, k as int);
    }
    let command = trimmed.substring_char(0, k);
    assert(command@ =~= trimmed@.take(k as int));
    if k < m {
        let rest = trimmed.substring_char(k + 1, m);
        assert(rest@ =~= trimmed@.skip(k + 1));
        let skip = trim_start_offset(rest);
        let argument = rest.substring_char(skip, rest.unicode_len());
        assert(argument@ =~= trim_start(rest@));
        Some((command, argument))
    } else {
        let argument = trimmed.substring_char(m, m);
        assert(argument@ =~= Seq::<char>::empty());
        Some((command, argument))
    }
}

proof fn word_len_at(s: Seq<char>, k: int)
    requires
        0 <= k <= s.len(),
        forall|j: int| 0 <= j < k ==> !is_ws(#[trigger] s[j]),
        k == s.len() || is_ws(s[k]),
    ensures
        word_len(s) == k,
    decreases k,
{
    if k > 0 {
        word_len_at(s.drop_first(), k - 1);
    }
}


pub open spec fn model_id(m: ModelOption) -> Seq<char> {
    m.id@
}

pub open spec fn agent_name(a: AgentOption) -> Seq<char> {
    a.name@
}

/// The ids of the models matching `prefix`, in picker order.
pub open spec fn model_suggestions(models: Seq<ModelOption>, prefix: Seq<char>, r: Seq<Seq<char>>) -> bool {
    exists|listed: Seq<ModelOption>|
        #[trigger] model_order(listed, spec_fuzzy_models(models, prefix))
            && r == listed.map_values(|m: ModelOption| model_id(m))
}

/// `c` when it starts with `prefix`, nothing otherwise.
pub open spec fn if_prefixed(c: Seq<char>, prefix: Seq<char>) -> Seq<Seq<char>> {
    if has_prefix(c, prefix) { seq![c] } else { seq![] }
}

/// Completions for a partially typed slash command: command names while
/// the command word is still being typed, otherwise agent names or model ids
/// that match the argument being typed.
pub open spec fn suggestions_ok(
    input: Seq<char>,
    agents: Seq<AgentOption>,
    models: Seq<ModelOption>,
    r: Seq<Seq<char>>,
) -> bool {
    let t = trim_start(input);
    let ws = words(t);
    let ends = t.len() > 0 && is_ws(t.last());
    if !(ws.len() > 1 || ends) {
        let prefix = lowercase(if ws.len() > 0 { ws[0] } else { Seq::empty() });
        r == if_prefixed("/agent"@, prefix) + if_prefixed("/agents"@, prefix) + if_prefixed("/model"@, prefix)
    } else {
        let prefix = if ends { Seq::empty() } else { lowercase(ws.last()) };
        let command = lowercase(ws[0]);
        if command == "/agent"@ {
            r == spec_search_agents(agents, prefix).map_values(|a: AgentOption| agent_name(a))
        } else if command == "/model"@ {
            model_suggestions(models, prefix, r)
        } else {
            r.len() == 0
        }
    }
}

fn push_if_prefixed(out: &mut Vec<String>, candidate: &str, prefix: &str)
    ensures
        texts(final(out)@) == texts(old(out)@) + if_prefixed(candidate@, prefix@),
{
    if starts_with(candidate, prefix) {
        out.push(owned(candidate));
    }
    assert(texts(final(out)@) =~= texts(old(out)@) + if_prefixed(candidate@, prefix@));
}

pub fn command_suggestions(input: &str, agents: &[AgentOption], models: &[ModelOption]) -> (r: Vec<String>)
    ensures
        suggestions_ok(input@, agents@, models@, texts(r@)),
{
    let start = trim_start_offset(input);
    let trimmed = input.substring_char(start, input.unicode_len());
    assert(trimmed@ =~= trim_start(input@));
    let words_v = split_whitespace(trimmed);
    let ghost ws = words(trimmed@);
    assert(words_v@.len() == ws.len());
    let m = trimmed.unicode_len();
    let ends = m > 0 && is_whitespace(trimmed.get_char(m - 1));
    if !(words_v.len() > 1 || ends) {
        let first = if words_v.len() > 0 {
            assert(words_v@[0]@ == ws[0]);
            to_lowercase(words_v[0].as_str())
        } else {
            let empty = String::new();
            to_lowercase(empty.as_str())
        };
        let mut out: Vec<String> = Vec::new();
        assert(texts(out@) =~= Seq::<Seq<char>>::empty());
        push_if_prefixed(&mut out, "/agent", first.as_str());
        push_if_prefixed(&mut out, "/agents", first.as_str());
        push_if_prefixed(&mut out, "/model", first.as_str());
        assert(texts(out@) =~= if_prefixed("/agent"@, first@) + if_prefixed("/agents"@, first@) + if_prefixed("/model"@, first@));
        return out;
    }
    let prefix = if ends {
        let e = String::new();
        assert(e@ =~= Seq::<char>::empty());
        e
    } else {
        let last = words_v.len() - 1;
        assert(words_v@[last as int]@ == ws.last());
        to_lowercase(words_v[last].as_str())
    };
    proof {
        crate::text::lemma_leading_ws_props(input@);
        assert(trimmed.len() > 0 ==> trimmed@[0] == input@[leading_ws(input@) as int]);
        crate::text::lemma_words_nonempty(trimmed@);
    }
    assert(words_v@[0]@ == ws[0]);
    let command = to_lowercase(words_v[0].as_str());
    let mut out: Vec<String> = Vec::new();
    if str_eq(command.as_str(), "/agent") {
        let found = search_agents(agents, prefix.as_str());
        let mut i: usize = 0;
        while i < found.len()
            invariant
                i <= found@.len(),
                texts(out@) == found@.take(i as int).map_values(|a: AgentOption| agent_name(a)),
            decreases found@.len() - i,
        {
            let ghost before = out@;
            out.push(found[i].name.clone());
            assert(texts(out@) =~= texts(before).push(found@[i as int].name@));
            assert(found@.take(i + 1) =~= found@.take(i as int).push(found@[i as int]));
            assert(found@.take(i + 1).map_values(|a: AgentOption| agent_name(a)) =~= found@.take(i as int).map_values(|a: AgentOption| agent_name(a)).push(found@[i as int].name@));
            i = i + 1;
        }
        assert(found@.take(found@.len() as int) =~= found@);
        assert(texts(out@) == found@.map_values(|a: AgentOption| agent_name(a)));
        assert(found@ == spec_search_agents(agents@, prefix@));
        assert(suggestions_ok(input@, agents@, models@, texts(out@)));
        out
    } else if str_eq(command.as_str(), "/model") {
        let found = fuzzy_models(models, prefix.as_str());
        let mut i: usize = 0;
        while i < found.len()
            invariant
                i <= found@.len(),
                texts(out@) == found@.take(i as int).map_values(|m: ModelOption| model_id(m)),
            decreases found@.len() - i,
        {
            let ghost before = out@;
            out.push(found[i].id.clone());
            assert(texts(out@) =~= texts(before).push(found@[i as int].id@));
            assert(found@.take(i + 1) =~= found@.take(i as int).push(found@[i as int]));
            assert(found@.take(i + 1).map_values(|m: ModelOption| model_id(m)) =~= found@.take(i as int).map_values(|m: ModelOption| model_id(m)).push(found@[i as int].id@));
            i = i + 1;
        }
        assert(found@.take(found@.len() as int) =~= found@);
        assert(model_order(found@, spec_fuzzy_models(models@, prefix@)));
        assert(texts(out@) == found@.map_values(|m: ModelOption| model_id(m)));
        assert(model_suggestions(models@, prefix@, texts(out@)));
        assert(suggestions_ok(input@, agents@, models@, texts(out@)));
        out
    } else {
        assert(texts(out@) =~= Seq::<Seq<char>>::empty());
        assert(suggestions_ok(input@, agents@, models@, texts(out@)));
        out
    }
}

/// The picker action a parsed command asks for.
pub fn command_action(command: Command) -> (r: Option<PickerAction>)
    ensures
        r == Some(match command {
            Command::Agent(Some(name)) => PickerAction::SelectAgent(name),
            Command::Agent(None) => PickerAction::OpenAgents,
            Command::Agents => PickerAction::OpenAgents,
            Command::Model(Some(id)) => PickerAction::SelectModel(id),
            Command::Model(None) => PickerAction::OpenModels,
        }),
{
    match command {
        Command::Agent(Some(name)) => Some(PickerAction::SelectAgent(name)),
        Command::Agent(None) | Command::Agents => Some(PickerAction::OpenAgents),
        Command::Model(Some(id)) => Some(PickerAction::SelectModel(id)),
        Command::Model(None) => Some(PickerAction::OpenModels),
    }
}

} // verus!
