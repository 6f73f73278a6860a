use vstd::prelude::*;

use crate::models::Notebook;
use vstd::string::StringExecFns;

verus! {

/// A point in time: seconds since the Unix epoch and the nanoseconds past that second
/// (a leap second is shown as nanoseconds from 1_000_000_000 on).
#[derive(Clone, Copy, PartialEq, Eq, Structural, Debug)]
pub struct Timestamp {
    pub secs: i64,
    pub nanos: u32,
}

/// The order of time stamps as one number.
pub open spec fn ts_key(t: Timestamp) -> int {
    t.secs * 4294967296 + t.nanos
}

/// `a` is strictly earlier than `b`.
pub fn ts_before(a: Timestamp, b: Timestamp) -> (r: bool)
    ensures
        r == (ts_key(a) < ts_key(b)),
{
    a.secs < b.secs || (a.secs == b.secs && a.nanos < b.nanos)
}

/// Calls `chrono::Local::now()` and reads it as seconds since the epoch and the
/// sub-second nanoseconds. The time is whatever the clock says; chrono documents the
/// nanoseconds to stay below 2_000_000_000 (above one billion only in a leap second).
#[verifier::external_body]
fn local_now() -> (t: Timestamp)
    ensures
        t.nanos < 2_000_000_000,
{
    let now = chrono::Local::now();
    Timestamp { secs: now.timestamp(), nanos: now.timestamp_subsec_nanos() }
}

/// The file name of a notebook: its identifier with the `.json` extension.
pub fn notebook_file_name(id: &str) -> (r: String)
    ensures
        r@ == id@ + ".json"@,
{
    let mut name = id.to_owned();
    name.append(".json");
    name
}

/// One entry of the notebook index.
pub struct NotebookMetadata {
    pub id: String,
    pub name: String,
    pub last_opened: Timestamp,
}

/// Abstract value of an index entry.
#[verifier::ext_equal]
pub struct MetaModel {
    pub id: Seq<char>,
    pub name: Seq<char>,
    pub last_opened: Timestamp,
}

impl View for NotebookMetadata {
    type V = MetaModel;

    open spec fn view(&self) -> MetaModel {
        MetaModel { id: self.id@, name: self.name@, last_opened: self.last_opened }
    }
}

impl Clone for NotebookMetadata {
    fn clone(&self) -> (r: Self)
        ensures
            r@ == self@,
    {
        NotebookMetadata {
            id: self.id.clone(),
            name: self.name.clone(),
            last_opened: self.last_opened,
        }
    }
}

pub open spec fn metas_model(s: Seq<NotebookMetadata>) -> Seq<MetaModel> {
    s.map_values(|m: NotebookMetadata| m@)
}

/// The index of known notebooks, most recently opened first.
pub struct StorageIndex {
    pub notebooks: Vec<NotebookMetadata>,
}

impl StorageIndex {
    pub open spec fn model(&self) -> Seq<MetaModel> {
        metas_model(self.notebooks@)
    }
}

impl Default for StorageIndex {
    fn default() -> (r: Self)
        ensures
            r.notebooks@.len() == 0,
    {
        StorageIndex { notebooks: Vec::new() }
    }
}

/// Some notebook in `found` carries identifier `id`.
pub open spec fn id_found(found: Seq<(Seq<char>, Seq<char>)>, id: Seq<char>) -> bool {
    exists|j: int| 0 <= j < found.len() && (#[trigger] found[j]).0 == id
}

/// The entries whose notebook still exists, in their order.
pub open spec fn retained(s: Seq<MetaModel>, found: Seq<(Seq<char>, Seq<char>)>) -> Seq<
    MetaModel,
> {
    s.filter(|m: MetaModel| id_found(found, m.id))
}

/// Position of the first entry with identifier `id`, searching from `from`.
pub open spec fn find_id(s: Seq<MetaModel>, id: Seq<char>, from: int) -> Option<int>
    decreases s.len() - from,
{
    if from < 0 || from >= s.len() {
        None
    } else if s[from].id == id {
        Some(from)
    } else {
        find_id(s, id, from + 1)
    }
}

/// One notebook file seen on disk: its entry gets the file's name, or a new entry is added
/// (opened `now`) when the index does not know it.
pub open spec fn merge_one(s: Seq<MetaModel>, nb: (Seq<char>, Seq<char>), now: Timestamp) -> Seq<
    MetaModel,
> {
    match find_id(s, nb.0, 0) {
        Some(i) => s.update(i, MetaModel { name: nb.1, ..s[i] }),
        None => s.push(MetaModel { id: nb.0, name: nb.1, last_opened: now }),
    }
}

/// All notebook files merged into the index, in the order they were found.
pub open spec fn merged(s: Seq<MetaModel>, found: Seq<(Seq<char>, Seq<char>)>, now: Timestamp) -> Seq<
    MetaModel,
>
    decreases found.len(),
{
    if found.len() == 0 {
        s
    } else {
        merge_one(merged(s, found.drop_last(), now), found.last(), now)
    }
}

/// `out` lists the entries of `input`, latest `last_opened` first, entries with equal time
/// stamps keeping their order (a stable sort, newest first).
pub open spec fn stably_sorted_newest_first(input: Seq<MetaModel>, out: Seq<MetaModel>) -> bool {
    exists|p: Seq<int>| is_sort_witness(input, out, p)
}

/// `p` maps each position of `out` to the position of `input` it came from.
pub open spec fn is_sort_witness(input: Seq<MetaModel>, out: Seq<MetaModel>, p: Seq<int>) -> bool {
    &&& out.len() == input.len()
    &&& p.len() == out.len()
    &&& forall|k: int| 0 <= k < p.len() ==> 0 <= #[trigger] p[k] < input.len()
    &&& forall|a: int, b: int| 0 <= a < b < p.len() ==> p[a] != p[b]
    &&& forall|k: int| 0 <= k < out.len() ==> #[trigger] out[k] == input[p[k]]
    &&& forall|a: int, b: int|
        0 <= a < b < out.len() ==> ts_key(out[a].last_opened) >= ts_key(out[b].last_opened)
    &&& forall|a: int, b: int|
        0 <= a < b < out.len() && ts_key(out[a].last_opened) == ts_key(out[b].last_opened)
            ==> p[a] < p[b]
}

/// The first entry with identifier `id` marked as opened at `now`.
pub open spec fn touched(s: Seq<MetaModel>, id: Seq<char>, now: Timestamp) -> Seq<MetaModel> {
    match find_id(s, id, 0) {
        Some(i) => s.update(i, MetaModel { last_opened: now, ..s[i] }),
        None => s,
    }
}

/// Identifiers and names of notebooks.
pub open spec fn id_names(nbs: Seq<Notebook>) -> Seq<(Seq<char>, Seq<char>)> {
    nbs.map_values(|n: Notebook| (n.id@, n.name@))
}

/// Sorts entries newest first; equal time stamps keep their order.
fn sort_newest_first(v: Vec<NotebookMetadata>) -> (out: Vec<NotebookMetadata>)
    ensures
        stably_sorted_newest_first(metas_model(v@), metas_model(out@)),
{
    let ghost input = metas_model(v@);
    let mut out: Vec<NotebookMetadata> = Vec::new();
    let ghost mut p: Seq<int> = Seq::empty();
    let mut i: usize = 0;
    while i < v.len()
        invariant
            input == metas_model(v@),
            i <= v.len(),
            out@.len() == i,
            p.len() == i,
            forall|k: int| 0 <= k < p.len() ==> 0 <= #[trigger] p[k] < i,
            forall|a: int, b: int| 0 <= a < b < p.len() ==> p[a] != p[b],
            forall|k: int| 0 <= k < out@.len() ==> #[trigger] out@[k]@ == input[p[k]],
            forall|a: int, b: int|
                0 <= a < b < out@.len() ==> ts_key(out@[a].last_opened) >= ts_key(
                    out@[b].last_opened,
                ),
            forall|a: int, b: int|
                0 <= a < b < out@.len() && ts_key(out@[a].last_opened) == ts_key(
                    out@[b].last_opened,
                ) ==> p[a] < p[b],
        decreases v.len() - i,
    {
        let x = v[i].clone();
        let mut pos: usize = 0;
        while pos < out.len() && !ts_before(out[pos].last_opened, x.last_opened)
            invariant
                pos <= out@.len(),
                forall|k: int|
                    0 <= k < pos ==> ts_key(#[trigger] out@[k].last_opened) >= ts_key(
                        x.last_opened,
                    ),
            decreases out.len() - pos,
        {
            pos = pos + 1;
        }
        proof {
            assert forall|k: int| pos <= k < out@.len() implies ts_key(
                #[trigger] out@[k].last_opened,
            ) < ts_key(x.last_opened) by {
                assert(ts_key(out@[pos as int].last_opened) < ts_key(x.last_opened));
                if k > pos {
                    assert(ts_key(out@[pos as int].last_opened) >= ts_key(out@[k].last_opened));
                }
            }
        }
        let ghost old_out = out@;
        let ghost old_p = p;
        out.insert(pos, x);
        proof {
            p = old_p.insert(pos as int, i as int);
            assert forall|k: int| 0 <= k < out@.len() implies #[trigger] out@[k]@ == input[p[k]] by {
                if k < pos {
                    assert(out@[k] == old_out[k]);
                } else if k > pos {
                    assert(out@[k] == old_out[k - 1]);
                }
            }
            assert forall|a: int, b: int| 0 <= a < b < p.len() implies p[a] != p[b] by {
                if a < pos && b > pos {
                    assert(p[b] == old_p[b - 1]);
                } else if a > pos {
                    assert(p[a] == old_p[a - 1]);
                    assert(p[b] == old_p[b - 1]);
                }
            }
            assert forall|a: int, b: int|
                0 <= a < b < out@.len() implies ts_key(out@[a].last_opened) >= ts_key(
                    out@[b].last_opened,
                ) by {
                if b < pos {
                } else if b == pos {
                } else if a == pos {
                    assert(out@[b] == old_out[b - 1]);
                } else if a < pos {
                    assert(out@[b] == old_out[b - 1]);
                } else {
                    assert(out@[a] == old_out[a - 1]);
                    assert(out@[b] == old_out[b - 1]);
                }
            }
            assert forall|a: int, b: int|
                0 <= a < b < out@.len() && ts_key(out@[a].last_opened) == ts_key(
                    out@[b].last_opened,
                ) implies p[a] < p[b] by {
                if b < pos {
                } else if b == pos {
                    assert(p[a] == old_p[a]);
                } else if a == pos {
                    assert(out@[b] == old_out[b - 1]);
                } else if a < pos {
                    assert(out@[b] == old_out[b - 1]);
                    assert(p[b] == old_p[b - 1]);
                } else {
                    assert(out@[a] == old_out[a - 1]);
                    assert(out@[b] == old_out[b - 1]);
                    assert(p[a] == old_p[a - 1]);
                    assert(p[b] == old_p[b - 1]);
                }
            }
        }
        i = i + 1;
    }
    proof {
        let om = metas_model(out@);
        assert forall|k: int| 0 <= k < om.len() implies #[trigger] om[k] == input[p[k]] by {
            assert(om[k] == out@[k]@);
        }
        assert(is_sort_witness(input, om, p));
    }
    out
}

impl StorageIndex {
    /// Brings the index in line with the notebook files found on disk (`found`, in the
    /// order they were read) at time `now`: entries whose file is gone are dropped, known
    /// files update their entry's name, new files are added as opened `now`; then the
    /// entries are sorted newest first.
    pub fn sync_with_at(&mut self, found: &Vec<Notebook>, now: Timestamp)
        ensures
            stably_sorted_newest_first(
                merged(retained(old(self).model(), id_names(found@)), id_names(found@), now),
                final(self).model(),
            ),
    {
        let ghost f = id_names(found@);
        // 1. Drop entries whose notebook file is gone.
        let mut kept: Vec<NotebookMetadata> = Vec::new();
        let mut i: usize = 0;
        let ghost src = self.model();
        proof {
            assert(retained(src.subrange(0, 0), f) =~= Seq::<MetaModel>::empty()) by {
                reveal_with_fuel(Seq::filter, 1);
            }
        }
        while i < self.notebooks.len()
            invariant
                src == self.model(),
                f == id_names(found@),
                i <= self.notebooks.len(),
                metas_model(kept@) =~= retained(src.subrange(0, i as int), f),
            decreases self.notebooks.len() - i,
        {
            let mut exists = false;
            let mut j: usize = 0;
            while j < found.len()
                invariant
                    f == id_names(found@),
                    j <= found.len(),
                    i < self.notebooks.len(),
                    exists == (exists|q: int| 0 <= q < j && (#[trigger] f[q]).0 == self.notebooks@[i as int].id@),
                decreases found.len() - j,
            {
                if found[j].id == self.notebooks[i].id {
                    exists = true;
                }
                proof {
                    assert(f[j as int] == (found@[j as int].id@, found@[j as int].name@));
                }
                j = j + 1;
            }
            let ghost before = kept@;
            if exists {
                kept.push(self.notebooks[i].clone());
            }
            proof {
                let s2 = src.subrange(0, i + 1);
                assert(s2.drop_last() =~= src.subrange(0, i as int));
                assert(s2.last() == self.notebooks@[i as int]@);
                assert(id_found(f, self.notebooks@[i as int]@.id) == exists);
                assert(s2.filter(|m: MetaModel| id_found(f, m.id)) == if exists {
                    s2.drop_last().filter(|m: MetaModel| id_found(f, m.id)).push(s2.last())
                } else {
                    s2.drop_last().filter(|m: MetaModel| id_found(f, m.id))
                }) by {
                    reveal_with_fuel(Seq::filter, 1);
                }
                if exists {
                    assert(metas_model(kept@) =~= metas_model(before).push(self.notebooks@[i as int]@));
                } else {
                    assert(metas_model(kept@) =~= metas_model(before));
                }
            }
            i = i + 1;
        }
        proof {
            assert(src.subrange(0, self.notebooks.len() as int) =~= src);
        }
        // 2. Rename known notebooks, add new ones.
        let ghost base = metas_model(kept@);
        let mut k: usize = 0;
        while k < found.len()
            invariant
                f == id_names(found@),
                k <= found.len(),
                metas_model(kept@) =~= merged(base, f.subrange(0, k as int), now),
            decreases found.len() - k,
        {
            let ghost cur = metas_model(kept@);
            let mut pos: usize = 0;
            while pos < kept.len() && kept[pos].id != found[k].id
                invariant
                    pos <= kept@.len(),
                    cur == metas_model(kept@),
                    k < found.len(),
                    find_id(cur, found@[k as int].id@, 0) == find_id(cur, found@[k as int].id@, pos as int),
                decreases kept.len() - pos,
            {
                proof {
                    assert(cur[pos as int] == kept@[pos as int]@);
                }
                pos = pos + 1;
            }
            proof {
                if pos < kept.len() {
                    assert(cur[pos as int] == kept@[pos as int]@);
                }
                assert(f[k as int] == (found@[k as int].id@, found@[k as int].name@));
                let fs = f.subrange(0, k + 1);
                assert(fs.drop_last() =~= f.subrange(0, k as int));
                assert(fs.last() == f[k as int]);
            }
            if pos < kept.len() {
                let mut m = kept[pos].clone();
                m.name = found[k].name.clone();
                kept.set(pos, m);
            } else {
                kept.push(
                    NotebookMetadata {
                        id: found[k].id.clone(),
                        name: found[k].name.clone(),
                        last_opened: now,
                    },
                );
            }
            proof {
                assert(metas_model(kept@) =~= merge_one(cur, f[k as int], now));
            }
            k = k + 1;
        }
        proof {
            assert(f.subrange(0, found.len() as int) =~= f);
        }
        // 3. Newest first.
        self.notebooks = sort_newest_first(kept);
    }

    /// `sync_with_at` at the current local time.
    pub fn sync_with(&mut self, found: &Vec<Notebook>)
        ensures
            exists|now: Timestamp|
                stably_sorted_newest_first(
                    #[trigger] merged(
                        retained(old(self).model(), id_names(found@)),
                        id_names(found@),
                        now,
                    ),
                    final(self).model(),
                ),
    {
        let now = local_now();
        self.sync_with_at(found, now);
    }

    /// Marks notebook `id` as opened at `now` and re-sorts the index newest first. Answers
    /// whether the index knows the notebook (nothing changes otherwise).
    pub fn touch_at(&mut self, id: &String, now: Timestamp) -> (known: bool)
        ensures
            known == find_id(old(self).model(), id@, 0) is Some,
            !known ==> final(self).model() == old(self).model(),
            known ==> stably_sorted_newest_first(
                touched(old(self).model(), id@, now),
                final(self).model(),
            ),
    {
        let ghost cur = self.model();
        let mut pos: usize = 0;
        while pos < self.notebooks.len() && self.notebooks[pos].id != *id
            invariant
                pos <= self.notebooks@.len(),
                cur == self.model(),
                find_id(cur, id@, 0) == find_id(cur, id@, pos as int),
            decreases self.notebooks.len() - pos,
        {
            proof {
                assert(cur[pos as int] == self.notebooks@[pos as int]@);
            }
            pos = pos + 1;
        }
        if pos == self.notebooks.len() {
            return false;
        }
        proof {
            assert(cur[pos as int] == self.notebooks@[pos as int]@);
        }
        let mut v: Vec<NotebookMetadata> = Vec::new();
        std::mem::swap(&mut v, &mut self.notebooks);
        let mut m = v[pos].clone();
        m.last_opened = now;
        v.set(pos, m);
        proof {
            assert(metas_model(v@) =~= cur.update(pos as int, MetaModel { last_opened: now, ..cur[pos as int] }));
        }
        self.notebooks = sort_newest_first(v);
        true
    }

    /// `touch_at` at the current local time.
    pub fn touch(&mut self, id: &String) -> (known: bool)
        ensures
            known == find_id(old(self).model(), id@, 0) is Some,
            !known ==> final(self).model() == old(self).model(),
            known ==> exists|now: Timestamp|
                stably_sorted_newest_first(
                    #[trigger] touched(old(self).model(), id@, now),
                    final(self).model(),
                ),
    {
        let now = local_now();
        self.touch_at(id, now)
    }
}

/// Some entry of `s` carries identifier `id`.
pub open spec fn has_entry(s: Seq<MetaModel>, id: Seq<char>) -> bool {
    exists|k: int| 0 <= k < s.len() && (#[trigger] s[k]).id == id
}

/// Position `j` is the image of some position under `p`.
spec fn position_used(p: Seq<int>, j: int) -> bool {
    exists|k: int| 0 <= k < p.len() && #[trigger] p[k] == j
}

/// A sort witness uses every position of its input: the sorted entries are a permutation.
proof fn lemma_witness_onto(input: Seq<MetaModel>, out: Seq<MetaModel>, p: Seq<int>)
    requires
        is_sort_witness(input, out, p),
    ensures
        forall|j: int| 0 <= j < input.len() ==> #[trigger] position_used(p, j),
{
    let n = input.len() as int;
    assert(p.no_duplicates());
    p.unique_seq_to_set();
    vstd::set_lib::lemma_int_range(0, n);
    let r = vstd::set_lib::set_int_range(0, n);
    assert(p.to_set().subset_of(r)) by {
        assert forall|a: int| p.to_set().contains(a) implies r.contains(a) by {
            let k = choose|k: int| 0 <= k < p.len() && p[k] == a;
        }
    }
    vstd::set_lib::lemma_len_subset(p.to_set(), r);
    vstd::set_lib::lemma_subset_equality(p.to_set(), r);
    assert forall|j: int| 0 <= j < n implies #[trigger] position_used(p, j) by {
        assert(r.contains(j));
        assert(p.to_set().contains(j));
    }
}

/// `find_id` answers a position of an entry with that identifier.
proof fn lemma_find_id(s: Seq<MetaModel>, id: Seq<char>, from: int)
    requires
        0 <= from,
    ensures
        find_id(s, id, from) matches Some(i) ==> from <= i < s.len() && s[i].id == id,
        find_id(s, id, from) is None ==> forall|k: int| from <= k < s.len() ==> s[k].id != id,
    decreases s.len() - from,
{
    if from < s.len() && s[from].id != id {
        lemma_find_id(s, id, from + 1);
    }
}

/// Opening a notebook puts it first in the index: once its entry is marked as opened at a
/// time later than every entry's, the sorted index starts with it.
pub proof fn law_opened_notebook_first(s: Seq<MetaModel>, id: Seq<char>, now: Timestamp, out: Seq<MetaModel>)
    requires
        find_id(s, id, 0) is Some,
        forall|k: int| 0 <= k < s.len() ==> ts_key(#[trigger] s[k].last_opened) < ts_key(now),
        stably_sorted_newest_first(touched(s, id, now), out),
    ensures
        out.len() > 0,
        out[0].id == id,
        out[0].last_opened == now,
{
    lemma_find_id(s, id, 0);
    let i = find_id(s, id, 0)->0;
    let t = touched(s, id, now);
    let p = choose|p: Seq<int>| is_sort_witness(t, out, p);
    lemma_witness_onto(t, out, p);
    assert(position_used(p, i));
    let b = choose|k: int| 0 <= k < p.len() && #[trigger] p[k] == i;
    assert(out[b] == t[i]);
    if p[0] != i {
        assert(out[0] == t[p[0]]);
        assert(ts_key(out[0].last_opened) < ts_key(now));
        assert(b > 0);
        assert(ts_key(out[0].last_opened) >= ts_key(out[b].last_opened));
    }
}

/// Every entry merged in is a notebook found on disk, given that the entries merged into
/// were.
proof fn lemma_merged_found(
    s0: Seq<MetaModel>,
    f: Seq<(Seq<char>, Seq<char>)>,
    now: Timestamp,
    all: Seq<(Seq<char>, Seq<char>)>,
)
    requires
        forall|k: int| 0 <= k < s0.len() ==> id_found(all, #[trigger] s0[k].id),
        forall|j: int| 0 <= j < f.len() ==> id_found(all, #[trigger] f[j].0),
    ensures
        forall|k: int|
            0 <= k < merged(s0, f, now).len() ==> id_found(all, #[trigger] merged(s0, f, now)[k].id),
    decreases f.len(),
{
    if f.len() > 0 {
        let g = f.drop_last();
        assert forall|j: int| 0 <= j < g.len() implies id_found(all, #[trigger] g[j].0) by {
            assert(g[j] == f[j]);
        }
        lemma_merged_found(s0, g, now, all);
        let m = merged(s0, g, now);
        lemma_find_id(m, f.last().0, 0);
        assert(id_found(all, f[f.len() - 1].0));
    }
}

/// Every notebook found on disk has an entry after merging, and entries already there stay
/// at their positions with their identifiers.
proof fn lemma_merged_lists_found(s0: Seq<MetaModel>, f: Seq<(Seq<char>, Seq<char>)>, now: Timestamp)
    ensures
        merged(s0, f, now).len() >= s0.len(),
        forall|k: int| 0 <= k < s0.len() ==> (#[trigger] merged(s0, f, now)[k]).id == s0[k].id,
        forall|j: int| 0 <= j < f.len() ==> has_entry(merged(s0, f, now), #[trigger] f[j].0),
    decreases f.len(),
{
    if f.len() > 0 {
        let g = f.drop_last();
        lemma_merged_lists_found(s0, g, now);
        let m = merged(s0, g, now);
        let r = merged(s0, f, now);
        lemma_find_id(m, f.last().0, 0);
        assert(r == merge_one(m, f.last(), now));
        assert(r.len() >= m.len());
        assert forall|k: int| 0 <= k < m.len() implies (#[trigger] r[k]).id == m[k].id by {}
        assert forall|j: int| 0 <= j < f.len() implies has_entry(r, #[trigger] f[j].0) by {
            if j == f.len() - 1 {
                match find_id(m, f.last().0, 0) {
                    Some(i) => {
                        assert(r[i].id == f[j].0);
                    },
                    None => {
                        assert(r[m.len() as int].id == f[j].0);
                    },
                }
            } else {
                assert(g[j] == f[j]);
                assert(has_entry(m, g[j].0));
                let k = choose|k: int| 0 <= k < m.len() && (#[trigger] m[k]).id == g[j].0;
                assert(r[k].id == f[j].0);
            }
        }
    }
}

/// After a sync the index lists exactly the notebooks found on disk: every entry is a found
/// notebook, and every found notebook has an entry.
pub proof fn law_sync_lists_found(
    s: Seq<MetaModel>,
    found: Seq<(Seq<char>, Seq<char>)>,
    now: Timestamp,
    out: Seq<MetaModel>,
)
    requires
        stably_sorted_newest_first(merged(retained(s, found), found, now), out),
    ensures
        forall|k: int| 0 <= k < out.len() ==> id_found(found, #[trigger] out[k].id),
        forall|j: int| 0 <= j < found.len() ==> has_entry(out, #[trigger] found[j].0),
{
    let kept = retained(s, found);
    let m = merged(kept, found, now);
    assert forall|k: int| 0 <= k < kept.len() implies id_found(found, #[trigger] kept[k].id) by {
        s.lemma_filter_pred(|x: MetaModel| id_found(found, x.id), k);
    }
    assert forall|j: int| 0 <= j < found.len() implies id_found(found, #[trigger] found[j].0) by {}
    lemma_merged_found(kept, found, now, found);
    lemma_merged_lists_found(kept, found, now);
    let p = choose|p: Seq<int>| is_sort_witness(m, out, p);
    lemma_witness_onto(m, out, p);
    assert forall|k: int| 0 <= k < out.len() implies id_found(found, #[trigger] out[k].id) by {
        assert(out[k] == m[p[k]]);
    }
    assert forall|j: int| 0 <= j < found.len() implies has_entry(out, #[trigger] found[j].0) by {
        assert(has_entry(m, found[j].0));
        let q = choose|q: int| 0 <= q < m.len() && (#[trigger] m[q]).id == found[j].0;
        assert(position_used(p, q));
        let b = choose|b: int| 0 <= b < p.len() && #[trigger] p[b] == q;
        assert(out[b] == m[q]);
    }
}

/// No two entries share an identifier.
pub open spec fn ids_distinct(s: Seq<MetaModel>) -> bool {
    forall|i: int, j: int| 0 <= i < j < s.len() ==> s[i].id != s[j].id
}

/// The name of the last notebook found with identifier `id`.
pub open spec fn last_found_name(found: Seq<(Seq<char>, Seq<char>)>, id: Seq<char>) -> Seq<char>
    decreases found.len(),
{
    if found.len() == 0 {
        Seq::empty()
    } else if found.last().0 == id {
        found.last().1
    } else {
        last_found_name(found.drop_last(), id)
    }
}

/// The kept entries are entries of the index, so they keep distinct identifiers.
proof fn lemma_retained_distinct(s: Seq<MetaModel>, found: Seq<(Seq<char>, Seq<char>)>)
    requires
        ids_distinct(s),
    ensures
        ids_distinct(retained(s, found)),
        forall|k: int| 0 <= k < retained(s, found).len() ==> s.contains(#[trigger] retained(s, found)[k]),
    decreases s.len(),
{
    reveal_with_fuel(Seq::filter, 1);
    if s.len() > 0 {
        let init = s.drop_last();
        assert(ids_distinct(init));
        lemma_retained_distinct(init, found);
        let r0 = retained(init, found);
        let r = retained(s, found);
        assert(r0 =~= init.filter(|m: MetaModel| id_found(found, m.id)));
        assert forall|k: int| 0 <= k < r.len() implies s.contains(#[trigger] r[k]) by {
            if k < r0.len() {
                assert(r[k] == r0[k]);
                let i = choose|i: int| 0 <= i < init.len() && init[i] == r0[k];
                assert(s[i] == init[i]);
            } else {
                assert(r[k] == s.last());
                assert(s[s.len() - 1] == s.last());
            }
        }
        assert forall|i: int, j: int| 0 <= i < j < r.len() implies r[i].id != r[j].id by {
            if j >= r0.len() {
                assert(r[j] == s.last());
                assert(r[i] == r0[i]);
                assert(init.contains(r0[i]));
                let q = choose|q: int| 0 <= q < init.len() && init[q] == r0[i];
                assert(s[q] == init[q]);
                assert(s[s.len() - 1] == s.last());
            } else {
                assert(r[i] == r0[i] && r[j] == r0[j]);
            }
        }
    }
}

/// Merging keeps identifiers distinct, and gives every entry of a found notebook the name of
/// the last file found with its identifier.
proof fn lemma_merged_names(s0: Seq<MetaModel>, f: Seq<(Seq<char>, Seq<char>)>, now: Timestamp)
    requires
        ids_distinct(s0),
    ensures
        ids_distinct(merged(s0, f, now)),
        forall|k: int|
            0 <= k < merged(s0, f, now).len() && id_found(f, #[trigger] merged(s0, f, now)[k].id)
                ==> merged(s0, f, now)[k].name == last_found_name(f, merged(s0, f, now)[k].id),
    decreases f.len(),
{
    if f.len() > 0 {
        let g = f.drop_last();
        let x = f.last();
        lemma_merged_names(s0, g, now);
        let m = merged(s0, g, now);
        let r = merged(s0, f, now);
        lemma_find_id(m, x.0, 0);
        assert(r == merge_one(m, x, now));
        assert forall|id: Seq<char>| id != x.0 implies (id_found(f, id) == id_found(g, id)
            && last_found_name(f, id) == last_found_name(g, id)) by {
            if id_found(f, id) {
                let j = choose|j: int| 0 <= j < f.len() && (#[trigger] f[j]).0 == id;
                assert(j < g.len());
                assert(g[j] == f[j]);
            }
            if id_found(g, id) {
                let j = choose|j: int| 0 <= j < g.len() && (#[trigger] g[j]).0 == id;
                assert(f[j] == g[j]);
            }
        }
        assert(last_found_name(f, x.0) == x.1);
        match find_id(m, x.0, 0) {
            Some(i) => {
                assert forall|a: int, b: int| 0 <= a < b < r.len() implies r[a].id != r[b].id by {
                    assert(r[a].id == m[a].id && r[b].id == m[b].id);
                }
                assert forall|k: int|
                    0 <= k < r.len() && id_found(f, #[trigger] r[k].id) implies r[k].name
                    == last_found_name(f, r[k].id) by {
                    if k != i {
                        assert(r[k] == m[k]);
                        assert(m[k].id != m[i].id);
                    }
                }
            },
            None => {
                assert forall|a: int, b: int| 0 <= a < b < r.len() implies r[a].id != r[b].id by {
                    if b == m.len() {
                        assert(r[a] == m[a]);
                    } else {
                        assert(r[a] == m[a] && r[b] == m[b]);
                    }
                }
                assert forall|k: int|
                    0 <= k < r.len() && id_found(f, #[trigger] r[k].id) implies r[k].name
                    == last_found_name(f, r[k].id) by {
                    if k < m.len() {
                        assert(r[k] == m[k]);
                    }
                }
            },
        }
    }
}

/// After a sync no notebook is listed twice, and each entry carries the name found in its
/// notebook's file (the last file read, should two files carry one identifier), provided
/// the index listed no notebook twice before.
pub proof fn law_sync_names_from_disk(
    s: Seq<MetaModel>,
    found: Seq<(Seq<char>, Seq<char>)>,
    now: Timestamp,
    out: Seq<MetaModel>,
)
    requires
        ids_distinct(s),
        stably_sorted_newest_first(merged(retained(s, found), found, now), out),
    ensures
        ids_distinct(out),
        forall|k: int| 0 <= k < out.len() ==> (#[trigger] out[k]).name == last_found_name(found, out[k].id),
{
    let kept = retained(s, found);
    lemma_retained_distinct(s, found);
    lemma_merged_names(kept, found, now);
    law_sync_lists_found(s, found, now, out);
    let m = merged(kept, found, now);
    let p = choose|p: Seq<int>| is_sort_witness(m, out, p);
    assert forall|a: int, b: int| 0 <= a < b < out.len() implies out[a].id != out[b].id by {
        assert(out[a] == m[p[a]] && out[b] == m[p[b]]);
        assert(p[a] != p[b]);
        if p[a] > p[b] {
            assert(m[p[b]].id != m[p[a]].id);
        }
    }
    assert forall|k: int| 0 <= k < out.len() implies (#[trigger] out[k]).name == last_found_name(
        found,
        out[k].id,
    ) by {
        assert(out[k] == m[p[k]]);
        assert(id_found(found, out[k].id));
    }
}

} // verus!
