use vstd::prelude::*;
use vstd::seq_lib::{to_multiset_contains, to_multiset_insert, to_multiset_remove};

use crate::names::{
    lemma_name_le_reflexive, lemma_name_le_total, lemma_name_le_transitive, name_le, names_in_order,
};

verus! {

/// An item that is ordered by a name.
pub trait Named {
    spec fn name_view(&self) -> Seq<char>;

    fn name(&self) -> (r: &String)
        ensures
            r@ == self.name_view(),
    ;
}

/// A loaded file: its file name and what parsing it gave.
impl<T> Named for (String, T) {
    open spec fn name_view(&self) -> Seq<char> {
        self.0@
    }

    fn name(&self) -> (r: &String) {
        &self.0
    }
}

/// The first `n` items are in ascending order of their names.
pub open spec fn sorted_prefix<T: Named>(s: Seq<T>, n: int) -> bool {
    forall|i: int, j: int|
        0 <= i < j < n ==> name_le(#[trigger] s[i].name_view(), #[trigger] s[j].name_view())
}

pub open spec fn sorted_by_name<T: Named>(s: Seq<T>) -> bool {
    sorted_prefix(s, s.len() as int)
}

/// `after[k]` is `before[perm[k]]`, where `perm` takes each position once,
/// and items of equal names keep their order.
pub open spec fn stable_reordering<T: Named>(before: Seq<T>, after: Seq<T>, perm: Seq<int>) -> bool {
    &&& perm.len() == before.len()
    &&& after.len() == before.len()
    &&& forall|k: int|
        0 <= k < perm.len() ==> 0 <= #[trigger] perm[k] < before.len() && after[k] == before[perm[k]]
    &&& forall|a: int, b: int| 0 <= a < b < perm.len() ==> #[trigger] perm[a] != #[trigger] perm[b]
    &&& forall|a: int, b: int|
        0 <= a < b < perm.len() && (#[trigger] after[a]).name_view() == (#[trigger] after[b]).name_view()
            ==> perm[a] < perm[b]
}

/// One step of the insertion sort: taking the item at `i` out and putting it
/// back at `p`, behind every item of its name, keeps the reordering stable.
proof fn lemma_insertion_keeps_order<T: Named>(
    orig: Seq<T>,
    before: Seq<T>,
    perm: Seq<int>,
    i: int,
    p: int,
)
    requires
        stable_reordering(orig, before, perm),
        forall|k: int| i <= k < perm.len() ==> #[trigger] perm[k] == k,
        forall|k: int| 0 <= k < i ==> #[trigger] perm[k] < i,
        0 <= p <= i < before.len(),
        sorted_prefix(before, i),
        forall|k: int|
            0 <= k < p ==> name_le(#[trigger] before[k].name_view(), before[i].name_view()),
        p < i ==> !name_le(before[p].name_view(), before[i].name_view()),
    ensures
        ({
            let np = perm.remove(i).insert(p, i);
            let after = before.remove(i).insert(p, before[i]);
            &&& stable_reordering(orig, after, np)
            &&& forall|k: int| i + 1 <= k < np.len() ==> #[trigger] np[k] == k
            &&& forall|k: int| 0 <= k < i + 1 ==> #[trigger] np[k] < i + 1
        }),
{
    let n = before.len() as int;
    let np = perm.remove(i).insert(p, i);
    let rest = before.remove(i);
    let after = rest.insert(p, before[i]);
    assert(np.len() == n && after.len() == n);
    assert forall|k: int| 0 <= k < n implies 0 <= #[trigger] np[k] < n && after[k] == orig[np[k]]
        && (i + 1 <= k ==> np[k] == k) && (k < i + 1 ==> np[k] < i + 1) by {
        if k < p {
            assert(np[k] == perm[k] && after[k] == before[k]);
        } else if k == p {
            assert(np[k] == i && after[k] == before[i]);
        } else if k <= i {
            assert(np[k] == perm[k - 1] && after[k] == before[k - 1]);
        } else {
            assert(np[k] == perm[k] && after[k] == before[k]);
        }
    }
    assert forall|a: int, b: int| 0 <= a < b < n implies #[trigger] np[a] != #[trigger] np[b] && (
    after[a].name_view() == after[b].name_view() ==> np[a] < np[b]) by {
        let pa = if a < p {
            a
        } else if a == p {
            i
        } else if a <= i {
            a - 1
        } else {
            a
        };
        let pb = if b < p {
            b
        } else if b == p {
            i
        } else if b <= i {
            b - 1
        } else {
            b
        };
        assert(after[a] == before[pa] && after[b] == before[pb]);
        if a != p && b != p {
            assert(np[a] == perm[pa] && np[b] == perm[pb]);
            assert(pa < pb);
        } else if a == p {
            assert(np[a] == i);
            if b <= i {
                assert(np[b] == perm[b - 1]);
                assert(perm[b - 1] < i);
                if after[a].name_view() == after[b].name_view() {
                    if b - 1 > p {
                        assert(name_le(before[p].name_view(), before[b - 1].name_view()));
                    } else {
                        lemma_name_le_reflexive(before[p].name_view());
                    }
                }
            } else {
                assert(np[b] == b);
            }
        } else {
            assert(np[b] == i && np[a] == perm[a]);
            assert(perm[a] < i);
        }
    }
}

/// `after` holds the items of `before`, sorted by name, with items of equal
/// names in their order in `before`.
pub open spec fn stably_sorted_from<T: Named>(before: Seq<T>, after: Seq<T>) -> bool {
    &&& sorted_by_name(after)
    &&& exists|perm: Seq<int>| #[trigger] stable_reordering(before, after, perm)
}

/// Sorts items by name, ascending. The sort is stable: items with equal names
/// keep their order.
pub fn sort_by_name<T: Named>(v: &mut Vec<T>)
    ensures
        sorted_by_name(final(v)@),
        final(v)@.to_multiset() == old(v)@.to_multiset(),
        stably_sorted_from(old(v)@, final(v)@),
{
    let ghost mut perm: Seq<int> = Seq::new(v@.len(), |k: int| k);
    let n = v.len();
    let mut i: usize = 0;
    while i < n
        invariant
            n == v@.len(),
            i <= n,
            sorted_prefix(v@, i as int),
            v@.to_multiset() == old(v)@.to_multiset(),
            stable_reordering(old(v)@, v@, perm),
            forall|k: int| i <= k < n ==> #[trigger] perm[k] == k,
            forall|k: int| 0 <= k < i ==> #[trigger] perm[k] < i,
        decreases n - i,
    {
        let ghost before = v@;
        let x = v.remove(i);
        let ghost rest = v@;
        assert(rest == before.remove(i as int));
        assert(forall|k: int| 0 <= k < i ==> rest[k] == before[k]);
        let mut p: usize = 0;
        let mut placed = false;
        while p < i && !placed
            invariant
                i < n,
                v@ == rest,
                rest.len() == n - 1,
                p <= i,
                forall|k: int| 0 <= k < p ==> name_le(#[trigger] rest[k].name_view(), x.name_view()),
                placed ==> p < i && !name_le(rest[p as int].name_view(), x.name_view()),
            decreases i - p + (if placed { 0int } else { 1int }),
        {
            if names_in_order(v[p].name(), x.name()) {
                p = p + 1;
            } else {
                placed = true;
            }
        }
        proof {
            if p < i {
                lemma_name_le_total(rest[p as int].name_view(), x.name_view());
            }
        }
        v.insert(p, x);
        proof {
            let after = v@;
            assert(after == rest.insert(p as int, x));
            assert forall|a: int, b: int| 0 <= a < b < i + 1 implies name_le(
                #[trigger] after[a].name_view(),
                #[trigger] after[b].name_view(),
            ) by {
                if b < p {
                    assert(before[a] == after[a] && before[b] == after[b]);
                } else if b == p {
                    assert(after[a] == rest[a]);
                } else if a < p {
                    assert(after[a] == before[a] && after[b] == before[b - 1]);
                } else if a == p {
                    assert(after[b] == before[b - 1]);
                    assert(rest[p as int] == before[p as int]);
                    if b - 1 > p {
                        assert(name_le(before[p as int].name_view(), before[b - 1].name_view()));
                    } else {
                        lemma_name_le_reflexive(before[p as int].name_view());
                    }
                    lemma_name_le_transitive(
                        x.name_view(),
                        rest[p as int].name_view(),
                        after[b].name_view(),
                    );
                } else {
                    assert(after[a] == before[a - 1] && after[b] == before[b - 1]);
                }
            }
            let np = perm.remove(i as int).insert(p as int, i as int);
            lemma_insertion_keeps_order(old(v)@, before, perm, i as int, p as int);
            perm = np;
            to_multiset_contains(before, x);
            assert(before[i as int] == x);
            to_multiset_remove(before, i as int);
            to_multiset_insert(rest, p as int, x);
            assert(after.to_multiset() =~= before.to_multiset());
        }
        i = i + 1;
    }
}

/// The files of one directory, each kept with what parsing it gave, so that a
/// file that failed to parse stays listed beside the ones that parsed. Each
/// type parameter is the parse result of one file format.
pub struct ModFolder<Adj, Anim, Hlpb, Matl, Mesh, Modl, Nutexb, Skel> {
    pub folder_name: String,
    pub adjs: Vec<(String, Adj)>,
    pub anims: Vec<(String, Anim)>,
    pub hlpbs: Vec<(String, Hlpb)>,
    pub matls: Vec<(String, Matl)>,
    pub meshes: Vec<(String, Mesh)>,
    pub modls: Vec<(String, Modl)>,
    pub nutexbs: Vec<(String, Nutexb)>,
    pub skels: Vec<(String, Skel)>,
}

impl<Adj, Anim, Hlpb, Matl, Mesh, Modl, Nutexb, Skel> Named for ModFolder<
    Adj,
    Anim,
    Hlpb,
    Matl,
    Mesh,
    Modl,
    Nutexb,
    Skel,
> {
    open spec fn name_view(&self) -> Seq<char> {
        self.folder_name@
    }

    fn name(&self) -> (r: &String) {
        &self.folder_name
    }
}

/// Every file list of the folder is in ascending order of file names.
pub open spec fn files_sorted<Adj, Anim, Hlpb, Matl, Mesh, Modl, Nutexb, Skel>(
    f: ModFolder<Adj, Anim, Hlpb, Matl, Mesh, Modl, Nutexb, Skel>,
) -> bool {
    &&& sorted_by_name(f.adjs@)
    &&& sorted_by_name(f.anims@)
    &&& sorted_by_name(f.hlpbs@)
    &&& sorted_by_name(f.matls@)
    &&& sorted_by_name(f.meshes@)
    &&& sorted_by_name(f.modls@)
    &&& sorted_by_name(f.nutexbs@)
    &&& sorted_by_name(f.skels@)
}

/// `b` is `a` with the same name and each file list stably sorted by file
/// name.
pub open spec fn files_sorted_from<Adj, Anim, Hlpb, Matl, Mesh, Modl, Nutexb, Skel>(
    a: ModFolder<Adj, Anim, Hlpb, Matl, Mesh, Modl, Nutexb, Skel>,
    b: ModFolder<Adj, Anim, Hlpb, Matl, Mesh, Modl, Nutexb, Skel>,
) -> bool {
    &&& b.folder_name == a.folder_name
    &&& stably_sorted_from(a.adjs@, b.adjs@)
    &&& stably_sorted_from(a.anims@, b.anims@)
    &&& stably_sorted_from(a.hlpbs@, b.hlpbs@)
    &&& stably_sorted_from(a.matls@, b.matls@)
    &&& stably_sorted_from(a.meshes@, b.meshes@)
    &&& stably_sorted_from(a.modls@, b.modls@)
    &&& stably_sorted_from(a.nutexbs@, b.nutexbs@)
    &&& stably_sorted_from(a.skels@, b.skels@)
}

/// Sorts every file list of one folder by file name.
pub fn sort_folder_files<Adj, Anim, Hlpb, Matl, Mesh, Modl, Nutexb, Skel>(
    f: &mut ModFolder<Adj, Anim, Hlpb, Matl, Mesh, Modl, Nutexb, Skel>,
)
    ensures
        files_sorted(*final(f)),
        files_sorted_from(*old(f), *final(f)),
{
    sort_by_name(&mut f.adjs);
    sort_by_name(&mut f.anims);
    sort_by_name(&mut f.hlpbs);
    sort_by_name(&mut f.matls);
    sort_by_name(&mut f.meshes);
    sort_by_name(&mut f.modls);
    sort_by_name(&mut f.nutexbs);
    sort_by_name(&mut f.skels);
}

/// Orders folders by name and, within each folder, every file list by file
/// name, so that the listing does not depend on the order of loading.
pub fn sort_files<Adj, Anim, Hlpb, Matl, Mesh, Modl, Nutexb, Skel>(
    models: &mut Vec<ModFolder<Adj, Anim, Hlpb, Matl, Mesh, Modl, Nutexb, Skel>>,
)
    ensures
        sorted_by_name(final(models)@),
        forall|i: int| 0 <= i < final(models)@.len() ==> files_sorted(#[trigger] final(models)@[i]),
        exists|reordered: Seq<ModFolder<Adj, Anim, Hlpb, Matl, Mesh, Modl, Nutexb, Skel>>|
            {
                &&& #[trigger] stably_sorted_from(old(models)@, reordered)
                &&& reordered.len() == final(models)@.len()
                &&& forall|i: int|
                    0 <= i < reordered.len() ==> files_sorted_from(
                        #[trigger] reordered[i],
                        final(models)@[i],
                    )
            },
{
    sort_by_name(models);
    let ghost reordered = models@;
    let n = models.len();
    let mut i: usize = 0;
    while i < n
        invariant
            n == models@.len(),
            n == reordered.len(),
            i <= n,
            sorted_by_name(reordered),
            forall|k: int| 0 <= k < i ==> files_sorted(#[trigger] models@[k]),
            forall|k: int| 0 <= k < i ==> files_sorted_from(#[trigger] reordered[k], models@[k]),
            forall|k: int| i <= k < n ==> #[trigger] models@[k] == reordered[k],
        decreases n - i,
    {
        sort_folder_files(&mut models[i]);
        i = i + 1;
    }
    assert forall|a: int, b: int| 0 <= a < b < models@.len() implies name_le(
        #[trigger] models@[a].name_view(),
        #[trigger] models@[b].name_view(),
    ) by {
        assert(files_sorted_from(reordered[a], models@[a]));
        assert(files_sorted_from(reordered[b], models@[b]));
        assert(name_le(reordered[a].name_view(), reordered[b].name_view()));
    }
}

/// Which animation of which folder a slot plays.
#[derive(Debug, Clone, Copy, PartialEq, Eq, Structural)]
pub struct AnimationIndex {
    pub folder_index: usize,
    pub anim_index: usize,
}

impl AnimationIndex {
    /// Looks up the animation file that this index refers to; `None` when
    /// either index is out of range.
    pub fn get_animation<'a, Adj, Anim, Hlpb, Matl, Mesh, Modl, Nutexb, Skel>(
        &self,
        models: &'a [ModFolder<Adj, Anim, Hlpb, Matl, Mesh, Modl, Nutexb, Skel>],
    ) -> (r: Option<&'a (String, Anim)>)
        ensures
            r.is_some() <==> (self.folder_index < models@.len() && self.anim_index
                < models@[self.folder_index as int].anims@.len()),
            r matches Some(e) ==> *e == models@[self.folder_index as int].anims@[self.anim_index as int],
    {
        if self.folder_index < models.len() {
            let m = &models[self.folder_index];
            if self.anim_index < m.anims.len() {
                Some(&m.anims[self.anim_index])
            } else {
                None
            }
        } else {
            None
        }
    }
}

/// One playback track of a folder.
#[derive(Debug, Clone, Copy, PartialEq, Eq, Structural)]
pub struct AnimationSlot {
    pub is_enabled: bool,
    pub animation: Option<AnimationIndex>,
}

impl AnimationSlot {
    /// A new slot plays, but has no animation yet, so that the user picks one.
    pub fn new() -> (r: AnimationSlot)
        ensures
            r.is_enabled,
            r.animation.is_none(),
    {
        AnimationSlot { is_enabled: true, animation: None }
    }
}

impl Default for AnimationSlot {
    fn default() -> (r: AnimationSlot)
        ensures
            r.is_enabled,
            r.animation.is_none(),
    {
        AnimationSlot::new()
    }
}

} // verus!
