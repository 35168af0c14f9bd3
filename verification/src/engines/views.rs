//! The views of an engine, by id.

use vstd::prelude::*;

use crate::engines::ViewId;

verus! {

/// The views of an engine, in the order they were opened.
pub struct ViewList<V> {
    entries: Vec<(ViewId, V)>,
}

impl<V> View for ViewList<V> {
    type V = Seq<(ViewId, V)>;

    closed spec fn view(&self) -> Seq<(ViewId, V)> {
        self.entries@
    }
}

/// The position of the first view with an id, or the number of views.
pub open spec fn place_of<V>(entries: Seq<(ViewId, V)>, id: ViewId) -> int
    decreases entries.len(),
{
    if entries.len() == 0 || entries.first().0 == id {
        0
    } else {
        1 + place_of(entries.drop_first(), id)
    }
}

/// Whether there is a view with an id.
pub open spec fn has_id<V>(entries: Seq<(ViewId, V)>, id: ViewId) -> bool {
    place_of(entries, id) < entries.len()
}

/// The first view with an id.
pub open spec fn value_of<V>(entries: Seq<(ViewId, V)>, id: ViewId) -> V {
    entries[place_of(entries, id)].1
}

/// The views with the first one with an id changed.
pub open spec fn with_value<V>(entries: Seq<(ViewId, V)>, id: ViewId, value: V) -> Seq<
    (ViewId, V),
> {
    entries.update(place_of(entries, id), (id, value))
}

/// The views without those with an id.
pub open spec fn without_id<V>(entries: Seq<(ViewId, V)>, id: ViewId) -> Seq<(ViewId, V)>
    decreases entries.len(),
{
    if entries.len() == 0 {
        Seq::empty()
    } else {
        let before = without_id(entries.drop_last(), id);
        if entries.last().0 == id {
            before
        } else {
            before.push(entries.last())
        }
    }
}

/// All views changed in one way.
pub open spec fn with_each<V>(entries: Seq<(ViewId, V)>, f: spec_fn(V) -> V) -> Seq<(ViewId, V)> {
    entries.map_values(|entry: (ViewId, V)| (entry.0, f(entry.1)))
}

/// The position that is the first with an id is where the view is found.
pub proof fn lemma_place_at<V>(entries: Seq<(ViewId, V)>, id: ViewId, at: int)
    requires
        0 <= at <= entries.len(),
        at < entries.len() ==> entries[at].0 == id,
        forall|k: int| 0 <= k < at ==> (#[trigger] entries[k]).0 != id,
    ensures
        place_of(entries, id) == at,
    decreases entries.len(),
{
    if at > 0 {
        let rest = entries.drop_first();
        assert(entries[0].0 != id);
        assert forall|k: int| 0 <= k < at - 1 implies (#[trigger] rest[k]).0 != id by {
            assert(entries[k + 1].0 != id);
        }
        lemma_place_at(rest, id, at - 1);
    }
}

/// A view that is found has the id it was looked for by, and none before it
/// has.
pub proof fn lemma_place_is_first<V>(entries: Seq<(ViewId, V)>, id: ViewId)
    ensures
        0 <= place_of(entries, id) <= entries.len(),
        has_id(entries, id) ==> entries[place_of(entries, id)].0 == id,
        forall|k: int| 0 <= k < place_of(entries, id) ==> (#[trigger] entries[k]).0 != id,
    decreases entries.len(),
{
    if entries.len() > 0 && entries.first().0 != id {
        let rest = entries.drop_first();
        lemma_place_is_first(rest, id);
        assert forall|k: int| 0 <= k < place_of(entries, id) implies (#[trigger] entries[k]).0
            != id by {
            if k > 0 {
                assert(rest[k - 1] == entries[k]);
            }
        }
    }
}

/// No view with an id is left once those with it were removed.
pub proof fn law_removed_id_is_gone<V>(entries: Seq<(ViewId, V)>, id: ViewId)
    ensures
        !has_id(without_id(entries, id), id),
{
    lemma_without_id(entries, id);
    let rest = without_id(entries, id);
    lemma_place_at(rest, id, rest.len() as int);
}

proof fn lemma_without_id<V>(entries: Seq<(ViewId, V)>, id: ViewId)
    ensures
        forall|k: int| 0 <= k < without_id(entries, id).len() ==> (#[trigger] without_id(
            entries,
            id,
        )[k]).0 != id,
    decreases entries.len(),
{
    if entries.len() > 0 {
        lemma_without_id(entries.drop_last(), id);
        let before = without_id(entries.drop_last(), id);
        let all = without_id(entries, id);
        assert forall|k: int| 0 <= k < all.len() implies (#[trigger] all[k]).0 != id by {
            if k < before.len() {
                assert(all[k] == before[k]);
            }
        }
    }
}

/// A change to one view is a change to no other.
pub proof fn law_change_stays_with_view<V>(
    entries: Seq<(ViewId, V)>,
    id: ViewId,
    value: V,
    other: ViewId,
)
    requires
        has_id(entries, id),
        id != other,
    ensures
        has_id(with_value(entries, id, value), id),
        value_of(with_value(entries, id, value), id) == value,
        has_id(with_value(entries, id, value), other) == has_id(entries, other),
        has_id(entries, other) ==> value_of(with_value(entries, id, value), other) == value_of(
            entries,
            other,
        ),
{
    let at = place_of(entries, id);
    let there = place_of(entries, other);
    lemma_place_is_first(entries, id);
    lemma_place_is_first(entries, other);
    let changed = with_value(entries, id, value);
    assert forall|k: int| 0 <= k < at implies (#[trigger] changed[k]).0 != id by {
        assert(changed[k] == entries[k]);
    }
    lemma_place_at(changed, id, at);
    assert forall|k: int| 0 <= k < there implies (#[trigger] changed[k]).0 != other by {
        if k != at {
            assert(changed[k] == entries[k]);
        }
    }
    if there < entries.len() {
        assert(changed[there] == entries[there]);
    }
    lemma_place_at(changed, other, there);
}

impl<V> ViewList<V> {
    /// No view.
    pub fn new() -> (list: ViewList<V>)
        ensures
            list@ == Seq::<(ViewId, V)>::empty(),
    {
        ViewList { entries: Vec::new() }
    }

    /// The number of views.
    pub fn len(&self) -> (len: usize)
        ensures
            len == self@.len(),
    {
        self.entries.len()
    }

    fn find(&self, id: ViewId) -> (at: usize)
        ensures
            at == place_of(self@, id),
            at <= self@.len(),
            at < self@.len() ==> self@[at as int].0 == id,
    {
        let mut i: usize = 0;
        while i < self.entries.len()
            invariant
                i <= self.entries@.len(),
                forall|k: int| 0 <= k < i ==> (#[trigger] self.entries@[k]).0 != id,
            decreases self.entries@.len() - i,
        {
            if self.entries[i].0 == id {
                proof {
                    lemma_place_at(self@, id, i as int);
                }
                return i;
            }
            i = i + 1;
        }
        proof {
            lemma_place_at(self@, id, i as int);
        }
        i
    }

    /// Whether there is a view with an id.
    pub fn has(&self, id: ViewId) -> (has: bool)
        ensures
            has == has_id(self@, id),
    {
        self.find(id) < self.entries.len()
    }

    /// The view with an id.
    pub fn get(&self, id: ViewId) -> (value: &V)
        requires
            has_id(self@, id),
        ensures
            *value == value_of(self@, id),
    {
        let at: usize = self.find(id);
        &self.entries[at].1
    }

    /// The view with an id, to be changed.
    pub fn get_mut(&mut self, id: ViewId) -> (value: &mut V)
        requires
            has_id(old(self)@, id),
        ensures
            *value == value_of(old(self)@, id),
            final(self)@ == with_value(old(self)@, id, *final(value)),
    {
        let at: usize = self.find(id);
        &mut self.entries[at].1
    }

    /// The view at a position, to be changed.
    pub fn at_mut(&mut self, i: usize) -> (value: &mut V)
        requires
            (i as int) < old(self)@.len(),
        ensures
            *value == old(self)@[i as int].1,
            final(self)@ == old(self)@.update(
                i as int,
                (old(self)@[i as int].0, *final(value)),
            ),
    {
        &mut self.entries[i].1
    }

    /// The view that was opened last.
    pub fn last(&self) -> (value: Option<&V>)
        ensures
            match value {
                Some(v) => self@.len() > 0 && *v == self@.last().1,
                None => self@.len() == 0,
            },
    {
        let n: usize = self.entries.len();
        if n == 0 {
            None
        } else {
            Some(&self.entries[n - 1].1)
        }
    }

    /// Open a view.
    pub fn push(&mut self, id: ViewId, value: V)
        ensures
            final(self)@ == old(self)@.push((id, value)),
    {
        self.entries.push((id, value));
    }

    /// The ids of the views.
    pub fn ids(&self) -> (ids: Vec<ViewId>)
        ensures
            ids@ == self@.map_values(|entry: (ViewId, V)| entry.0),
    {
        let mut ids: Vec<ViewId> = Vec::new();
        let mut i: usize = 0;
        while i < self.entries.len()
            invariant
                i <= self.entries@.len(),
                ids@.len() == i,
                forall|k: int| 0 <= k < i ==> #[trigger] ids@[k] == self.entries@[k].0,
            decreases self.entries@.len() - i,
        {
            ids.push(self.entries[i].0);
            i = i + 1;
        }
        assert(ids@ =~= self@.map_values(|entry: (ViewId, V)| entry.0));
        ids
    }

    /// Close the views with an id.
    pub fn remove(&mut self, id: ViewId)
        ensures
            final(self)@ == without_id(old(self)@, id),
    {
        let mut entries: Vec<(ViewId, V)> = Vec::new();
        std::mem::swap(&mut entries, &mut self.entries);
        let ghost all = entries@;
        assert(all.take(0) =~= Seq::empty());
        assert(self.entries@ =~= Seq::empty());
        for entry in iter: entries
            invariant
                iter.seq() == all,
                self.entries@ == without_id(all.take(iter.index()), id),
        {
            proof {
                let k = iter.index();
                assert(all.take(k + 1).drop_last() =~= all.take(k));
                assert(all.take(k + 1).last() == entry);
            }
            if entry.0 != id {
                self.entries.push(entry);
            }
        }
        assert(all.take(all.len() as int) =~= all);
    }
}

/// There is a view with an id exactly if an entry has it, and it is the first
/// such entry.
pub proof fn law_views_are_found_by_id<V>(entries: Seq<(ViewId, V)>, id: ViewId)
    ensures
        has_id(entries, id) <==> exists|k: int|
            0 <= k < entries.len() && (#[trigger] entries[k]).0 == id,
        has_id(entries, id) ==> exists|k: int|
            {
                &&& 0 <= k < entries.len()
                &&& #[trigger] entries[k] == (id, value_of(entries, id))
                &&& forall|j: int| 0 <= j < k ==> (#[trigger] entries[j]).0 != id
            },
{
    lemma_place_is_first(entries, id);
    if has_id(entries, id) {
        let k = place_of(entries, id);
        assert(entries[k].0 == id);
        assert(entries[k] == (id, value_of(entries, id)));
    }
}

/// Removing the views with an id leaves all others, in their order.
pub proof fn law_other_views_stay<V>(entries: Seq<(ViewId, V)>, id: ViewId)
    ensures
        without_id(entries, id) == entries.filter(|entry: (ViewId, V)| entry.0 != id),
    decreases entries.len(),
{
    reveal(Seq::filter);
    if entries.len() > 0 {
        law_other_views_stay(entries.drop_last(), id);
    }
}

/// A change of one view changes one entry, the first with its id; a change of
/// all changes the value of every entry and the id of none.
pub proof fn law_changes_keep_ids<V>(
    entries: Seq<(ViewId, V)>,
    id: ViewId,
    value: V,
    f: spec_fn(V) -> V,
    k: int,
)
    requires
        0 <= k < entries.len(),
        has_id(entries, id),
    ensures
        with_value(entries, id, value).len() == entries.len(),
        with_value(entries, id, value)[k].0 == entries[k].0,
        entries[k].0 != id ==> with_value(entries, id, value)[k] == entries[k],
        with_each(entries, f).len() == entries.len(),
        with_each(entries, f)[k].0 == entries[k].0,
        with_each(entries, f)[k].1 == f(entries[k].1),
{
    lemma_place_is_first(entries, id);
}

} // verus!
