//! The resolution queue: the leaf items to download, each once, in the order
//! in which the links first named them.

use vstd::prelude::*;
use crate::ids::ItemId;
use crate::kinds::{IndexedTy, LinkKind};
use crate::naming::{group_label, group_of};
use crate::text::owned_text;

verus! {

/// One item to download.
#[derive(Clone, Debug, PartialEq, Eq)]
pub struct QueueEntry {
    pub id: ItemId,
    pub kind: IndexedTy,
    /// The directory, below the output directory, that the item goes to.
    pub group: Option<String>,
}

/// A queue entry as a mathematical value.
pub struct EntrySpec {
    pub id: ItemId,
    pub kind: IndexedTy,
    pub group: Option<Seq<char>>,
}

impl View for QueueEntry {
    type V = EntrySpec;

    open spec fn view(&self) -> EntrySpec {
        EntrySpec {
            id: self.id,
            kind: self.kind,
            group: owned_text(self.group),
        }
    }
}

/// Whether the queue `q` holds an entry for `id`.
pub open spec fn holds(q: Seq<EntrySpec>, id: ItemId) -> bool {
    exists|i: int| 0 <= i < q.len() && (#[trigger] q[i]).id == id
}

/// Whether no two entries of `q` have the same identifier.
pub open spec fn distinct(q: Seq<EntrySpec>) -> bool {
    forall|i: int, j: int| 0 <= i < j < q.len() ==> (#[trigger] q[i]).id != (#[trigger] q[j]).id
}

/// The queue after `e` is offered to it: `e` goes to the end, unless the
/// queue already holds its item, in which case nothing changes.
pub open spec fn enqueue(q: Seq<EntrySpec>, e: EntrySpec) -> Seq<EntrySpec> {
    if holds(q, e.id) {
        q
    } else {
        q.push(e)
    }
}

/// The queue after the entries of `items` are offered to it, first to last.
pub open spec fn enqueue_all(q: Seq<EntrySpec>, items: Seq<EntrySpec>) -> Seq<EntrySpec>
    decreases items.len(),
{
    if items.len() == 0 {
        q
    } else {
        enqueue(enqueue_all(q, items.drop_last()), items.last())
    }
}

/// The entries that stand for `ids`, all of one kind and in one group.
pub open spec fn entries_for(ids: Seq<ItemId>, kind: IndexedTy, group: Option<Seq<char>>) -> Seq<
    EntrySpec,
> {
    ids.map_values(|id: ItemId| EntrySpec { id, kind, group })
}

/// The order in which the contents of a container enter the queue: as the
/// service lists them, but for a show, whose episodes are listed newest
/// first and enter oldest first.
pub open spec fn queue_order(kind: LinkKind, contents: Seq<ItemId>) -> Seq<ItemId> {
    match kind {
        LinkKind::Show => contents.reverse(),
        _ => contents,
    }
}

/// How the output directory is laid out.
#[derive(Clone, Copy, Debug, PartialEq, Eq, Structural)]
pub enum Layout {
    /// All files in one directory.
    Flat,
    /// Files grouped by the link that named them.
    Grouped,
}

/// What the service returned for a container: its name and the leaf items
/// that it holds, in the order in which the service lists them.
#[derive(Clone, Debug, PartialEq, Eq)]
pub struct Container {
    pub name: String,
    pub items: Vec<ItemId>,
}

/// Why a link contributed nothing to the queue.
#[derive(Clone, Copy, Debug, PartialEq, Eq, Structural)]
pub enum ExpandError {
    /// The metadata of the container could not be fetched.
    ContainerExpansionFailed,
}

/// The group that the items of a link go to under the given layout.
pub open spec fn group_in(layout: Layout, kind: LinkKind, name: Seq<char>, windows: bool) -> Option<
    Seq<char>,
> {
    match layout {
        Layout::Flat => None,
        Layout::Grouped => group_of(kind, name, windows),
    }
}

/// The entries that a link offers to the queue. A link to a leaf item offers
/// that item. A link to a container offers the container's contents in queue
/// order, and nothing (`None`) where the contents could not be fetched.
pub open spec fn expansion(
    kind: LinkKind,
    id: ItemId,
    fetched: Option<Container>,
    layout: Layout,
    windows: bool,
) -> Option<Seq<EntrySpec>> {
    match kind.leaf() {
        Some(leaf) => Some(
            seq![EntrySpec { id, kind: leaf, group: group_in(layout, kind, Seq::empty(), windows) }],
        ),
        None => match fetched {
            Some(c) => Some(
                entries_for(
                    queue_order(kind, c.items@),
                    kind.item_kind(),
                    group_in(layout, kind, c.name@, windows),
                ),
            ),
            None => None,
        },
    }
}

/// The deduplicating queue of leaf items, in insertion order.
pub struct ResolutionQueue {
    entries: Vec<QueueEntry>,
}

impl View for ResolutionQueue {
    type V = Seq<EntrySpec>;

    closed spec fn view(&self) -> Seq<EntrySpec> {
        self.entries@.map_values(|e: QueueEntry| e@)
    }
}

fn clone_group(group: &Option<String>) -> (r: Option<String>)
    ensures
        r == *group,
{
    match group {
        Some(g) => Some(g.clone()),
        None => None,
    }
}

impl ResolutionQueue {
    #[verifier::type_invariant]
    spec fn well_formed(self) -> bool {
        distinct(self@)
    }

    /// An empty queue.
    pub fn new() -> (q: Self)
        ensures
            q@ == Seq::<EntrySpec>::empty(),
    {
        let q = ResolutionQueue { entries: Vec::new() };
        assert(q@ == Seq::<EntrySpec>::empty());
        q
    }

    /// The number of items queued. No two of them are the same item.
    pub fn len(&self) -> (n: usize)
        ensures
            n == self@.len(),
            distinct(self@),
    {
        proof {
            use_type_invariant(self);
        }
        self.entries.len()
    }

    /// Whether nothing is queued.
    pub fn is_empty(&self) -> (r: bool)
        ensures
            r == (self@.len() == 0),
    {
        self.entries.len() == 0
    }

    /// The entry at position `i`, counted from the front.
    pub fn get(&self, i: usize) -> (r: Option<&QueueEntry>)
        ensures
            r is Some <==> i < self@.len(),
            r matches Some(e) ==> e@ == self@[i as int],
    {
        if i < self.entries.len() {
            Some(&self.entries[i])
        } else {
            None
        }
    }

    /// Whether the queue holds an entry for `id`.
    pub fn contains(&self, id: ItemId) -> (r: bool)
        ensures
            r == holds(self@, id),
    {
        let mut i: usize = 0;
        while i < self.entries.len()
            invariant
                i <= self.entries.len(),
                forall|j: int| 0 <= j < i ==> (#[trigger] self@[j]).id != id,
            decreases self.entries.len() - i,
        {
            if self.entries[i].id == id {
                assert(self@[i as int].id == id);
                return true;
            }
            i += 1;
        }
        false
    }

    /// Offers an item to the queue. An item that is already queued keeps its
    /// place, kind and group; a new one goes to the end. Returns whether the
    /// item was new.
    pub fn insert(&mut self, id: ItemId, kind: IndexedTy, group: Option<String>) -> (added: bool)
        ensures
            final(self)@ == enqueue(old(self)@, (QueueEntry { id, kind, group })@),
            added == !holds(old(self)@, id),
            distinct(final(self)@),
    {
        proof {
            use_type_invariant(&*self);
        }
        if self.contains(id) {
            false
        } else {
            let ghost before = self@;
            let entry = QueueEntry { id, kind, group };
            let mut taken = ResolutionQueue { entries: Vec::new() };
            assert(taken@ == Seq::<EntrySpec>::empty());
            core::mem::swap(self, &mut taken);
            let mut entries = taken.entries;
            entries.push(entry);
            let ghost after = entries@.map_values(|e: QueueEntry| e@);
            assert(after == before.push(entry@));
            *self = ResolutionQueue { entries };
            true
        }
    }

    /// Offers the items of `ids` to the queue, all of one kind and in one
    /// group: first to last, or last to first where `reversed` is set.
    pub fn insert_all(
        &mut self,
        ids: &[ItemId],
        reversed: bool,
        kind: IndexedTy,
        group: &Option<String>,
    )
        ensures
            final(self)@ == enqueue_all(
                old(self)@,
                entries_for(
                    if reversed {
                        ids@.reverse()
                    } else {
                        ids@
                    },
                    kind,
                    owned_text(*group),
                ),
            ),
            distinct(final(self)@),
    {
        let ghost order = if reversed {
            ids@.reverse()
        } else {
            ids@
        };
        let ghost label = owned_text(*group);
        let n = ids.len();
        let mut i: usize = 0;
        proof {
            use_type_invariant(&*self);
            assert(entries_for(order.take(0), kind, label).len() == 0);
        }
        while i < n
            invariant
                n == ids.len(),
                i <= n,
                order == if reversed {
                    ids@.reverse()
                } else {
                    ids@
                },
                label == owned_text(*group),
                self@ == enqueue_all(old(self)@, entries_for(order.take(i as int), kind, label)),
                distinct(self@),
            decreases n - i,
        {
            let id = if reversed {
                ids[n - 1 - i]
            } else {
                ids[i]
            };
            proof {
                let before = entries_for(order.take(i as int), kind, label);
                let after = entries_for(order.take(i + 1), kind, label);
                assert(id == order[i as int]);
                assert(after.drop_last() == before);
                assert(after.last() == EntrySpec { id, kind, group: label });
            }
            self.insert(id, kind, clone_group(group));
            i += 1;
        }
        assert(order.take(n as int) == order);
    }

    /// Offers to the queue what one link names. `fetched` is what the service
    /// returned for the link's container, `None` where the fetch failed; for
    /// a link to a leaf item it is not looked at. A failed fetch leaves the
    /// queue as it was.
    pub fn expand(
        &mut self,
        kind: LinkKind,
        id: ItemId,
        fetched: Option<&Container>,
        layout: Layout,
        windows: bool,
    ) -> (r: Result<(), ExpandError>)
        ensures
            match expansion(
                kind,
                id,
                match fetched {
                    Some(c) => Some(*c),
                    None => None,
                },
                layout,
                windows,
            ) {
                Some(items) => r is Ok && final(self)@ == enqueue_all(old(self)@, items),
                None => r == Err::<(), ExpandError>(ExpandError::ContainerExpansionFailed)
                    && final(self)@ == old(self)@,
            },
            distinct(final(self)@),
    {
        proof {
            use_type_invariant(&*self);
        }
        match kind.as_leaf() {
            Some(leaf) => {
                let group = match layout {
                    Layout::Flat => None,
                    Layout::Grouped => group_label(kind, "", windows),
                };
                proof {
                    reveal_strlit("");
                    assert(""@ == Seq::<char>::empty());
                    let e = EntrySpec {
                        id,
                        kind: leaf,
                        group: group_in(layout, kind, Seq::empty(), windows),
                    };
                    assert(seq![e].drop_last() == Seq::<EntrySpec>::empty());
                    assert(enqueue_all(self@, seq![e].drop_last()) == self@);
                }
                self.insert(id, leaf, group);
                Ok(())
            },
            None => match fetched {
                Some(c) => {
                    let group = match layout {
                        Layout::Flat => None,
                        Layout::Grouped => group_label(kind, c.name.as_str(), windows),
                    };
                    let reversed = match kind {
                        LinkKind::Show => true,
                        _ => false,
                    };
                    self.insert_all(c.items.as_slice(), reversed, kind.contributes(), &group);
                    Ok(())
                },
                None => Err(ExpandError::ContainerExpansionFailed),
            },
        }
    }
}

proof fn lemma_holds_push(q: Seq<EntrySpec>, e: EntrySpec, id: ItemId)
    ensures
        holds(q.push(e), id) <==> holds(q, id) || e.id == id,
{
    let p = q.push(e);
    if holds(q, id) {
        let i = choose|i: int| 0 <= i < q.len() && (#[trigger] q[i]).id == id;
        assert(p[i].id == id);
    }
    if e.id == id {
        assert(p[q.len() as int].id == id);
    }
    if holds(p, id) {
        let i = choose|i: int| 0 <= i < p.len() && (#[trigger] p[i]).id == id;
        if i < q.len() {
            assert(q[i].id == id);
        }
    }
}

proof fn lemma_holds_last(items: Seq<EntrySpec>, id: ItemId)
    requires
        items.len() > 0,
    ensures
        holds(items, id) <==> holds(items.drop_last(), id) || items.last().id == id,
{
    assert(items == items.drop_last().push(items.last()));
    lemma_holds_push(items.drop_last(), items.last(), id);
}

/// Offering items to a queue keeps what was queued in its place, queues
/// every offered item, and queues nothing twice.
pub proof fn law_queue_dedup(q: Seq<EntrySpec>, items: Seq<EntrySpec>)
    requires
        distinct(q),
    ensures
        distinct(enqueue_all(q, items)),
        q.len() <= enqueue_all(q, items).len(),
        enqueue_all(q, items).take(q.len() as int) == q,
        forall|id: ItemId| #[trigger]
            holds(enqueue_all(q, items), id) <==> holds(q, id) || holds(items, id),
    decreases items.len(),
{
    let r = enqueue_all(q, items);
    if items.len() == 0 {
        assert(r.take(q.len() as int) == q);
        assert forall|id: ItemId| #[trigger] holds(r, id) <==> holds(q, id) || holds(items, id) by {}
    } else {
        let rest = enqueue_all(q, items.drop_last());
        let last = items.last();
        law_queue_dedup(q, items.drop_last());
        assert(r.take(q.len() as int) == rest.take(q.len() as int));
        assert forall|id: ItemId| #[trigger] holds(r, id) <==> holds(q, id) || holds(items, id) by {
            lemma_holds_last(items, id);
            lemma_holds_push(rest, last, id);
            assert(holds(rest, id) <==> holds(q, id) || holds(items.drop_last(), id));
            assert(holds(rest, last.id) <==> holds(q, last.id) || holds(
                items.drop_last(),
                last.id,
            ));
        }
    }
}

/// Offering one list after another is offering the two as one list: what
/// several links offer, one link after the other, is queued as if a single
/// list had named it all.
pub proof fn law_offers_compose(q: Seq<EntrySpec>, a: Seq<EntrySpec>, b: Seq<EntrySpec>)
    ensures
        enqueue_all(enqueue_all(q, a), b) == enqueue_all(q, a + b),
    decreases b.len(),
{
    if b.len() == 0 {
        assert(a + b == a);
    } else {
        assert((a + b).drop_last() == a + b.drop_last());
        law_offers_compose(q, a, b.drop_last());
    }
}

/// Whether position `j` of `items` is the first that names its item.
pub open spec fn is_first(items: Seq<EntrySpec>, j: int) -> bool {
    0 <= j < items.len() && forall|k: int| 0 <= k < j ==> (#[trigger] items[k]).id != items[j].id
}

/// The positions of `items` that are the first to name their item, in
/// increasing order.
pub open spec fn first_positions(items: Seq<EntrySpec>) -> Seq<int>
    decreases items.len(),
{
    if items.len() == 0 {
        Seq::empty()
    } else {
        let rest = first_positions(items.drop_last());
        if holds(items.drop_last(), items.last().id) {
            rest
        } else {
            rest.push(items.len() - 1)
        }
    }
}

/// The positions that `first_positions` lists are the first occurrences, all
/// of them, in increasing order.
pub proof fn lemma_first_positions(items: Seq<EntrySpec>)
    ensures
        forall|k: int|
            0 <= k < first_positions(items).len() ==> is_first(
                items,
                #[trigger] first_positions(items)[k],
            ),
        forall|k1: int, k2: int|
            0 <= k1 < k2 < first_positions(items).len() ==> first_positions(items)[k1]
                < first_positions(items)[k2],
        forall|j: int| is_first(items, j) ==> first_positions(items).contains(j),
    decreases items.len(),
{
    let fp = first_positions(items);
    if items.len() > 0 {
        let head = items.drop_last();
        let rest = first_positions(head);
        let n = items.len() - 1;
        lemma_first_positions(head);
        assert forall|k: int| 0 <= k < rest.len() implies is_first(items, #[trigger] rest[k]) by {
            let j = rest[k];
            assert(is_first(head, j));
            assert forall|m: int| 0 <= m < j implies (#[trigger] items[m]).id != items[j].id by {
                assert(head[m].id != head[j].id);
            }
        }
        if !holds(head, items.last().id) {
            assert forall|m: int| 0 <= m < n implies (#[trigger] items[m]).id != items[n].id by {
                assert(head[m].id == items[m].id);
            }
        }
        assert forall|j: int| is_first(items, j) implies fp.contains(j) by {
            if j < n {
                assert forall|m: int| 0 <= m < j implies (#[trigger] head[m]).id != head[j].id by {
                    assert(items[m].id != items[j].id);
                }
                assert(is_first(head, j));
                let k = choose|k: int| 0 <= k < rest.len() && rest[k] == j;
                assert(fp[k] == j);
            } else {
                if holds(head, items.last().id) {
                    let m = choose|m: int| 0 <= m < head.len() && (#[trigger] head[m]).id
                        == items.last().id;
                    assert(items[m].id == items[j].id);
                }
                assert(fp[rest.len() as int] == j);
            }
        }
    }
}

/// A queue that starts empty holds, of the entries offered to it, exactly
/// those that are the first to name their item, in the order in which they
/// were offered and each with the kind and group that it was offered with.
pub proof fn law_queue_order(items: Seq<EntrySpec>)
    ensures
        enqueue_all(Seq::empty(), items).len() == first_positions(items).len(),
        forall|k: int|
            0 <= k < first_positions(items).len() ==> (#[trigger] enqueue_all(
                Seq::empty(),
                items,
            )[k]) == items[first_positions(items)[k]],
    decreases items.len(),
{
    if items.len() > 0 {
        let head = items.drop_last();
        law_queue_order(head);
        law_queue_dedup(Seq::empty(), head);
        lemma_first_positions(head);
        let rest = enqueue_all(Seq::<EntrySpec>::empty(), head);
        assert(holds(rest, items.last().id) <==> holds(head, items.last().id));
        assert forall|k: int| 0 <= k < first_positions(head).len() implies rest[k]
            == items[first_positions(head)[k]] by {
            assert(is_first(head, first_positions(head)[k]));
        }
    }
}

} // verus!
