//! The privileges that reading items takes.

use crate::acl::{AclMode, CatalogItemType, Privilege};
use crate::catalog::{ItemView, SessionCatalog};
use crate::ids::{GlobalId, ObjectId, RoleId, SystemObjectId};
use vstd::prelude::*;

verus! {

/// What object a privilege is required on, what privilege it is, and who must have it.
pub type Requirement = (SystemObjectId, AclMode, RoleId);

/// That `role` must have `privilege` on the object `id`.
pub open spec fn requirement(id: ObjectId, privilege: Privilege, role: RoleId) -> Requirement {
    (SystemObjectId::Object(id), AclMode::only(privilege), role)
}

/// That `role` must have `privilege` on the object `id`.
pub fn require(id: ObjectId, privilege: Privilege, role: RoleId) -> (r: Requirement)
    ensures
        r == requirement(id, privilege, role),
{
    (SystemObjectId::Object(id), AclMode::only(privilege), role)
}

/// The objects that were looked at so far, each with the role on whose behalf.
#[derive(Debug)]
pub struct Seen {
    pairs: Vec<(ObjectId, RoleId)>,
}

impl View for Seen {
    type V = Set<(ObjectId, RoleId)>;

    closed spec fn view(&self) -> Set<(ObjectId, RoleId)> {
        self.pairs@.to_set()
    }
}

impl Seen {
    /// Nothing was looked at yet.
    pub fn new() -> (seen: Seen)
        ensures
            seen@ == Set::<(ObjectId, RoleId)>::empty(),
    {
        let seen = Seen { pairs: Vec::new() };
        assert(seen@ =~= Set::<(ObjectId, RoleId)>::empty());
        seen
    }

    /// Whether an object was looked at on behalf of a role.
    pub fn contains(&self, id: ObjectId, role: RoleId) -> (b: bool)
        ensures
            b == self@.contains((id, role)),
    {
        for i in 0..self.pairs.len()
            invariant
                forall|j: int| 0 <= j < i ==> #[trigger] self.pairs@[j] != (id, role),
        {
            let pair = self.pairs[i];
            if pair.0 == id && pair.1 == role {
                assert(self.pairs@.contains((id, role)));
                return true;
            }
        }
        false
    }

    /// Takes down that an object is looked at on behalf of a role. Returns whether this is the
    /// first time.
    pub fn insert(&mut self, id: ObjectId, role: RoleId) -> (first: bool)
        ensures
            first == !old(self)@.contains((id, role)),
            final(self)@ == old(self)@.insert((id, role)),
    {
        if self.contains(id, role) {
            assert(self@ =~= self@.insert((id, role)));
            false
        } else {
            self.pairs.push((id, role));
            proof {
                old(self).pairs@.lemma_push_to_set_commute((id, role));
            }
            true
        }
    }
}

/// Items that are read on behalf of `role`.
pub struct ReadFrame {
    pub ids: Seq<GlobalId>,
    pub role: RoleId,
}

/// Whether items of a type hold a query that runs on behalf of their owner.
pub open spec fn is_view(item_type: CatalogItemType) -> bool {
    item_type is View || item_type is MaterializedView
}

/// What reading the item `id` takes on the item itself.
pub open spec fn item_read(item: ItemView, id: GlobalId, role: RoleId) -> Seq<Requirement> {
    match item.item_type {
        CatalogItemType::View
        | CatalogItemType::MaterializedView
        | CatalogItemType::Table
        | CatalogItemType::Source => seq![
            requirement(ObjectId::Item(id), Privilege::Select, role),
        ],
        CatalogItemType::Type | CatalogItemType::Secret | CatalogItemType::Connection => seq![
            requirement(ObjectId::Item(id), Privilege::Usage, role),
        ],
        CatalogItemType::Sink | CatalogItemType::Index | CatalogItemType::Func => seq![],
    }
}

/// What came of looking at a list of items.
pub struct ReadScan {
    pub required: Seq<Requirement>,
    /// For each view that was seen for the first time, what its query reads.
    pub views: Seq<ReadFrame>,
    pub seen: Set<(ObjectId, RoleId)>,
    /// Whether the catalog knows every item that was looked up.
    pub known: bool,
}

/// Looks at items one after the other: what was not seen before is looked up, and takes its
/// privilege, and usage of its schema if that was not seen before.
pub open spec fn scan(
    items: Map<GlobalId, ItemView>,
    ids: Seq<GlobalId>,
    role: RoleId,
    seen: Set<(ObjectId, RoleId)>,
) -> ReadScan
    decreases ids.len(),
{
    if ids.len() == 0 {
        ReadScan { required: seq![], views: seq![], seen, known: true }
    } else {
        let before = scan(items, ids.drop_last(), role, seen);
        let id = ids.last();
        if before.seen.contains((ObjectId::Item(id), role)) {
            before
        } else if !items.contains_key(id) {
            ReadScan { known: false, ..before }
        } else {
            let item = items[id];
            let schema = item.qualifiers.schema();
            ReadScan {
                required: before.required + (if before.seen.contains((schema, role)) {
                    seq![]
                } else {
                    seq![requirement(schema, Privilege::Usage, role)]
                }) + item_read(item, id, role),
                views: if is_view(item.item_type) {
                    before.views.push(ReadFrame { ids: item.uses, role: item.owner })
                } else {
                    before.views
                },
                seen: before.seen.insert((ObjectId::Item(id), role)).insert((schema, role)),
                known: before.known,
            }
        }
    }
}

/// The roles on whose behalf items can come to be read: those of `frames`, and owners of items.
pub open spec fn readers(items: Map<GlobalId, ItemView>, frames: Seq<ReadFrame>) -> Set<RoleId> {
    items.dom().map(|id: GlobalId| items[id].owner).union(
        frames.map_values(|frame: ReadFrame| frame.role).to_set(),
    )
}

/// What is not seen of the items that can come to be read, each with the role on whose behalf.
pub open spec fn unseen(
    items: Map<GlobalId, ItemView>,
    frames: Seq<ReadFrame>,
    seen: Set<(ObjectId, RoleId)>,
) -> Set<(GlobalId, RoleId)> {
    Set::new(
        |pair: (GlobalId, RoleId)|
            items.contains_key(pair.0) && readers(items, frames).contains(pair.1) && !seen.contains(
                (ObjectId::Item(pair.0), pair.1),
            ),
    )
}

/// What came of reading.
pub struct Reads {
    pub required: Seq<Requirement>,
    pub seen: Set<(ObjectId, RoleId)>,
    /// Whether the catalog knows every item that was looked up.
    pub known: bool,
}

/// Reads `frames` one after the other, and before the next what the views in a frame read.
pub open spec fn reads(
    items: Map<GlobalId, ItemView>,
    frames: Seq<ReadFrame>,
    seen: Set<(ObjectId, RoleId)>,
) -> Reads
    decreases unseen(items, frames, seen).len(), frames.len(),
    when items.dom().finite()
    via reads_decreases
{
    if frames.len() == 0 {
        Reads { required: seq![], seen, known: true }
    } else {
        let first = scan(items, frames[0].ids, frames[0].role, seen);
        let rest = reads(items, first.views + frames.drop_first(), first.seen);
        Reads {
            required: first.required + rest.required,
            seen: rest.seen,
            known: first.known && rest.known,
        }
    }
}

#[via_fn]
proof fn reads_decreases(
    items: Map<GlobalId, ItemView>,
    frames: Seq<ReadFrame>,
    seen: Set<(ObjectId, RoleId)>,
) {
    if frames.len() > 0 {
        lemma_fewer_unseen(items, frames, seen);
    }
}

/// The pairs of an element of `a` and one of `b` are finitely many.
proof fn lemma_pairs_finite<A, B>(a: Set<A>, b: Set<B>)
    requires
        a.finite(),
        b.finite(),
    ensures
        Set::new(|pair: (A, B)| a.contains(pair.0) && b.contains(pair.1)).finite(),
    decreases a.len(),
{
    let pairs = Set::new(|pair: (A, B)| a.contains(pair.0) && b.contains(pair.1));
    if a.len() == 0 {
        assert(pairs =~= Set::empty());
    } else {
        let x = a.choose();
        let a1 = a.remove(x);
        lemma_pairs_finite(a1, b);
        let pairs1 = Set::new(|pair: (A, B)| a1.contains(pair.0) && b.contains(pair.1));
        let f = |y: B| (x, y);
        b.lemma_map_finite(f);
        assert forall|pair: (A, B)| pairs.contains(pair) implies pairs1.union(b.map(f)).contains(
            pair,
        ) by {
            if pair.0 == x {
                assert(f(pair.1) == pair);
                assert(b.map(f).contains(pair));
            }
        };
        assert(pairs.subset_of(pairs1.union(b.map(f))));
        vstd::set_lib::lemma_set_subset_finite(pairs1.union(b.map(f)), pairs);
    }
}

/// What a scan has seen, and that a view is among it if there is one in what it found.
proof fn lemma_scan_grows(
    items: Map<GlobalId, ItemView>,
    ids: Seq<GlobalId>,
    role: RoleId,
    seen: Set<(ObjectId, RoleId)>,
)
    ensures
        seen.subset_of(scan(items, ids, role, seen).seen),
        scan(items, ids, role, seen).views.len() > 0 ==> exists|id: GlobalId| #[trigger]
            items.contains_key(id) && !seen.contains((ObjectId::Item(id), role)) && scan(
                items,
                ids,
                role,
                seen,
            ).seen.contains((ObjectId::Item(id), role)),
        forall|i: int|
            0 <= i < scan(items, ids, role, seen).views.len() ==> items.dom().map(
                |id: GlobalId| items[id].owner,
            ).contains((#[trigger] scan(items, ids, role, seen).views[i]).role),
    decreases ids.len(),
{
    if ids.len() > 0 {
        let owners = items.dom().map(|id: GlobalId| items[id].owner);
        let before = scan(items, ids.drop_last(), role, seen);
        let after = scan(items, ids, role, seen);
        lemma_scan_grows(items, ids.drop_last(), role, seen);
        let id = ids.last();
        if before.seen.contains((ObjectId::Item(id), role)) || !items.contains_key(id) {
        } else {
            assert(after.seen.contains((ObjectId::Item(id), role)));
            assert(owners.contains(items[id].owner)) by {
                let f = |id: GlobalId| items[id].owner;
                assert(items.dom().contains(id) && f(id) == items[id].owner);
            };
            assert forall|i: int| 0 <= i < after.views.len() implies owners.contains(
                (#[trigger] after.views[i]).role,
            ) by {
                if i < before.views.len() {
                    assert(after.views[i] == before.views[i]);
                }
            };
        }
    }
}

/// After a frame was read there is less that was not seen, or as much and one frame fewer.
pub proof fn lemma_fewer_unseen(
    items: Map<GlobalId, ItemView>,
    frames: Seq<ReadFrame>,
    seen: Set<(ObjectId, RoleId)>,
)
    requires
        items.dom().finite(),
        frames.len() > 0,
    ensures
        ({
            let first = scan(items, frames[0].ids, frames[0].role, seen);
            let rest = first.views + frames.drop_first();
            ||| unseen(items, rest, first.seen).len() < unseen(items, frames, seen).len()
            ||| unseen(items, rest, first.seen).len() == unseen(items, frames, seen).len()
                && rest.len() < frames.len()
        }),
{
    let first = scan(items, frames[0].ids, frames[0].role, seen);
    let rest = first.views + frames.drop_first();
    let owners = items.dom().map(|id: GlobalId| items[id].owner);
    let roles = frames.map_values(|frame: ReadFrame| frame.role);
    let rest_roles = rest.map_values(|frame: ReadFrame| frame.role);
    let a = unseen(items, frames, seen);
    let b = unseen(items, rest, first.seen);
    lemma_scan_grows(items, frames[0].ids, frames[0].role, seen);
    items.dom().lemma_map_finite(|id: GlobalId| items[id].owner);
    vstd::seq_lib::seq_to_set_is_finite(roles);
    let all = Set::new(
        |pair: (GlobalId, RoleId)|
            items.dom().contains(pair.0) && readers(items, frames).contains(pair.1),
    );
    lemma_pairs_finite(items.dom(), readers(items, frames));
    vstd::set_lib::lemma_set_subset_finite(all, a);
    assert forall|role: RoleId| readers(items, rest).contains(role) implies readers(
        items,
        frames,
    ).contains(role) by {
        if !owners.contains(role) {
            assert(rest_roles.contains(role));
            let i = rest_roles.index_of(role);
            assert(rest[i].role == role);
            if i < first.views.len() {
                assert(first.views[i].role == role);
            } else {
                let j = i - first.views.len() + 1;
                assert(frames[j] == rest[i]);
                assert(roles[j] == role);
                assert(roles.to_set().contains(role));
            }
        }
    };
    assert(b.subset_of(a));
    vstd::set_lib::lemma_len_subset(b, a);
    if first.views.len() > 0 {
        let id = choose|id: GlobalId| #[trigger]
            items.contains_key(id) && !seen.contains((ObjectId::Item(id), frames[0].role))
                && first.seen.contains((ObjectId::Item(id), frames[0].role));
        assert(roles[0] == frames[0].role);
        assert(roles.to_set().contains(frames[0].role));
        assert(a.contains((id, frames[0].role)));
        assert(!b.contains((id, frames[0].role)));
        b.lemma_subset_not_in_lt(a, (id, frames[0].role));
    }
}

/// A list of items to read, with the role on whose behalf.
type Pending<'a> = (&'a Vec<GlobalId>, RoleId);

/// The frame that a list of items to read makes.
spec fn frame(pending: Pending) -> ReadFrame {
    ReadFrame { ids: pending.0@, role: pending.1 }
}

/// The frames that lists of items to read make.
spec fn frames(pending: Seq<Pending>) -> Seq<ReadFrame> {
    Seq::new(pending.len(), |i: int| frame(pending[i]))
}

/// The frames that a stack of lists of items to read makes, from the top down.
spec fn stacked(stack: Seq<Pending>) -> Seq<ReadFrame> {
    Seq::new(stack.len(), |i: int| frame(stack[stack.len() - 1 - i]))
}

/// Whether a catalog knows all of some items.
pub open spec fn all_known(items: Map<GlobalId, ItemView>, ids: Seq<GlobalId>) -> bool {
    forall|i: int| 0 <= i < ids.len() ==> items.contains_key(#[trigger] ids[i])
}

/// Looks at items one after the other, and returns what the views among them read, and whether the
/// catalog knows every item that was looked up.
fn scan_items<'a>(
    catalog: &'a SessionCatalog,
    ids: &Vec<GlobalId>,
    role_id: RoleId,
    privileges: &mut Vec<Requirement>,
    seen: &mut Seen,
) -> (scanned: (Vec<Pending<'a>>, bool))
    ensures
        final(privileges)@ == old(privileges)@ + scan(
            catalog@.items,
            ids@,
            role_id,
            old(seen)@,
        ).required,
        frames(scanned.0@) == scan(catalog@.items, ids@, role_id, old(seen)@).views,
        scanned.1 == scan(catalog@.items, ids@, role_id, old(seen)@).known,
        final(seen)@ == scan(catalog@.items, ids@, role_id, old(seen)@).seen,
{
    let ghost items = catalog@.items;
    let ghost seen_before = seen@;
    let ghost required_before = privileges@;
    let mut views: Vec<Pending<'a>> = Vec::new();
    let mut known = true;
    proof {
        assert(ids@.take(0) =~= Seq::empty());
        assert(required_before + Seq::<Requirement>::empty() =~= required_before);
        assert(frames(views@) =~= Seq::<ReadFrame>::empty());
    }
    for n in 0..ids.len()
        invariant
            items == catalog@.items,
            privileges@ == required_before + scan(
                items,
                ids@.take(n as int),
                role_id,
                seen_before,
            ).required,
            frames(views@) == scan(items, ids@.take(n as int), role_id, seen_before).views,
            known == scan(items, ids@.take(n as int), role_id, seen_before).known,
            seen@ == scan(items, ids@.take(n as int), role_id, seen_before).seen,
    {
        let id = ids[n];
        let ghost next = scan(items, ids@.take(n + 1), role_id, seen_before);
        let ghost pending = views@;
        proof {
            assert(ids@.take(n + 1).drop_last() =~= ids@.take(n as int));
            assert(ids@.take(n + 1).last() == id);
        }
        if !seen.contains(ObjectId::Item(id), role_id) {
            match catalog.try_get_item(&id) {
                None => {
                    known = false;
                },
                Some(item) => {
                    seen.insert(ObjectId::Item(id), role_id);
                    let schema_id = item.name.qualifiers.schema_id();
                    if seen.insert(schema_id, role_id) {
                        privileges.push(require(schema_id, Privilege::Usage, role_id));
                    }
                    match item.item_type {
                        CatalogItemType::View | CatalogItemType::MaterializedView => {
                            privileges.push(
                                require(ObjectId::Item(id), Privilege::Select, role_id),
                            );
                            views.push((&item.uses, item.owner_id));
                            proof {
                                assert(items[id].uses == item.uses@);
                                assert(frames(views@) =~= frames(pending).push(
                                    ReadFrame { ids: item.uses@, role: item.owner_id },
                                ));
                            }
                        },
                        CatalogItemType::Table | CatalogItemType::Source => {
                            privileges.push(
                                require(ObjectId::Item(id), Privilege::Select, role_id),
                            );
                        },
                        CatalogItemType::Type
                        | CatalogItemType::Secret
                        | CatalogItemType::Connection => {
                            privileges.push(
                                require(ObjectId::Item(id), Privilege::Usage, role_id),
                            );
                        },
                        CatalogItemType::Sink | CatalogItemType::Index | CatalogItemType::Func => {
                        },
                    }
                    assert(privileges@ =~= required_before + next.required);
                },
            }
        }
    }
    assert(ids@.take(ids@.len() as int) =~= ids@);
    (views, known)
}

/// What a read of the items in `ids` on behalf of `role` takes.
pub open spec fn read_requirements(
    items: Map<GlobalId, ItemView>,
    ids: Seq<GlobalId>,
    role: RoleId,
) -> Seq<Requirement> {
    reads(items, seq![ReadFrame { ids, role }], Set::empty()).required
}

/// Whether a catalog knows every item that a read of the items in `ids` on behalf of `role` looks
/// up, directly or through views.
pub open spec fn read_known(
    items: Map<GlobalId, ItemView>,
    ids: Seq<GlobalId>,
    role: RoleId,
) -> bool {
    reads(items, seq![ReadFrame { ids, role }], Set::empty()).known
}

/// Generates the privileges that a read of the items in `ids` on behalf of `role_id` takes, but
/// for what is in `seen`, and takes down there what was looked at. Returns nothing if the catalog
/// does not know an item that is looked up.
pub fn try_generate_read_privileges_inner(
    catalog: &SessionCatalog,
    ids: &Vec<GlobalId>,
    role_id: RoleId,
    seen: &mut Seen,
) -> (privileges: Option<Vec<Requirement>>)
    ensures
        ({
            let total = reads(
                catalog@.items,
                seq![(ReadFrame { ids: ids@, role: role_id })],
                old(seen)@,
            );
            match privileges {
                Some(privileges) => total.known && privileges@ == total.required,
                None => !total.known,
            }
        }),
        final(seen)@ == reads(
            catalog@.items,
            seq![(ReadFrame { ids: ids@, role: role_id })],
            old(seen)@,
        ).seen,
{
    let ghost items = catalog@.items;
    let ghost total = reads(items, seq![ReadFrame { ids: ids@, role: role_id }], seen@);
    let mut privileges: Vec<Requirement> = Vec::new();
    let mut known = true;
    let mut stack: Vec<Pending> = Vec::new();
    stack.push((ids, role_id));
    proof {
        use_type_invariant(catalog);
        assert(stacked(stack@) =~= seq![ReadFrame { ids: ids@, role: role_id }]);
        assert(privileges@ + total.required =~= total.required);
    }
    while stack.len() > 0
        invariant
            catalog@.wf(),
            items == catalog@.items,
            privileges@ + reads(items, stacked(stack@), seen@).required == total.required,
            (known && reads(items, stacked(stack@), seen@).known) == total.known,
            reads(items, stacked(stack@), seen@).seen == total.seen,
        decreases unseen(items, stacked(stack@), seen@).len(), stack@.len(),
    {
        let ghost whole = stack@;
        let ghost top_seen = seen@;
        let ghost listed = privileges@;
        let (top_ids, top_role) = stack.pop().unwrap();
        let ghost first = scan(items, top_ids@, top_role, top_seen);
        let ghost under = stack@;
        proof {
            lemma_fewer_unseen(items, stacked(whole), top_seen);
            assert(stacked(whole)[0] == ReadFrame { ids: top_ids@, role: top_role });
            assert(stacked(whole).drop_first() =~= stacked(under));
        }
        let scanned = scan_items(catalog, top_ids, top_role, &mut privileges, seen);
        let mut views = scanned.0;
        known = known && scanned.1;
        let ghost found = views@;
        proof {
            assert(found.take(found.len() as int) =~= found);
            assert(frames(found.skip(found.len() as int)) + stacked(under) =~= stacked(under));
        }
        while views.len() > 0
            invariant
                views@.len() <= found.len(),
                views@ == found.take(views@.len() as int),
                stacked(stack@) == frames(found.skip(views@.len() as int)) + stacked(under),
            decreases views@.len(),
        {
            let ghost k = views@.len() - 1;
            let ghost pushed = stack@;
            let view = views.pop().unwrap();
            assert(view == found[k]);
            stack.push(view);
            proof {
                assert(views@ =~= found.take(k));
                assert(stacked(stack@) =~= seq![frame(view)] + stacked(pushed));
                assert(frames(found.skip(k)) =~= seq![frame(view)] + frames(found.skip(k + 1)));
                assert(stacked(stack@) =~= frames(found.skip(k)) + stacked(under));
            }
        }
        proof {
            assert(found.skip(0) =~= found);
            assert(stacked(stack@) == first.views + stacked(whole).drop_first());
            assert(privileges@ + reads(items, stacked(stack@), seen@).required =~= listed + (
            first.required + reads(items, stacked(stack@), seen@).required));
        }
    }
    proof {
        assert(stacked(stack@) =~= Seq::<ReadFrame>::empty());
        assert(privileges@ + Seq::<Requirement>::empty() =~= privileges@);
    }
    if known {
        Some(privileges)
    } else {
        None
    }
}

/// Generates the privileges that a read of the items in `ids` on behalf of `role_id` takes, but
/// for what is in `seen`, and takes down there what was looked at.
pub fn generate_read_privileges_inner(
    catalog: &SessionCatalog,
    ids: &Vec<GlobalId>,
    role_id: RoleId,
    seen: &mut Seen,
) -> (privileges: Vec<Requirement>)
    requires
        reads(
            catalog@.items,
            seq![(ReadFrame { ids: ids@, role: role_id })],
            old(seen)@,
        ).known,
    ensures
        privileges@ == reads(
            catalog@.items,
            seq![(ReadFrame { ids: ids@, role: role_id })],
            old(seen)@,
        ).required,
        final(seen)@ == reads(
            catalog@.items,
            seq![(ReadFrame { ids: ids@, role: role_id })],
            old(seen)@,
        ).seen,
{
    try_generate_read_privileges_inner(catalog, ids, role_id, seen).unwrap()
}

/// Generates all the privileges that a read of the items in `ids` on behalf of `role_id` takes.
///
/// Not only must the role have the privilege to read each of the items. Where an item is a view or
/// a materialized view, its owner must have the privileges that the query in it takes.
pub fn generate_read_privileges(
    catalog: &SessionCatalog,
    ids: &Vec<GlobalId>,
    role_id: RoleId,
) -> (privileges: Vec<Requirement>)
    requires
        read_known(catalog@.items, ids@, role_id),
    ensures
        privileges@ == read_requirements(catalog@.items, ids@, role_id),
{
    let mut seen = Seen::new();
    generate_read_privileges_inner(catalog, ids, role_id, &mut seen)
}

} // verus!
