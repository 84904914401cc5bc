//! What the privileges for reading come to: those for everything that is read, directly or
//! through views, each for the role on whose behalf it is read.

use crate::acl::{AclMode, CatalogItemType, Privilege};
use crate::catalog::ItemView;
use crate::ids::{GlobalId, ObjectId, RoleId, SystemObjectId};
use crate::reads::{
    is_view, item_read, lemma_fewer_unseen, read_known, read_requirements, reads, requirement,
    scan, unseen, ReadFrame, Requirement,
};
use vstd::prelude::*;

verus! {

/// Whether `required` is that `who` must have `privilege` on `id`.
pub open spec fn asks(
    required: Requirement,
    id: SystemObjectId,
    privilege: Privilege,
    who: RoleId,
) -> bool {
    required == (id, AclMode::only(privilege), who)
}

/// The schema that an item lies in.
pub open spec fn schema_of(item: ItemView) -> SystemObjectId {
    SystemObjectId::Object(
        ObjectId::Schema(item.qualifiers.database_spec, item.qualifiers.schema_spec),
    )
}

/// Whether an item holds a query.
pub open spec fn has_query(item: ItemView) -> bool {
    item.item_type == CatalogItemType::View || item.item_type == CatalogItemType::MaterializedView
}

/// Whether an item holds rows, which are selected from it.
pub open spec fn has_rows(item: ItemView) -> bool {
    item.item_type == CatalogItemType::Table || item.item_type == CatalogItemType::Source
        || has_query(item)
}

/// Whether an item is there to be used by others.
pub open spec fn is_used(item: ItemView) -> bool {
    item.item_type == CatalogItemType::Type || item.item_type == CatalogItemType::Secret
        || item.item_type == CatalogItemType::Connection
}

/// Whether a view `from.0`, whoever reads it, reads `to.0` on behalf of `to.1`.
pub open spec fn read_step(
    items: Map<GlobalId, ItemView>,
    from: (GlobalId, RoleId),
    to: (GlobalId, RoleId),
) -> bool {
    &&& items.contains_key(from.0)
    &&& has_query(items[from.0])
    &&& items[from.0].uses.contains(to.0)
    &&& to.1 == items[from.0].owner
}

/// Whether `path` leads from one of `ids`, read on behalf of `role`, through views.
pub open spec fn read_path(
    items: Map<GlobalId, ItemView>,
    ids: Seq<GlobalId>,
    role: RoleId,
    path: Seq<(GlobalId, RoleId)>,
) -> bool
    decreases path.len(),
{
    if path.len() == 0 {
        false
    } else if path.len() == 1 {
        ids.contains(path[0].0) && path[0].1 == role
    } else {
        read_path(items, ids, role, path.drop_last()) && read_step(
            items,
            path[path.len() - 2],
            path.last(),
        )
    }
}

/// Whether a read of `ids` on behalf of `role` reads `id` on behalf of `reader`, directly or
/// through views.
pub open spec fn is_read(
    items: Map<GlobalId, ItemView>,
    ids: Seq<GlobalId>,
    role: RoleId,
    id: GlobalId,
    reader: RoleId,
) -> bool {
    exists|path: Seq<(GlobalId, RoleId)>| #[trigger]
        read_path(items, ids, role, path) && path.last() == (id, reader)
}

/// Whether `required` is what it takes on the item itself that `reader` reads `id`: to select from
/// what has rows, and to use what is there to be used.
pub open spec fn is_on_item(
    items: Map<GlobalId, ItemView>,
    required: Requirement,
    id: GlobalId,
    reader: RoleId,
) -> bool {
    let object = SystemObjectId::Object(ObjectId::Item(id));
    ||| has_rows(items[id]) && asks(required, object, Privilege::Select, reader)
    ||| is_used(items[id]) && asks(required, object, Privilege::Usage, reader)
}

/// What reading takes on an item itself is to select from it or to use it.
proof fn lemma_item_read(
    items: Map<GlobalId, ItemView>,
    required: Requirement,
    id: GlobalId,
    reader: RoleId,
)
    ensures
        item_read(items[id], id, reader).contains(required) <==> is_on_item(
            items,
            required,
            id,
            reader,
        ),
{
    let own = item_read(items[id], id, reader);
    if own.contains(required) {
        assert(own[own.index_of(required)] == required);
    }
    if is_on_item(items, required, id, reader) {
        assert(own[0] == required);
    }
}

/// Whether `required` is what it takes that `reader` reads `id`: usage of the schema, or the
/// privilege on the item itself.
pub open spec fn is_for(
    items: Map<GlobalId, ItemView>,
    required: Requirement,
    id: GlobalId,
    reader: RoleId,
) -> bool {
    ||| asks(required, schema_of(items[id]), Privilege::Usage, reader)
    ||| is_on_item(items, required, id, reader)
}

/// Whether a read of some frame reads `id` on behalf of `reader`.
spec fn is_read_by(
    items: Map<GlobalId, ItemView>,
    frames: Seq<ReadFrame>,
    id: GlobalId,
    reader: RoleId,
) -> bool {
    exists|k: int|
        0 <= k < frames.len() && is_read(
            items,
            (#[trigger] frames[k]).ids,
            frames[k].role,
            id,
            reader,
        )
}

/// Whether `required` is what it takes that `role` reads one of `ids`.
spec fn is_for_some(
    items: Map<GlobalId, ItemView>,
    required: Requirement,
    ids: Seq<GlobalId>,
    role: RoleId,
) -> bool {
    exists|id: GlobalId| #[trigger]
        ids.contains(id) && items.contains_key(id) && is_for(items, required, id, role)
}

/// Whether `frame` is what one of `ids` reads, which is a view.
spec fn is_view_of_some(
    items: Map<GlobalId, ItemView>,
    frame: ReadFrame,
    ids: Seq<GlobalId>,
) -> bool {
    exists|id: GlobalId| #[trigger]
        ids.contains(id) && items.contains_key(id) && is_view(items[id].item_type) && frame == (
        ReadFrame { ids: items[id].uses, role: items[id].owner })
}

/// What a scan looked at, and what it makes of it.
proof fn lemma_scan(
    items: Map<GlobalId, ItemView>,
    ids: Seq<GlobalId>,
    role: RoleId,
    seen: Set<(ObjectId, RoleId)>,
)
    ensures
        ({
            let s = scan(items, ids, role, seen);
            &&& seen.subset_of(s.seen)
            &&& forall|i: int|
                0 <= i < ids.len() && items.contains_key(#[trigger] ids[i]) ==> s.seen.contains(
                    (ObjectId::Item(ids[i]), role),
                )
            &&& forall|id: GlobalId, r: RoleId| #[trigger]
                s.seen.contains((ObjectId::Item(id), r)) && !seen.contains((ObjectId::Item(id), r))
                    ==> {
                    &&& r == role
                    &&& ids.contains(id)
                    &&& items.contains_key(id)
                    &&& s.seen.contains((items[id].qualifiers.schema(), r))
                    &&& forall|q: Requirement| #[trigger]
                        item_read(items[id], id, r).contains(q) ==> s.required.contains(q)
                    &&& is_view(items[id].item_type) ==> s.views.contains(
                        ReadFrame { ids: items[id].uses, role: items[id].owner },
                    )
                }
            &&& forall|o: ObjectId, r: RoleId| #[trigger]
                s.seen.contains((o, r)) && !seen.contains((o, r)) && !(o is Item)
                    ==> s.required.contains(requirement(o, Privilege::Usage, r))
            &&& forall|n: int|
                0 <= n < s.required.len() ==> is_for_some(
                    items,
                    #[trigger] s.required[n],
                    ids,
                    role,
                )
            &&& forall|n: int|
                0 <= n < s.views.len() ==> is_view_of_some(items, #[trigger] s.views[n], ids)
        }),
    decreases ids.len(),
{
    if ids.len() > 0 {
        let front = ids.drop_last();
        let id = ids.last();
        let b = scan(items, front, role, seen);
        let s = scan(items, ids, role, seen);
        lemma_scan(items, front, role, seen);
        assert forall|x: GlobalId| front.contains(x) implies ids.contains(x) by {
            assert(ids[front.index_of(x)] == x);
        };
        assert(ids.contains(id));
        assert forall|i: int|
            0 <= i < ids.len() && items.contains_key(#[trigger] ids[i]) implies s.seen.contains(
            (ObjectId::Item(ids[i]), role),
        ) by {
            if i < front.len() {
                assert(front[i] == ids[i]);
            }
        };
        if b.seen.contains((ObjectId::Item(id), role)) || !items.contains_key(id) {
            assert forall|n: int| 0 <= n < s.required.len() implies is_for_some(
                items,
                #[trigger] s.required[n],
                ids,
                role,
            ) by {
                assert(is_for_some(items, b.required[n], front, role));
                let x = choose|x: GlobalId| #[trigger]
                    front.contains(x) && items.contains_key(x) && is_for(
                        items,
                        b.required[n],
                        x,
                        role,
                    );
                assert(ids.contains(x));
            };
        } else {
            let schema = items[id].qualifiers.schema();
            let usage: Seq<Requirement> = if b.seen.contains((schema, role)) {
                seq![]
            } else {
                seq![requirement(schema, Privilege::Usage, role)]
            };
            let own = item_read(items[id], id, role);
            assert(s.required == b.required + usage + own);
            assert forall|q: Requirement| b.required.contains(q) implies s.required.contains(q) by {
                assert(s.required[b.required.index_of(q)] == q);
            };
            assert forall|q: Requirement| usage.contains(q) implies s.required.contains(q) by {
                assert(s.required[b.required.len() + usage.index_of(q)] == q);
            };
            assert forall|q: Requirement| own.contains(q) implies s.required.contains(q) by {
                assert(s.required[b.required.len() + usage.len() + own.index_of(q)] == q);
            };
            assert(!b.seen.contains((schema, role)) ==> usage[0] == requirement(
                schema,
                Privilege::Usage,
                role,
            ));
            assert forall|o: ObjectId, r: RoleId| #[trigger]
                s.seen.contains((o, r)) && !seen.contains((o, r)) && !(o
                    is Item) implies s.required.contains(
                requirement(o, Privilege::Usage, r),
            ) by {
                if !b.seen.contains((o, r)) {
                    assert(o == schema && r == role);
                    assert(usage.contains(usage[0]));
                }
            };
            let new_view = ReadFrame { ids: items[id].uses, role: items[id].owner };
            assert forall|f: ReadFrame| b.views.contains(f) implies s.views.contains(f) by {
                assert(s.views[b.views.index_of(f)] == f);
            };
            if is_view(items[id].item_type) {
                assert(s.views[b.views.len() as int] == new_view);
            }
            assert forall|n: int| 0 <= n < s.required.len() implies is_for_some(
                items,
                #[trigger] s.required[n],
                ids,
                role,
            ) by {
                if n < b.required.len() {
                    assert(s.required[n] == b.required[n]);
                    assert(is_for_some(items, b.required[n], front, role));
                    let x = choose|x: GlobalId| #[trigger]
                        front.contains(x) && items.contains_key(x) && is_for(
                            items,
                            b.required[n],
                            x,
                            role,
                        );
                    assert(ids.contains(x));
                } else if n < b.required.len() + usage.len() {
                    assert(s.required[n] == usage[n - b.required.len()]);
                    assert(is_for(items, s.required[n], id, role));
                } else {
                    let m = n - b.required.len() - usage.len();
                    assert(s.required[n] == own[m]);
                    assert(own.contains(own[m]));
                    lemma_item_read(items, own[m], id, role);
                    assert(is_for(items, s.required[n], id, role));
                }
            };
        }
        assert forall|n: int| 0 <= n < s.views.len() implies is_view_of_some(
            items,
            #[trigger] s.views[n],
            ids,
        ) by {
            if n < b.views.len() {
                assert(s.views[n] == b.views[n]);
                assert(is_view_of_some(items, b.views[n], front));
                let x = choose|x: GlobalId| #[trigger]
                    front.contains(x) && items.contains_key(x) && is_view(items[x].item_type)
                        && b.views[n] == (ReadFrame {
                        ids: items[x].uses,
                        role: items[x].owner,
                    });
                assert(ids.contains(x));
            } else {
                assert(ids.contains(id));
            }
        };
    }
}

/// Whether `required` is what it takes that someone reads something that `frames` read.
spec fn is_for_read(
    items: Map<GlobalId, ItemView>,
    required: Requirement,
    frames: Seq<ReadFrame>,
) -> bool {
    exists|id: GlobalId, reader: RoleId| #[trigger]
        is_read_by(items, frames, id, reader) && items.contains_key(id) && is_for(
            items,
            required,
            id,
            reader,
        )
}

/// What a view reads is read by who reads the view.
proof fn lemma_path_through_view(
    items: Map<GlobalId, ItemView>,
    ids: Seq<GlobalId>,
    role: RoleId,
    view: GlobalId,
    path: Seq<(GlobalId, RoleId)>,
)
    requires
        ids.contains(view),
        items.contains_key(view),
        is_view(items[view].item_type),
        read_path(items, items[view].uses, items[view].owner, path),
    ensures
        read_path(items, ids, role, seq![(view, role)] + path),
    decreases path.len(),
{
    let longer = seq![(view, role)] + path;
    if path.len() == 1 {
        assert(longer.drop_last() =~= seq![(view, role)]);
        assert(read_path(items, ids, role, seq![(view, role)]));
    } else {
        lemma_path_through_view(items, ids, role, view, path.drop_last());
        assert(longer.drop_last() =~= seq![(view, role)] + path.drop_last());
    }
}

/// What is read after the first of `frames` is read by `frames`.
proof fn lemma_read_later(
    items: Map<GlobalId, ItemView>,
    frames: Seq<ReadFrame>,
    seen: Set<(ObjectId, RoleId)>,
    id: GlobalId,
    reader: RoleId,
)
    requires
        frames.len() > 0,
        is_read_by(
            items,
            scan(items, frames[0].ids, frames[0].role, seen).views + frames.drop_first(),
            id,
            reader,
        ),
    ensures
        is_read_by(items, frames, id, reader),
{
    let ids = frames[0].ids;
    let role = frames[0].role;
    let views = scan(items, ids, role, seen).views;
    let rest = views + frames.drop_first();
    lemma_scan(items, ids, role, seen);
    let k = choose|k: int|
        0 <= k < rest.len() && is_read(items, (#[trigger] rest[k]).ids, rest[k].role, id, reader);
    if k < views.len() {
        assert(is_view_of_some(items, views[k], ids));
        let view = choose|x: GlobalId| #[trigger]
            ids.contains(x) && items.contains_key(x) && is_view(items[x].item_type) && views[k] == (
            ReadFrame { ids: items[x].uses, role: items[x].owner });
        let path = choose|path: Seq<(GlobalId, RoleId)>| #[trigger]
            read_path(items, rest[k].ids, rest[k].role, path) && path.last() == (id, reader);
        lemma_path_through_view(items, ids, role, view, path);
        assert((seq![(view, role)] + path).last() == (id, reader));
        assert(is_read(items, frames[0].ids, frames[0].role, id, reader));
    } else {
        let j = k - views.len() + 1;
        assert(rest[k] == frames[j]);
    }
}

/// What reading looked at, and what it makes of it.
proof fn lemma_reads(
    items: Map<GlobalId, ItemView>,
    frames: Seq<ReadFrame>,
    seen: Set<(ObjectId, RoleId)>,
)
    requires
        items.dom().finite(),
    ensures
        ({
            let out = reads(items, frames, seen);
            &&& seen.subset_of(out.seen)
            &&& forall|k: int, i: int|
                0 <= k < frames.len() && 0 <= i < frames[k].ids.len() && items.contains_key(
                    #[trigger] frames[k].ids[i],
                ) ==> out.seen.contains((ObjectId::Item(frames[k].ids[i]), frames[k].role))
            &&& forall|id: GlobalId, r: RoleId| #[trigger]
                out.seen.contains((ObjectId::Item(id), r)) && !seen.contains(
                    (ObjectId::Item(id), r),
                ) ==> {
                    &&& items.contains_key(id)
                    &&& out.seen.contains((items[id].qualifiers.schema(), r))
                    &&& forall|q: Requirement| #[trigger]
                        item_read(items[id], id, r).contains(q) ==> out.required.contains(q)
                    &&& forall|i: int|
                        is_view(items[id].item_type) && 0 <= i < items[id].uses.len()
                            && items.contains_key(#[trigger] items[id].uses[i])
                            ==> out.seen.contains(
                            (ObjectId::Item(items[id].uses[i]), items[id].owner),
                        )
                }
            &&& forall|o: ObjectId, r: RoleId| #[trigger]
                out.seen.contains((o, r)) && !seen.contains((o, r)) && !(o is Item)
                    ==> out.required.contains(requirement(o, Privilege::Usage, r))
            &&& forall|n: int|
                0 <= n < out.required.len() ==> is_for_read(
                    items,
                    #[trigger] out.required[n],
                    frames,
                )
        }),
    decreases unseen(items, frames, seen).len(), frames.len(),
{
    let out = reads(items, frames, seen);
    if frames.len() > 0 {
        let ids = frames[0].ids;
        let role = frames[0].role;
        let s = scan(items, ids, role, seen);
        let rest = s.views + frames.drop_first();
        let late = reads(items, rest, s.seen);
        lemma_scan(items, ids, role, seen);
        lemma_fewer_unseen(items, frames, seen);
        lemma_reads(items, rest, s.seen);
        assert(out.required == s.required + late.required);
        assert forall|q: Requirement| s.required.contains(q) implies out.required.contains(q) by {
            assert(out.required[s.required.index_of(q)] == q);
        };
        assert forall|q: Requirement| late.required.contains(q) implies out.required.contains(
            q,
        ) by {
            assert(out.required[s.required.len() + late.required.index_of(q)] == q);
        };
        assert forall|k: int, i: int|
            0 <= k < frames.len() && 0 <= i < frames[k].ids.len() && items.contains_key(
                #[trigger] frames[k].ids[i],
            ) implies out.seen.contains((ObjectId::Item(frames[k].ids[i]), frames[k].role)) by {
            if k == 0 {
                assert(s.seen.contains((ObjectId::Item(ids[i]), role)));
            } else {
                let j = s.views.len() + k - 1;
                assert(rest[j] == frames[k]);
                assert(items.contains_key(rest[j].ids[i]));
            }
        };
        assert forall|id: GlobalId, r: RoleId, i: int|
            #![trigger out.seen.contains((ObjectId::Item(id), r)), items[id].uses[i]]
            out.seen.contains((ObjectId::Item(id), r)) && !seen.contains((ObjectId::Item(id), r))
                && is_view(items[id].item_type) && 0 <= i < items[id].uses.len()
                && items.contains_key(items[id].uses[i]) implies out.seen.contains(
            (ObjectId::Item(items[id].uses[i]), items[id].owner),
        ) by {
            if s.seen.contains((ObjectId::Item(id), r)) {
                let frame = ReadFrame { ids: items[id].uses, role: items[id].owner };
                assert(s.views.contains(frame));
                let k = s.views.index_of(frame);
                assert(rest[k] == frame);
                assert(items.contains_key(rest[k].ids[i]));
            }
        };
        assert forall|n: int| 0 <= n < out.required.len() implies is_for_read(
            items,
            #[trigger] out.required[n],
            frames,
        ) by {
            let q = out.required[n];
            if n < s.required.len() {
                assert(q == s.required[n]);
                assert(is_for_some(items, q, ids, role));
                let id = choose|id: GlobalId| #[trigger]
                    ids.contains(id) && items.contains_key(id) && is_for(items, q, id, role);
                assert(read_path(items, ids, role, seq![(id, role)]));
                assert(seq![(id, role)].last() == (id, role));
                assert(is_read(items, frames[0].ids, frames[0].role, id, role));
                assert(is_read_by(items, frames, id, role));
            } else {
                assert(q == late.required[n - s.required.len()]);
                assert(is_for_read(items, q, rest));
                let (id, reader) = choose|id: GlobalId, reader: RoleId| #[trigger]
                    is_read_by(items, rest, id, reader) && items.contains_key(id) && is_for(
                        items,
                        q,
                        id,
                        reader,
                    );
                lemma_read_later(items, frames, seen, id, reader);
            }
        };
    }
}

/// Whether no view that a read of `ids` on behalf of `role` reads had been looked at on behalf of
/// the same reader.
pub open spec fn no_view_in(
    items: Map<GlobalId, ItemView>,
    ids: Seq<GlobalId>,
    role: RoleId,
    seen: Set<(ObjectId, RoleId)>,
) -> bool {
    forall|id: GlobalId, reader: RoleId| #[trigger]
        seen.contains((ObjectId::Item(id), reader)) && items.contains_key(id) && is_read(
            items,
            ids,
            role,
            id,
            reader,
        ) ==> !has_query(items[id])
}

/// What a path leads to was looked at, unless the path leads through a view that had been looked
/// at before.
proof fn lemma_path_seen(
    items: Map<GlobalId, ItemView>,
    ids: Seq<GlobalId>,
    role: RoleId,
    seen: Set<(ObjectId, RoleId)>,
    path: Seq<(GlobalId, RoleId)>,
)
    requires
        items.dom().finite(),
        no_view_in(items, ids, role, seen),
        read_path(items, ids, role, path),
        items.contains_key(path.last().0),
    ensures
        reads(items, seq![ReadFrame { ids, role }], seen).seen.contains(
            (ObjectId::Item(path.last().0), path.last().1),
        ),
    decreases path.len(),
{
    let frames = seq![ReadFrame { ids, role }];
    let out = reads(items, frames, seen);
    lemma_reads(items, frames, seen);
    if path.len() == 1 {
        let i = ids.index_of(path[0].0);
        assert(frames[0].ids[i] == path[0].0);
    } else {
        let front = path.drop_last();
        let from = front.last();
        assert(from == path[path.len() - 2]);
        lemma_path_seen(items, ids, role, seen, front);
        let i = items[from.0].uses.index_of(path.last().0);
        assert(out.seen.contains((ObjectId::Item(from.0), from.1)));
        assert(is_read(items, ids, role, from.0, from.1));
        assert(items[from.0].uses[i] == path.last().0);
    }
}

/// Reading takes all that is needed: whatever is read, directly or through views, the role on
/// whose behalf it is read must have usage of its schema and the privilege on the item itself.
/// For what a view reads, that role is the owner of the view. Only what had been looked at before
/// is left out, and as long as no view that is read is among that, nothing else is.
pub proof fn law_reads_take_all(
    items: Map<GlobalId, ItemView>,
    ids: Seq<GlobalId>,
    role: RoleId,
    seen: Set<(ObjectId, RoleId)>,
    id: GlobalId,
    reader: RoleId,
)
    requires
        items.dom().finite(),
        no_view_in(items, ids, role, seen),
        items.contains_key(id),
        is_read(items, ids, role, id, reader),
    ensures
        ({
            let required = reads(items, seq![ReadFrame { ids, role }], seen).required;
            let schema = ObjectId::Schema(
                items[id].qualifiers.database_spec,
                items[id].qualifiers.schema_spec,
            );
            &&& !seen.contains((ObjectId::Item(id), reader)) ==> forall|r: Requirement| #[trigger]
                is_on_item(items, r, id, reader) ==> required.contains(r)
            &&& !seen.contains((ObjectId::Item(id), reader)) && !seen.contains((schema, reader))
                ==> forall|r: Requirement| #[trigger]
                asks(r, schema_of(items[id]), Privilege::Usage, reader) ==> required.contains(r)
        }),
{
    let frames = seq![ReadFrame { ids, role }];
    let path = choose|path: Seq<(GlobalId, RoleId)>| #[trigger]
        read_path(items, ids, role, path) && path.last() == (id, reader);
    lemma_path_seen(items, ids, role, seen, path);
    lemma_reads(items, frames, seen);
    let out = reads(items, frames, seen);
    assert(out.seen.contains((ObjectId::Item(id), reader)));
    if !seen.contains((ObjectId::Item(id), reader)) {
        assert(out.seen.contains((items[id].qualifiers.schema(), reader)));
        assert forall|r: Requirement| #[trigger] is_on_item(
            items,
            r,
            id,
            reader,
        ) implies out.required.contains(r) by {
            lemma_item_read(items, r, id, reader);
        };
    }
}

/// Reading takes no more than is needed: each privilege that it takes is for an item that is read,
/// directly or through views, by the role that must have the privilege.
pub proof fn law_reads_take_no_more(
    items: Map<GlobalId, ItemView>,
    ids: Seq<GlobalId>,
    role: RoleId,
    seen: Set<(ObjectId, RoleId)>,
    required: Requirement,
)
    requires
        items.dom().finite(),
        reads(items, seq![ReadFrame { ids, role }], seen).required.contains(required),
    ensures
        exists|id: GlobalId, reader: RoleId| #[trigger]
            is_read(items, ids, role, id, reader) && items.contains_key(id) && is_for(
                items,
                required,
                id,
                reader,
            ),
{
    let frames = seq![ReadFrame { ids, role }];
    lemma_reads(items, frames, seen);
    let out = reads(items, frames, seen);
    let n = out.required.index_of(required);
    assert(is_for_read(items, out.required[n], frames));
    let (id, reader) = choose|id: GlobalId, reader: RoleId| #[trigger]
        is_read_by(items, frames, id, reader) && items.contains_key(id) && is_for(
            items,
            required,
            id,
            reader,
        );
    assert(is_read(items, frames[0].ids, frames[0].role, id, reader));
}

/// What a read takes is exactly what it takes that everyone reads what is read on their behalf:
/// the role what it reads itself, and the owner of each view what the view reads.
pub proof fn law_read_requirements(
    items: Map<GlobalId, ItemView>,
    ids: Seq<GlobalId>,
    role: RoleId,
    required: Requirement,
)
    requires
        items.dom().finite(),
    ensures
        read_requirements(items, ids, role).contains(required) <==> exists|
            id: GlobalId,
            reader: RoleId,
        | #[trigger]
            is_read(items, ids, role, id, reader) && items.contains_key(id) && is_for(
                items,
                required,
                id,
                reader,
            ),
{
    let none = Set::<(ObjectId, RoleId)>::empty();
    if read_requirements(items, ids, role).contains(required) {
        law_reads_take_no_more(items, ids, role, none, required);
    }
    if exists|id: GlobalId, reader: RoleId| #[trigger]
        is_read(items, ids, role, id, reader) && items.contains_key(id) && is_for(
            items,
            required,
            id,
            reader,
        ) {
        let (id, reader) = choose|id: GlobalId, reader: RoleId| #[trigger]
            is_read(items, ids, role, id, reader) && items.contains_key(id) && is_for(
                items,
                required,
                id,
                reader,
            );
        law_reads_take_all(items, ids, role, none, id, reader);
    }
}

/// Whether `id` is unknown though `frames` read it on behalf of `reader`, for whom it had not been
/// looked at.
spec fn is_missing(
    items: Map<GlobalId, ItemView>,
    frames: Seq<ReadFrame>,
    seen: Set<(ObjectId, RoleId)>,
    id: GlobalId,
    reader: RoleId,
) -> bool {
    is_read_by(items, frames, id, reader) && !items.contains_key(id) && !seen.contains(
        (ObjectId::Item(id), reader),
    )
}

/// A scan finds all known exactly if it knows all of what it looks up.
proof fn lemma_scan_known(
    items: Map<GlobalId, ItemView>,
    ids: Seq<GlobalId>,
    role: RoleId,
    seen: Set<(ObjectId, RoleId)>,
)
    ensures
        scan(items, ids, role, seen).known <==> forall|i: int|
            0 <= i < ids.len() ==> items.contains_key(#[trigger] ids[i]) || seen.contains(
                (ObjectId::Item(ids[i]), role),
            ),
    decreases ids.len(),
{
    if ids.len() > 0 {
        let front = ids.drop_last();
        let id = ids.last();
        let b = scan(items, front, role, seen);
        lemma_scan_known(items, front, role, seen);
        lemma_scan(items, front, role, seen);
        if scan(items, ids, role, seen).known {
            assert forall|i: int| 0 <= i < ids.len() implies items.contains_key(#[trigger] ids[i])
                || seen.contains((ObjectId::Item(ids[i]), role)) by {
                if i < front.len() {
                    assert(front[i] == ids[i]);
                }
            };
        } else if forall|i: int|
            0 <= i < ids.len() ==> items.contains_key(#[trigger] ids[i]) || seen.contains(
                (ObjectId::Item(ids[i]), role),
            ) {
            assert forall|i: int| 0 <= i < front.len() implies items.contains_key(
                #[trigger] front[i],
            ) || seen.contains((ObjectId::Item(front[i]), role)) by {
                assert(front[i] == ids[i]);
            };
            assert(ids[ids.len() - 1] == id);
        }
    }
}

/// Reading that finds something unknown reads something that is missing.
proof fn lemma_unknown_is_missing(
    items: Map<GlobalId, ItemView>,
    frames: Seq<ReadFrame>,
    seen: Set<(ObjectId, RoleId)>,
)
    requires
        items.dom().finite(),
        !reads(items, frames, seen).known,
    ensures
        exists|id: GlobalId, reader: RoleId| #[trigger]
            is_missing(items, frames, seen, id, reader),
    decreases unseen(items, frames, seen).len(), frames.len(),
{
    let ids = frames[0].ids;
    let role = frames[0].role;
    let s = scan(items, ids, role, seen);
    lemma_scan_known(items, ids, role, seen);
    if !s.known {
        let i = choose|i: int|
            0 <= i < ids.len() && !items.contains_key(#[trigger] ids[i]) && !seen.contains(
                (ObjectId::Item(ids[i]), role),
            );
        let path = seq![(ids[i], role)];
        assert(read_path(items, ids, role, path));
        assert(path.last() == (ids[i], role));
        assert(is_read(items, frames[0].ids, frames[0].role, ids[i], role));
        assert(is_missing(items, frames, seen, ids[i], role));
    } else {
        let rest = s.views + frames.drop_first();
        lemma_fewer_unseen(items, frames, seen);
        lemma_unknown_is_missing(items, rest, s.seen);
        let (id, reader) = choose|id: GlobalId, reader: RoleId| #[trigger]
            is_missing(items, rest, s.seen, id, reader);
        lemma_read_later(items, frames, seen, id, reader);
        lemma_scan(items, ids, role, seen);
        assert(is_missing(items, frames, seen, id, reader));
    }
}

/// Where reading finds all known, every item that it is to read, and every item that a view reads
/// which it looked at, is known or had been looked at before.
proof fn lemma_known_reads(
    items: Map<GlobalId, ItemView>,
    frames: Seq<ReadFrame>,
    seen: Set<(ObjectId, RoleId)>,
)
    requires
        items.dom().finite(),
        reads(items, frames, seen).known,
    ensures
        forall|k: int, i: int|
            0 <= k < frames.len() && 0 <= i < frames[k].ids.len() ==> items.contains_key(
                #[trigger] frames[k].ids[i],
            ) || seen.contains((ObjectId::Item(frames[k].ids[i]), frames[k].role)),
        forall|id: GlobalId, r: RoleId, i: int|
            #![trigger
                reads(items, frames, seen).seen.contains((ObjectId::Item(id), r)),
                items[id].uses[i]]
            reads(items, frames, seen).seen.contains((ObjectId::Item(id), r)) && !seen.contains(
                (ObjectId::Item(id), r),
            ) && is_view(items[id].item_type) && 0 <= i < items[id].uses.len()
                ==> items.contains_key(items[id].uses[i]) || seen.contains(
                (ObjectId::Item(items[id].uses[i]), items[id].owner),
            ),
    decreases unseen(items, frames, seen).len(), frames.len(),
{
    if frames.len() > 0 {
        let ids = frames[0].ids;
        let role = frames[0].role;
        let s = scan(items, ids, role, seen);
        let rest = s.views + frames.drop_first();
        let out = reads(items, frames, seen);
        lemma_scan(items, ids, role, seen);
        lemma_scan_known(items, ids, role, seen);
        lemma_fewer_unseen(items, frames, seen);
        lemma_known_reads(items, rest, s.seen);
        assert forall|x: GlobalId, r: RoleId| #[trigger]
            s.seen.contains((ObjectId::Item(x), r)) implies items.contains_key(x) || seen.contains(
            (ObjectId::Item(x), r),
        ) by {};
        assert forall|k: int, i: int|
            0 <= k < frames.len() && 0 <= i < frames[k].ids.len() implies items.contains_key(
            #[trigger] frames[k].ids[i],
        ) || seen.contains((ObjectId::Item(frames[k].ids[i]), frames[k].role)) by {
            if k > 0 {
                let j = s.views.len() + k - 1;
                assert(rest[j] == frames[k]);
                assert(items.contains_key(rest[j].ids[i]) || s.seen.contains(
                    (ObjectId::Item(rest[j].ids[i]), rest[j].role),
                ));
            } else {
                assert(items.contains_key(ids[i]) || seen.contains((ObjectId::Item(ids[i]), role)));
            }
        };
        assert forall|id: GlobalId, r: RoleId, i: int|
            #![trigger out.seen.contains((ObjectId::Item(id), r)), items[id].uses[i]]
            out.seen.contains((ObjectId::Item(id), r)) && !seen.contains((ObjectId::Item(id), r))
                && is_view(items[id].item_type) && 0 <= i
                < items[id].uses.len() implies items.contains_key(items[id].uses[i])
            || seen.contains((ObjectId::Item(items[id].uses[i]), items[id].owner)) by {
            let used = items[id].uses[i];
            if s.seen.contains((ObjectId::Item(id), r)) {
                let frame = ReadFrame { ids: items[id].uses, role: items[id].owner };
                assert(s.views.contains(frame));
                let k = s.views.index_of(frame);
                assert(rest[k] == frame);
                assert(items.contains_key(rest[k].ids[i]) || s.seen.contains(
                    (ObjectId::Item(rest[k].ids[i]), rest[k].role),
                ));
            } else {
                assert(reads(items, rest, s.seen).seen.contains((ObjectId::Item(id), r)));
                assert(items.contains_key(used) || s.seen.contains(
                    (ObjectId::Item(used), items[id].owner),
                ));
            }
        };
    }
}

/// What a read looks up is what it reads, directly or through views, but for what had been looked
/// at before: the read finds all known exactly if the catalog knows all of that, as long as no
/// view that is read is among what had been looked at.
pub proof fn law_reads_look_up_what_is_read(
    items: Map<GlobalId, ItemView>,
    ids: Seq<GlobalId>,
    role: RoleId,
    seen: Set<(ObjectId, RoleId)>,
)
    requires
        items.dom().finite(),
        no_view_in(items, ids, role, seen),
    ensures
        reads(items, seq![ReadFrame { ids, role }], seen).known <==> forall|
            id: GlobalId,
            reader: RoleId,
        | #[trigger]
            is_read(items, ids, role, id, reader) ==> items.contains_key(id) || seen.contains(
                (ObjectId::Item(id), reader),
            ),
{
    let frames = seq![ReadFrame { ids, role }];
    let out = reads(items, frames, seen);
    if out.known {
        lemma_known_reads(items, frames, seen);
        assert forall|id: GlobalId, reader: RoleId| #[trigger]
            is_read(items, ids, role, id, reader) implies items.contains_key(id) || seen.contains(
            (ObjectId::Item(id), reader),
        ) by {
            let path = choose|path: Seq<(GlobalId, RoleId)>| #[trigger]
                read_path(items, ids, role, path) && path.last() == (id, reader);
            if path.len() == 1 {
                let i = ids.index_of(id);
                assert(frames[0].ids[i] == id);
            } else {
                let front = path.drop_last();
                let from = front.last();
                assert(from == path[path.len() - 2]);
                lemma_path_seen(items, ids, role, seen, front);
                assert(front.last() == (from.0, from.1));
                assert(read_path(items, ids, role, front));
                assert(is_read(items, ids, role, from.0, from.1));
                let i = items[from.0].uses.index_of(id);
                assert(out.seen.contains((ObjectId::Item(from.0), from.1)));
                assert(items[from.0].uses[i] == id);
            }
        };
    } else {
        lemma_unknown_is_missing(items, frames, seen);
        let (id, reader) = choose|id: GlobalId, reader: RoleId| #[trigger]
            is_missing(items, frames, seen, id, reader);
        assert(is_read(items, frames[0].ids, frames[0].role, id, reader));
    }
}

/// Nothing comes of a scan of what had been looked at.
proof fn lemma_scan_of_seen(
    items: Map<GlobalId, ItemView>,
    ids: Seq<GlobalId>,
    role: RoleId,
    seen: Set<(ObjectId, RoleId)>,
)
    requires
        forall|i: int|
            0 <= i < ids.len() && items.contains_key(#[trigger] ids[i]) ==> seen.contains(
                (ObjectId::Item(ids[i]), role),
            ),
    ensures
        scan(items, ids, role, seen).required == Seq::<Requirement>::empty(),
        scan(items, ids, role, seen).views == Seq::<ReadFrame>::empty(),
        scan(items, ids, role, seen).seen == seen,
    decreases ids.len(),
{
    if ids.len() > 0 {
        let front = ids.drop_last();
        assert forall|i: int|
            0 <= i < front.len() && items.contains_key(#[trigger] front[i]) implies seen.contains(
            (ObjectId::Item(front[i]), role),
        ) by {
            assert(front[i] == ids[i]);
        };
        lemma_scan_of_seen(items, front, role, seen);
        assert(ids[ids.len() - 1] == ids.last());
    }
}

/// To read the same again on behalf of the same role takes nothing more, and nothing more is
/// taken down.
pub proof fn law_second_read_takes_nothing(
    items: Map<GlobalId, ItemView>,
    ids: Seq<GlobalId>,
    role: RoleId,
    seen: Set<(ObjectId, RoleId)>,
)
    requires
        items.dom().finite(),
    ensures
        ({
            let frames = seq![ReadFrame { ids, role }];
            let again = reads(items, frames, reads(items, frames, seen).seen);
            again.required == Seq::<Requirement>::empty() && again.seen == reads(
                items,
                frames,
                seen,
            ).seen
        }),
{
    let frames = seq![ReadFrame { ids, role }];
    let out = reads(items, frames, seen);
    lemma_reads(items, frames, seen);
    assert forall|i: int|
        0 <= i < ids.len() && items.contains_key(#[trigger] ids[i]) implies out.seen.contains(
        (ObjectId::Item(ids[i]), role),
    ) by {
        assert(frames[0].ids[i] == ids[i]);
    };
    lemma_scan_of_seen(items, ids, role, out.seen);
    let first = scan(items, ids, role, out.seen);
    let rest = reads(items, first.views + frames.drop_first(), first.seen);
    assert(first.views + frames.drop_first() =~= Seq::<ReadFrame>::empty());
    assert(rest.required == Seq::<Requirement>::empty() && rest.seen == out.seen);
    assert(first.required + rest.required =~= Seq::<Requirement>::empty());
    assert(frames[0] == ReadFrame { ids, role });
}

/// Looking at items is looking at some of them and then at the others, with what was seen of the
/// former.
pub proof fn law_scan_in_turn(
    items: Map<GlobalId, ItemView>,
    a: Seq<GlobalId>,
    b: Seq<GlobalId>,
    role: RoleId,
    seen: Set<(ObjectId, RoleId)>,
)
    ensures
        ({
            let first = scan(items, a, role, seen);
            let second = scan(items, b, role, first.seen);
            let both = scan(items, a + b, role, seen);
            &&& both.required == first.required + second.required
            &&& both.views == first.views + second.views
            &&& both.seen == second.seen
            &&& both.known == (first.known && second.known)
        }),
    decreases b.len(),
{
    let first = scan(items, a, role, seen);
    if b.len() == 0 {
        assert(a + b =~= a);
        assert(first.required + Seq::<Requirement>::empty() =~= first.required);
        assert(first.views + Seq::<ReadFrame>::empty() =~= first.views);
    } else {
        let front = b.drop_last();
        law_scan_in_turn(items, a, front, role, seen);
        assert((a + b).drop_last() =~= a + front);
        assert((a + b).last() == b.last());
        let second = scan(items, b, role, first.seen);
        let both = scan(items, a + b, role, seen);
        assert(both.required =~= first.required + second.required);
        assert(both.views =~= first.views + second.views);
    }
}

/// What comes of looking at one item. What had been looked at is passed over. What is unknown is
/// found unknown. What is known takes usage of its schema, unless that had been looked at, and
/// what reading takes on the item itself, in this order. Both are taken down, and what the item
/// reads on behalf of its owner is left to be read if the item holds a query.
pub proof fn law_scan_one(
    items: Map<GlobalId, ItemView>,
    id: GlobalId,
    role: RoleId,
    seen: Set<(ObjectId, RoleId)>,
)
    ensures
        ({
            let out = scan(items, seq![id], role, seen);
            let object = ObjectId::Item(id);
            let item = items[id];
            let schema = ObjectId::Schema(
                item.qualifiers.database_spec,
                item.qualifiers.schema_spec,
            );
            let passed_over = seen.contains((object, role));
            let usage = if seen.contains((schema, role)) {
                seq![]
            } else {
                seq![(SystemObjectId::Object(schema), AclMode::only(Privilege::Usage), role)]
            };
            let own = if has_rows(item) {
                seq![(SystemObjectId::Object(object), AclMode::only(Privilege::Select), role)]
            } else if is_used(item) {
                seq![(SystemObjectId::Object(object), AclMode::only(Privilege::Usage), role)]
            } else {
                seq![]
            };
            &&& out.known == (passed_over || items.contains_key(id))
            &&& passed_over || !items.contains_key(id) ==> out.required.len() == 0
                && out.views.len() == 0 && out.seen == seen
            &&& !passed_over && items.contains_key(id) ==> {
                &&& out.required == usage + own
                &&& out.seen == seen.insert((object, role)).insert((schema, role))
                &&& out.views == (if has_query(item) {
                    seq![ReadFrame { ids: item.uses, role: item.owner }]
                } else {
                    seq![]
                })
            }
        }),
{
    let none = Seq::<GlobalId>::empty();
    assert(seq![id].drop_last() =~= none);
    assert(seq![id].last() == id);
    let before = scan(items, none, role, seen);
    let out = scan(items, seq![id], role, seen);
    assert(before.required.len() == 0 && before.views.len() == 0 && before.seen == seen);
    if !seen.contains((ObjectId::Item(id), role)) && items.contains_key(id) {
        let schema = items[id].qualifiers.schema();
        let usage: Seq<Requirement> = if seen.contains((schema, role)) {
            seq![]
        } else {
            seq![requirement(schema, Privilege::Usage, role)]
        };
        assert(out.required =~= usage + item_read(items[id], id, role));
        if has_query(items[id]) {
            assert(out.views =~= seq![
                ReadFrame { ids: items[id].uses, role: items[id].owner },
            ]);
        }
    }
}

/// Reading is looking at the items, and then reading what the views among them read, each on
/// behalf of its owner, with what was seen so far. To begin with, nothing was seen.
pub proof fn law_reads_one(
    items: Map<GlobalId, ItemView>,
    frame: ReadFrame,
    seen: Set<(ObjectId, RoleId)>,
)
    requires
        items.dom().finite(),
    ensures
        ({
            let first = scan(items, frame.ids, frame.role, seen);
            let later = reads(items, first.views, first.seen);
            let out = reads(items, seq![frame], seen);
            &&& out.required == first.required + later.required
            &&& out.seen == later.seen
            &&& out.known == (first.known && later.known)
            &&& seen == Set::<(ObjectId, RoleId)>::empty() ==> out.required == read_requirements(
                items,
                frame.ids,
                frame.role,
            ) && out.known == read_known(items, frame.ids, frame.role)
        }),
{
    let first = scan(items, frame.ids, frame.role, seen);
    assert(seq![frame][0] == frame);
    assert(first.views + seq![frame].drop_first() =~= first.views);
}

/// Reading is reading some frames and then the others, with what was seen of the former. So what
/// the views in a frame read comes before the next frame.
pub proof fn law_reads_in_turn(
    items: Map<GlobalId, ItemView>,
    a: Seq<ReadFrame>,
    b: Seq<ReadFrame>,
    seen: Set<(ObjectId, RoleId)>,
)
    requires
        items.dom().finite(),
    ensures
        ({
            let first = reads(items, a, seen);
            let second = reads(items, b, first.seen);
            let both = reads(items, a + b, seen);
            &&& both.required == first.required + second.required
            &&& both.seen == second.seen
            &&& both.known == (first.known && second.known)
            &&& reads(items, seq![], seen).required.len() == 0
            &&& reads(items, seq![], seen).seen == seen
            &&& reads(items, seq![], seen).known
        }),
    decreases unseen(items, a, seen).len(), a.len(),
{
    if a.len() == 0 {
        assert(a + b =~= b);
        assert(reads(items, a, seen).required =~= Seq::<Requirement>::empty());
        let second = reads(items, b, seen);
        assert(Seq::<Requirement>::empty() + second.required =~= second.required);
    } else {
        let s = scan(items, a[0].ids, a[0].role, seen);
        let rest = s.views + a.drop_first();
        lemma_fewer_unseen(items, a, seen);
        law_reads_in_turn(items, rest, b, s.seen);
        assert((a + b)[0] == a[0]);
        assert(s.views + (a + b).drop_first() =~= rest + b);
        let first = reads(items, a, seen);
        let second = reads(items, b, first.seen);
        let both = reads(items, a + b, seen);
        assert(both.required =~= first.required + second.required);
        assert(first.seen == reads(items, rest, s.seen).seen);
    }
}

/// Whether `owner` owns a view.
pub open spec fn owns_view(items: Map<GlobalId, ItemView>, owner: RoleId) -> bool {
    exists|id: GlobalId| #[trigger]
        items.contains_key(id) && has_query(items[id]) && items[id].owner == owner
}

/// What is read is read on behalf of the role that reads, or of the owner of a view.
pub proof fn law_readers(
    items: Map<GlobalId, ItemView>,
    ids: Seq<GlobalId>,
    role: RoleId,
    id: GlobalId,
    reader: RoleId,
)
    requires
        is_read(items, ids, role, id, reader),
    ensures
        reader == role || owns_view(items, reader),
{
    let path = choose|path: Seq<(GlobalId, RoleId)>| #[trigger]
        read_path(items, ids, role, path) && path.last() == (id, reader);
    if path.len() > 1 {
        assert(read_step(items, path[path.len() - 2], path.last()));
        assert(items.contains_key(path[path.len() - 2].0));
    }
}

/// The object and the role of a requirement.
pub open spec fn subject(required: Requirement) -> (SystemObjectId, RoleId) {
    (required.0, required.2)
}

/// Whether no two of some requirements are on the same object for the same role.
pub open spec fn each_once(required: Seq<Requirement>) -> bool {
    forall|i: int, j: int|
        0 <= i < j < required.len() ==> subject(#[trigger] required[i]) != subject(
            #[trigger] required[j],
        )
}

/// Whether a requirement is on what is in `after` but not in `before`.
spec fn is_between(
    required: Requirement,
    before: Set<(ObjectId, RoleId)>,
    after: Set<(ObjectId, RoleId)>,
) -> bool {
    match required.0 {
        SystemObjectId::Object(o) => after.contains((o, required.2)) && !before.contains(
            (o, required.2),
        ),
        SystemObjectId::System => false,
    }
}

/// Whether all of some requirements are on what is in `after` but not in `before`.
spec fn all_between(
    required: Seq<Requirement>,
    before: Set<(ObjectId, RoleId)>,
    after: Set<(ObjectId, RoleId)>,
) -> bool {
    forall|i: int|
        0 <= i < required.len() ==> is_between(#[trigger] required[i], before, after)
}

/// A scan requires something once of what it looks at for the first time.
proof fn lemma_scan_once(
    items: Map<GlobalId, ItemView>,
    ids: Seq<GlobalId>,
    role: RoleId,
    seen: Set<(ObjectId, RoleId)>,
)
    ensures
        each_once(scan(items, ids, role, seen).required),
        all_between(scan(items, ids, role, seen).required, seen, scan(items, ids, role, seen).seen),
        seen.subset_of(scan(items, ids, role, seen).seen),
    decreases ids.len(),
{
    if ids.len() > 0 {
        lemma_scan_once(items, ids.drop_last(), role, seen);
        let b = scan(items, ids.drop_last(), role, seen);
        let s = scan(items, ids, role, seen);
        let id = ids.last();
        if b.seen.contains((ObjectId::Item(id), role)) || !items.contains_key(id) {
        } else {
            let schema = items[id].qualifiers.schema();
            let usage: Seq<Requirement> = if b.seen.contains((schema, role)) {
                seq![]
            } else {
                seq![requirement(schema, Privilege::Usage, role)]
            };
            let own = item_read(items[id], id, role);
            assert(s.required == b.required + usage + own);
            assert forall|i: int| 0 <= i < s.required.len() implies is_between(
                #[trigger] s.required[i],
                seen,
                s.seen,
            ) && (i >= b.required.len() ==> is_between(s.required[i], b.seen, s.seen)) by {
                if i < b.required.len() {
                    assert(s.required[i] == b.required[i]);
                } else if i < b.required.len() + usage.len() {
                    assert(s.required[i] == usage[i - b.required.len()]);
                } else {
                    assert(s.required[i] == own[i - b.required.len() - usage.len()]);
                }
            };
            assert forall|i: int, j: int| 0 <= i < j < s.required.len() implies subject(
                #[trigger] s.required[i],
            ) != subject(#[trigger] s.required[j]) by {
                if j < b.required.len() {
                    assert(s.required[i] == b.required[i]);
                    assert(s.required[j] == b.required[j]);
                } else if i < b.required.len() {
                    assert(s.required[i] == b.required[i]);
                } else {
                    assert(s.required[i] == usage[i - b.required.len()]);
                    assert(s.required[j] == own[j - b.required.len() - usage.len()]);
                }
            };
        }
    }
}

/// Reading requires something once of what it looks at for the first time.
proof fn lemma_reads_once(
    items: Map<GlobalId, ItemView>,
    frames: Seq<ReadFrame>,
    seen: Set<(ObjectId, RoleId)>,
)
    requires
        items.dom().finite(),
    ensures
        each_once(reads(items, frames, seen).required),
        all_between(reads(items, frames, seen).required, seen, reads(items, frames, seen).seen),
        seen.subset_of(reads(items, frames, seen).seen),
    decreases unseen(items, frames, seen).len(), frames.len(),
{
    if frames.len() > 0 {
        let s = scan(items, frames[0].ids, frames[0].role, seen);
        let rest = s.views + frames.drop_first();
        let late = reads(items, rest, s.seen);
        let out = reads(items, frames, seen);
        lemma_scan_once(items, frames[0].ids, frames[0].role, seen);
        lemma_fewer_unseen(items, frames, seen);
        lemma_reads_once(items, rest, s.seen);
        assert(out.required == s.required + late.required);
        assert forall|i: int| 0 <= i < out.required.len() implies is_between(
            #[trigger] out.required[i],
            seen,
            out.seen,
        ) by {
            if i < s.required.len() {
                assert(out.required[i] == s.required[i]);
            } else {
                assert(out.required[i] == late.required[i - s.required.len()]);
            }
        };
        assert forall|i: int, j: int| 0 <= i < j < out.required.len() implies subject(
            #[trigger] out.required[i],
        ) != subject(#[trigger] out.required[j]) by {
            if j < s.required.len() {
                assert(out.required[i] == s.required[i]);
                assert(out.required[j] == s.required[j]);
            } else if i < s.required.len() {
                assert(out.required[i] == s.required[i]);
                assert(out.required[j] == late.required[j - s.required.len()]);
            } else {
                assert(out.required[i] == late.required[i - s.required.len()]);
                assert(out.required[j] == late.required[j - s.required.len()]);
            }
        };
    }
}

/// Reading requires of a role at most one thing on an object, however often and by whatever way
/// the object is read, and nothing on what had been looked at on behalf of the role before.
pub proof fn law_reads_ask_once(
    items: Map<GlobalId, ItemView>,
    ids: Seq<GlobalId>,
    role: RoleId,
    seen: Set<(ObjectId, RoleId)>,
)
    requires
        items.dom().finite(),
    ensures
        each_once(reads(items, seq![ReadFrame { ids, role }], seen).required),
        forall|o: ObjectId, r: RoleId, mode: AclMode| #[trigger]
            reads(items, seq![ReadFrame { ids, role }], seen).required.contains(
                (SystemObjectId::Object(o), mode, r),
            ) ==> !seen.contains((o, r)),
{
    let out = reads(items, seq![ReadFrame { ids, role }], seen);
    lemma_reads_once(items, seq![ReadFrame { ids, role }], seen);
    assert forall|o: ObjectId, r: RoleId, mode: AclMode| #[trigger]
        out.required.contains((SystemObjectId::Object(o), mode, r)) implies !seen.contains(
        (o, r),
    ) by {
        let i = out.required.index_of((SystemObjectId::Object(o), mode, r));
        assert(is_between(out.required[i], seen, out.seen));
    };
}

} // verus!
