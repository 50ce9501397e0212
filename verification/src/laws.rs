use vstd::prelude::*;

verus! {

use crate::commands::spec_command_kind;
use crate::commands::Command;
use crate::mixed::Seg;
use crate::model::sentinel_timestamp;
use crate::model::FileEntryView;
use crate::model::FileInfoView;
use crate::parser::spec_apply_command;
use crate::parser::ts_or;
use crate::parser::StreamState;
use crate::subvolume::spec_rename;
use crate::tlv::TLVView;

/// One inventory-touching step of a command stream, abstracted to what
/// it does to the mapping: an addition putting a live file at a path,
/// or a deletion of a path.
pub enum InventoryOp {
    Add(Seq<Seg>, FileInfoView),
    Del(Seq<Seg>),
}

/// The path an operation touches.
pub open spec fn op_path(op: InventoryOp) -> Seq<Seg> {
    match op {
        InventoryOp::Add(p, _) => p,
        InventoryOp::Del(p) => p,
    }
}

/// One step in overwrite mode, as the state operations' contracts have
/// it: an addition inserts a live file over whatever was there; a
/// deletion of a live file removes the path, and of anything else is
/// rejected and changes nothing.
pub open spec fn step_overwrite(
    m: Map<Seq<Seg>, FileEntryView>,
    op: InventoryOp,
) -> Map<Seq<Seg>, FileEntryView> {
    match op {
        InventoryOp::Add(p, info) => m.insert(p, FileEntryView::Present(info)),
        InventoryOp::Del(p) => if m.contains_key(p) && m[p] is Present {
            m.remove(p)
        } else {
            m
        },
    }
}

/// A whole stream of steps in overwrite mode.
pub open spec fn run_overwrite(
    m: Map<Seq<Seg>, FileEntryView>,
    ops: Seq<InventoryOp>,
) -> Map<Seq<Seg>, FileEntryView>
    decreases ops.len(),
{
    if ops.len() == 0 {
        m
    } else {
        run_overwrite(step_overwrite(m, ops[0]), ops.drop_first())
    }
}

/// Whether, walking the stream, the last operation touching `p` is an
/// addition; `dflt` answers for a stream that never touches it.
pub open spec fn last_is_add(ops: Seq<InventoryOp>, p: Seq<Seg>, dflt: bool) -> bool
    decreases ops.len(),
{
    if ops.len() == 0 {
        dflt
    } else {
        last_is_add(
            ops.drop_first(),
            p,
            if op_path(ops[0]) == p {
                ops[0] is Add
            } else {
                dflt
            },
        )
    }
}

proof fn lemma_overwrite_contains(ops: Seq<InventoryOp>, m: Map<Seq<Seg>, FileEntryView>, p: Seq<Seg>)
    requires
        forall|k: Seq<Seg>| m.contains_key(k) ==> m[k] is Present,
    ensures
        run_overwrite(m, ops).contains_key(p) == last_is_add(ops, p, m.contains_key(p)),
        forall|k: Seq<Seg>|
            run_overwrite(m, ops).contains_key(k) ==> run_overwrite(m, ops)[k] is Present,
    decreases ops.len(),
{
    if ops.len() > 0 {
        let m2 = step_overwrite(m, ops[0]);
        assert(forall|k: Seq<Seg>| m2.contains_key(k) ==> m2[k] is Present);
        lemma_overwrite_contains(ops.drop_first(), m2, p);
    }
}

/// In overwrite mode, a stream of additions and deletions leaves the
/// inventory holding exactly the paths whose last touching operation
/// was an addition: what was last added and not deleted.
pub proof fn lemma_overwrite_final_inventory(ops: Seq<InventoryOp>, p: Seq<Seg>)
    ensures
        run_overwrite(Map::empty(), ops).contains_key(p) <==> last_is_add(ops, p, false),
{
    lemma_overwrite_contains(ops, Map::empty(), p);
}

/// One step in non-overwrite (incremental) mode, as the state
/// operations' contracts have it: an addition inserts a live file; a
/// deletion of a live file records a tombstone, and of anything else is
/// rejected and changes nothing.
pub open spec fn step_snapshot(
    m: Map<Seq<Seg>, FileEntryView>,
    op: InventoryOp,
) -> Map<Seq<Seg>, FileEntryView> {
    match op {
        InventoryOp::Add(p, info) => m.insert(p, FileEntryView::Present(info)),
        InventoryOp::Del(p) => if m.contains_key(p) && m[p] is Present {
            m.insert(p, FileEntryView::Tombstone)
        } else {
            m
        },
    }
}

/// A whole stream of steps in non-overwrite mode.
pub open spec fn run_snapshot(
    m: Map<Seq<Seg>, FileEntryView>,
    ops: Seq<InventoryOp>,
) -> Map<Seq<Seg>, FileEntryView>
    decreases ops.len(),
{
    if ops.len() == 0 {
        m
    } else {
        run_snapshot(step_snapshot(m, ops[0]), ops.drop_first())
    }
}

/// What one path's slot can be while a stream runs: never mentioned,
/// holding a live file, or holding a tombstone.
pub enum SlotState {
    Absent,
    Live,
    Dead,
}

/// The slot state a mapping shows for a path.
pub open spec fn slot_of(m: Map<Seq<Seg>, FileEntryView>, p: Seq<Seg>) -> SlotState {
    if !m.contains_key(p) {
        SlotState::Absent
    } else if m[p] is Present {
        SlotState::Live
    } else {
        SlotState::Dead
    }
}

/// How one step moves a path's slot: an addition makes it live; a
/// deletion kills a live slot and is rejected otherwise.
pub open spec fn step_slot(s: SlotState, op: InventoryOp, p: Seq<Seg>) -> SlotState {
    if op_path(op) != p {
        s
    } else {
        match op {
            InventoryOp::Add(_, _) => SlotState::Live,
            InventoryOp::Del(_) => if s is Live {
                SlotState::Dead
            } else {
                s
            },
        }
    }
}

/// A whole stream of steps on one path's slot.
pub open spec fn run_slot(ops: Seq<InventoryOp>, p: Seq<Seg>, s: SlotState) -> SlotState
    decreases ops.len(),
{
    if ops.len() == 0 {
        s
    } else {
        run_slot(ops.drop_first(), p, step_slot(s, ops[0], p))
    }
}

proof fn lemma_snapshot_slots(ops: Seq<InventoryOp>, m: Map<Seq<Seg>, FileEntryView>, p: Seq<Seg>)
    ensures
        slot_of(run_snapshot(m, ops), p) == run_slot(ops, p, slot_of(m, p)),
    decreases ops.len(),
{
    if ops.len() > 0 {
        let m2 = step_snapshot(m, ops[0]);
        assert(slot_of(m2, p) == step_slot(slot_of(m, p), ops[0], p));
        lemma_snapshot_slots(ops.drop_first(), m2, p);
    }
}

/// In non-overwrite (incremental) mode, a path that was added and then
/// deleted ends as a tombstone held in the inventory, not as a removed
/// path.
pub proof fn lemma_snapshot_tombstone_kept(ops: Seq<InventoryOp>, p: Seq<Seg>)
    requires
        run_slot(ops, p, SlotState::Absent) is Dead,
    ensures
        run_snapshot(Map::empty(), ops).contains_key(p),
        run_snapshot(Map::empty(), ops)[p] == FileEntryView::Tombstone,
{
    lemma_snapshot_slots(ops, Map::empty(), p);
    assert(slot_of(Map::<Seq<Seg>, FileEntryView>::empty(), p) == SlotState::Absent);
}

/// A timestamp command whose attribute bag omits any subset of the
/// three timestamps puts the sentinel in exactly the omitted fields of
/// the touched file.
pub proof fn lemma_utimes_omitted_fields_use_sentinel(
    op: u16,
    bag: TLVView,
    st: StreamState,
    p: Seq<Seg>,
)
    requires
        spec_command_kind(op) == Command::Utimes,
        bag.path == Some(p),
        st.current matches Some(cur) && cur.files.contains_key(p) && cur.files[p] is Present,
    ensures
        ({
            let r = spec_apply_command(op, bag, st);
            &&& r matches Ok(st2)
            &&& st2.current matches Some(cur2)
            &&& st2.current->Some_0.files[p] matches FileEntryView::Present(info)
            &&& info.accessed == ts_or(bag.atime, sentinel_timestamp())
            &&& info.created == ts_or(bag.ctime, sentinel_timestamp())
            &&& info.modified == ts_or(bag.mtime, sentinel_timestamp())
            &&& (bag.atime is None ==> info.accessed == sentinel_timestamp())
            &&& (bag.ctime is None ==> info.created == sentinel_timestamp())
            &&& (bag.mtime is None ==> info.modified == sentinel_timestamp())
        }),
{
}

/// A chain of renames from `a` to `b` and on to `c` leaves the entry,
/// unchanged, at `c` and nothing at `a` or `b`.
pub proof fn lemma_rename_chain(
    m: Map<Seq<Seg>, FileEntryView>,
    a: Seq<Seg>,
    b: Seq<Seg>,
    c: Seq<Seg>,
)
    requires
        m.contains_key(a),
        a != b,
        b != c,
        a != c,
    ensures
        ({
            let renamed = spec_rename(spec_rename(m, a, b), b, c);
            &&& renamed.contains_key(c)
            &&& renamed[c] == m[a]
            &&& !renamed.contains_key(a)
            &&& !renamed.contains_key(b)
        }),
{
}

} // verus!
