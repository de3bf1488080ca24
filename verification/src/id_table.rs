use vstd::prelude::*;

verus! {

/// The abstract state of an [`IdTable`]: the stack of released ids and the
/// next id that has never been handed out.
pub struct IdTableView {
    pub free: Seq<usize>,
    pub current: nat,
}

impl IdTableView {
    /// The id that the next `join` hands out.
    pub open spec fn join_result(self) -> usize {
        if self.free.len() == 0 {
            self.current as usize
        } else {
            self.free.last()
        }
    }

    /// The state after a `join`.
    pub open spec fn after_join(self) -> IdTableView {
        if self.free.len() == 0 {
            IdTableView { free: self.free, current: self.current + 1 }
        } else {
            IdTableView { free: self.free.drop_last(), current: self.current }
        }
    }

    /// The state after `leave(pos)`.
    pub open spec fn after_leave(self, pos: usize) -> IdTableView {
        IdTableView { free: self.free.push(pos), current: self.current }
    }

    /// Whether a `join` can be made without the counter overflowing.
    pub open spec fn can_join(self) -> bool {
        self.free.len() > 0 || self.current < usize::MAX
    }

    /// The ids that have been handed out and not released.
    pub open spec fn in_use(self) -> Set<usize> {
        Set::new(|i: usize| i < self.current && !self.free.contains(i))
    }

    /// Every released id was handed out before, and none is released twice.
    pub open spec fn wf(self) -> bool {
        &&& self.current <= usize::MAX
        &&& self.free.no_duplicates()
        &&& forall|k: int| 0 <= k < self.free.len() ==> #[trigger] self.free[k] < self.current
    }
}

/// Hands out small integer ids and reuses the ones given back, most recently released first.
pub struct IdTable {
    empty_data: Vec<usize>,
    current: usize,
}

impl View for IdTable {
    type V = IdTableView;

    closed spec fn view(&self) -> IdTableView {
        IdTableView { free: self.empty_data@, current: self.current as nat }
    }
}

impl IdTable {
    /// A table that has handed out no id yet.
    pub fn new() -> (r: IdTable)
        ensures
            r@.free == Seq::<usize>::empty(),
            r@.current == 0,
    {
        IdTable { empty_data: Vec::new(), current: 0 }
    }

    /// Hands out an id: the most recently released one, or else a fresh one.
    pub fn join(&mut self) -> (r: usize)
        requires
            old(self)@.can_join(),
        ensures
            r == old(self)@.join_result(),
            final(self)@ == old(self)@.after_join(),
    {
        if self.empty_data.len() == 0 {
            let pos = self.current;
            self.current = self.current + 1;
            pos
        } else {
            let r = self.empty_data.pop().unwrap();
            proof {
                assert(self.empty_data@ =~= old(self)@.free.drop_last());
            }
            r
        }
    }

    /// Gives an id back to the table, so that the next `join` hands it out again.
    pub fn leave(&mut self, pos: usize)
        ensures
            final(self)@ == old(self)@.after_leave(pos),
    {
        self.empty_data.push(pos);
    }
}

/// A new table is well formed and has no id in use.
pub proof fn law_new_table_is_empty()
    ensures
        (IdTableView { free: Seq::<usize>::empty(), current: 0 }).wf(),
        (IdTableView { free: Seq::<usize>::empty(), current: 0 }).in_use() == Set::<usize>::empty(),
{
    let t = IdTableView { free: Seq::<usize>::empty(), current: 0 };
    assert(t.in_use() =~= Set::<usize>::empty());
}

/// `join` never hands out an id that is in use: it adds a new id to the ids in use,
/// and the table stays well formed.
pub proof fn law_join_hands_out_unused_id(t: IdTableView)
    requires
        t.wf(),
        t.can_join(),
    ensures
        !t.in_use().contains(t.join_result()),
        t.after_join().in_use() == t.in_use().insert(t.join_result()),
        t.after_join().wf(),
{
    let r = t.join_result();
    let u = t.after_join();
    if t.free.len() == 0 {
        assert(u.in_use() =~= t.in_use().insert(r));
    } else {
        let last = t.free.len() - 1;
        assert(t.free[last] == r);
        assert(t.free.contains(r));
        assert forall|i: usize| #[trigger] u.in_use().contains(i) <==> t.in_use().insert(r).contains(i) by {
            if i == r {
                assert(!t.free.drop_last().contains(r)) by {
                    if t.free.drop_last().contains(r) {
                        let k = choose|k: int| 0 <= k < t.free.drop_last().len() && t.free.drop_last()[k] == r;
                        assert(t.free[k] == t.free[last]);
                    }
                }
            } else {
                assert(t.free.contains(i) <==> t.free.drop_last().contains(i)) by {
                    if t.free.contains(i) {
                        let k = choose|k: int| 0 <= k < t.free.len() && t.free[k] == i;
                        assert(k != last);
                        assert(t.free.drop_last()[k] == i);
                    }
                    if t.free.drop_last().contains(i) {
                        let k = choose|k: int| 0 <= k < t.free.drop_last().len() && t.free.drop_last()[k] == i;
                        assert(t.free[k] == i);
                    }
                }
            }
        }
        assert(u.in_use() =~= t.in_use().insert(r));
    }
}

/// Releasing an id that is in use removes exactly that id from the ids in use,
/// and the table stays well formed.
pub proof fn law_leave_releases_id(t: IdTableView, pos: usize)
    requires
        t.wf(),
        t.in_use().contains(pos),
    ensures
        t.after_leave(pos).in_use() == t.in_use().remove(pos),
        t.after_leave(pos).wf(),
{
    let u = t.after_leave(pos);
    assert forall|i: usize| #[trigger] u.free.contains(i) <==> (t.free.contains(i) || i == pos) by {
        if u.free.contains(i) {
            let k = choose|k: int| 0 <= k < u.free.len() && u.free[k] == i;
            if k < t.free.len() {
                assert(t.free[k] == i);
            }
        }
        if t.free.contains(i) {
            let k = choose|k: int| 0 <= k < t.free.len() && t.free[k] == i;
            assert(u.free[k] == i);
        }
        if i == pos {
            assert(u.free[t.free.len() as int] == pos);
        }
    }
    assert(u.in_use() =~= t.in_use().remove(pos));
    assert forall|a: int, b: int| 0 <= a < b < u.free.len() implies u.free[a] != u.free[b] by {
        if b == t.free.len() {
            assert(t.free[a] == u.free[a]);
            assert(t.free.contains(u.free[a]));
        }
    }
}

/// Releasing an id and joining again hands out that same id and restores the table.
pub proof fn law_leave_then_join(t: IdTableView, pos: usize)
    ensures
        t.after_leave(pos).can_join(),
        t.after_leave(pos).join_result() == pos,
        t.after_leave(pos).after_join() == t,
{
    assert(t.after_leave(pos).free.drop_last() =~= t.free);
}

/// A call made on an [`IdTable`].
pub enum TableOp {
    Join,
    Leave(usize),
}

/// The state of a new table after the calls `ops`, in order.
pub open spec fn replay(ops: Seq<TableOp>) -> IdTableView
    decreases ops.len(),
{
    if ops.len() == 0 {
        IdTableView { free: Seq::<usize>::empty(), current: 0 }
    } else {
        let t = replay(ops.drop_last());
        match ops.last() {
            TableOp::Join => t.after_join(),
            TableOp::Leave(p) => t.after_leave(p),
        }
    }
}

/// The live ids after the calls `ops`: those a `join` handed out and no `leave` has
/// passed since.
pub open spec fn live(ops: Seq<TableOp>) -> Set<usize>
    decreases ops.len(),
{
    if ops.len() == 0 {
        Set::empty()
    } else {
        let l = live(ops.drop_last());
        match ops.last() {
            TableOp::Join => l.insert(replay(ops.drop_last()).join_result()),
            TableOp::Leave(p) => l.remove(p),
        }
    }
}

/// Each `join` of `ops` can be made without the counter overflowing, and each `leave`
/// passes a live id.
pub open spec fn valid_history(ops: Seq<TableOp>) -> bool
    decreases ops.len(),
{
    ops.len() == 0 || {
        &&& valid_history(ops.drop_last())
        &&& match ops.last() {
            TableOp::Join => replay(ops.drop_last()).can_join(),
            TableOp::Leave(p) => live(ops.drop_last()).contains(p),
        }
    }
}

/// Over any history of calls on a new table in which every `leave` passes a live id,
/// the released ids are distinct and below the counter, the ids in use are exactly the
/// live ones, and the next `join` hands out an id that is not live.
pub proof fn law_history_keeps_ids_unique(ops: Seq<TableOp>)
    requires
        valid_history(ops),
    ensures
        replay(ops).wf(),
        live(ops) == replay(ops).in_use(),
        replay(ops).can_join() ==> !live(ops).contains(replay(ops).join_result()),
    decreases ops.len(),
{
    let t = replay(ops);
    if ops.len() == 0 {
        law_new_table_is_empty();
    } else {
        let prev = ops.drop_last();
        law_history_keeps_ids_unique(prev);
        let u = replay(prev);
        match ops.last() {
            TableOp::Join => {
                law_join_hands_out_unused_id(u);
            },
            TableOp::Leave(p) => {
                law_leave_releases_id(u, p);
            },
        }
    }
    if t.can_join() {
        law_join_hands_out_unused_id(t);
    }
}

} // verus!
