use vstd::prelude::*;
use super::item::ItemType;

verus! {

/// A number of items of one kind in one slot; tools and armour carry their
/// remaining durability.
#[derive(Clone, Copy, PartialEq, Eq, Debug, Structural)]
pub struct ItemStack {
    pub item_type: ItemType,
    pub count: u32,
    pub durability: Option<u32>,
}

/// A fixed number of slots, each empty or holding one stack.
#[derive(Debug)]
pub struct Inventory {
    pub slots: Vec<Option<ItemStack>>,
    pub capacity: usize,
}

/// How many of `item` one slot holds.
pub open spec fn slot_count(slot: Option<ItemStack>, item: ItemType) -> nat {
    match slot {
        Some(s) => if s.item_type == item {
            s.count as nat
        } else {
            0
        },
        None => 0,
    }
}

/// How many of `item` a sequence of slots holds in all.
pub open spec fn count_of(slots: Seq<Option<ItemStack>>, item: ItemType) -> nat
    decreases slots.len(),
{
    if slots.len() == 0 {
        0
    } else {
        count_of(slots.drop_last(), item) + slot_count(slots.last(), item)
    }
}

/// Largest count one slot of `item` receives when items are added: tools and
/// armour never stack.
pub open spec fn stack_limit(item: ItemType) -> u32 {
    if item.spec_max_durability() is Some {
        1
    } else {
        item.spec_max_stack_size()
    }
}

/// One step of taking `item` out of the slots, at slot `i`. The state is the
/// slots so far, how many are still to take, and whether taking has stopped.
pub open spec fn take_step(
    st: (Seq<Option<ItemStack>>, nat, bool),
    item: ItemType,
    i: int,
) -> (Seq<Option<ItemStack>>, nat, bool) {
    let (s, rem, done) = st;
    if done {
        st
    } else {
        match s[i] {
            Some(x) => if x.item_type == item {
                if x.count > rem {
                    (
                        s.update(
                            i,
                            Some(
                                ItemStack {
                                    item_type: x.item_type,
                                    count: (x.count - rem) as u32,
                                    durability: x.durability,
                                },
                            ),
                        ),
                        0,
                        true,
                    )
                } else {
                    let r2 = (rem - x.count) as nat;
                    (s.update(i, None), r2, r2 == 0)
                }
            } else {
                st
            },
            None => st,
        }
    }
}

/// The state after taking up to `amount` of `item` from the first `n` slots,
/// front to back: matching stacks are emptied until one holds more than is
/// still wanted, which is reduced instead.
pub open spec fn take_run(slots: Seq<Option<ItemStack>>, item: ItemType, amount: nat, n: nat) -> (
    Seq<Option<ItemStack>>,
    nat,
    bool,
)
    decreases n,
{
    if n == 0 {
        (slots, amount, false)
    } else {
        take_step(take_run(slots, item, amount, (n - 1) as nat), item, n - 1)
    }
}

/// One step of topping up existing stacks of `item`, at slot `i`.
pub open spec fn merge_step(
    st: (Seq<Option<ItemStack>>, nat, bool),
    item: ItemType,
    limit: u32,
    i: int,
) -> (Seq<Option<ItemStack>>, nat, bool) {
    let (s, rem, done) = st;
    if done {
        st
    } else {
        match s[i] {
            Some(x) => if x.item_type == item {
                let room: nat = if x.count < limit {
                    (limit - x.count) as nat
                } else {
                    0
                };
                let add: nat = if rem < room {
                    rem
                } else {
                    room
                };
                let r2 = (rem - add) as nat;
                (
                    s.update(
                        i,
                        Some(
                            ItemStack {
                                item_type: x.item_type,
                                count: (x.count + add) as u32,
                                durability: x.durability,
                            },
                        ),
                    ),
                    r2,
                    r2 == 0,
                )
            } else {
                st
            },
            None => st,
        }
    }
}

/// The state after topping up the stacks of `item` among the first `n` slots.
pub open spec fn merge_run(
    slots: Seq<Option<ItemStack>>,
    item: ItemType,
    limit: u32,
    amount: nat,
    n: nat,
) -> (Seq<Option<ItemStack>>, nat, bool)
    decreases n,
{
    if n == 0 {
        (slots, amount, false)
    } else {
        merge_step(merge_run(slots, item, limit, amount, (n - 1) as nat), item, limit, n - 1)
    }
}

/// One step of opening new stacks of `item` in empty slots, at slot `i`.
pub open spec fn fill_step(
    st: (Seq<Option<ItemStack>>, nat, bool),
    item: ItemType,
    limit: u32,
    i: int,
) -> (Seq<Option<ItemStack>>, nat, bool) {
    let (s, rem, done) = st;
    if done {
        st
    } else if s[i] is None {
        let add: nat = if rem < limit {
            rem
        } else {
            limit as nat
        };
        let r2 = (rem - add) as nat;
        (
            s.update(
                i,
                Some(
                    ItemStack {
                        item_type: item,
                        count: add as u32,
                        durability: item.spec_max_durability(),
                    },
                ),
            ),
            r2,
            r2 == 0,
        )
    } else {
        st
    }
}

/// The state after opening new stacks of `item` among the first `n` slots.
pub open spec fn fill_run(
    slots: Seq<Option<ItemStack>>,
    item: ItemType,
    limit: u32,
    amount: nat,
    n: nat,
) -> (Seq<Option<ItemStack>>, nat, bool)
    decreases n,
{
    if n == 0 {
        (slots, amount, false)
    } else {
        fill_step(fill_run(slots, item, limit, amount, (n - 1) as nat), item, limit, n - 1)
    }
}

/// Slots and leftover count after adding `amount` of `item`: existing stacks
/// are topped up first (unless the item does not stack), then empty slots
/// among the first `capacity` receive new stacks.
pub open spec fn add_result(
    slots: Seq<Option<ItemStack>>,
    capacity: nat,
    item: ItemType,
    amount: nat,
) -> (Seq<Option<ItemStack>>, nat) {
    let limit = stack_limit(item);
    let merged = if limit > 1 {
        merge_run(slots, item, limit, amount, slots.len())
    } else {
        (slots, amount, false)
    };
    if merged.2 {
        (merged.0, 0)
    } else {
        let filled = fill_run(merged.0, item, limit, merged.1, capacity);
        (filled.0, filled.1)
    }
}

/// Slots after taking `amount` of `item`, when that many are present.
pub open spec fn take_result(slots: Seq<Option<ItemStack>>, item: ItemType, amount: nat) -> Seq<
    Option<ItemStack>,
> {
    take_run(slots, item, amount, slots.len()).0
}

// ---------------------------------------------------------------------------
// Lemmas on counting
// ---------------------------------------------------------------------------

/// Counting a prefix one slot longer adds that slot's count.
pub proof fn lemma_count_take_step(s: Seq<Option<ItemStack>>, item: ItemType, i: int)
    requires
        0 <= i < s.len(),
    ensures
        count_of(s.take(i + 1), item) == count_of(s.take(i), item) + slot_count(s[i], item),
{
    assert(s.take(i + 1).drop_last() =~= s.take(i));
}

/// Replacing one slot changes the total count by the difference of the two slots.
pub proof fn lemma_count_update(
    s: Seq<Option<ItemStack>>,
    i: int,
    v: Option<ItemStack>,
    item: ItemType,
)
    requires
        0 <= i < s.len(),
    ensures
        count_of(s.update(i, v), item) + slot_count(s[i], item) == count_of(s, item) + slot_count(
            v,
            item,
        ),
    decreases s.len(),
{
    let u = s.update(i, v);
    if i == s.len() - 1 {
        assert(u.drop_last() =~= s.drop_last());
    } else {
        assert(u.drop_last() =~= s.drop_last().update(i, v));
        lemma_count_update(s.drop_last(), i, v, item);
    }
}

/// The whole sequence is its longest prefix.
pub proof fn lemma_take_full(s: Seq<Option<ItemStack>>)
    ensures
        s.take(s.len() as int) == s,
{
    assert(s.take(s.len() as int) =~= s);
}

// ---------------------------------------------------------------------------
// Invariants of the three runs
// ---------------------------------------------------------------------------

/// What taking keeps: slots past `n` are untouched, every taken item is
/// accounted for, and other items keep their counts.
pub proof fn lemma_take_run(slots: Seq<Option<ItemStack>>, item: ItemType, amount: nat, n: nat)
    requires
        n <= slots.len(),
    ensures
        ({
            let st = take_run(slots, item, amount, n);
            &&& st.0.len() == slots.len()
            &&& forall|k: int| n <= k < slots.len() ==> #[trigger] st.0[k] == slots[k]
            &&& st.1 <= amount
            &&& count_of(st.0, item) + amount == count_of(slots, item) + st.1
            &&& forall|j: ItemType| j != item ==> #[trigger] count_of(st.0, j) == count_of(slots, j)
            &&& st.2 ==> st.1 == 0
            &&& !st.2 ==> amount == count_of(slots.take(n as int), item) + st.1
        }),
    decreases n,
{
    if n > 0 {
        let m = (n - 1) as nat;
        lemma_take_run(slots, item, amount, m);
        let prev = take_run(slots, item, amount, m);
        let i = m as int;
        assert(prev.0[i] == slots[i]);
        lemma_count_take_step(slots, item, i);
        if !prev.2 {
            match prev.0[i] {
                Some(x) => {
                    if x.item_type == item {
                        let v = if x.count > prev.1 {
                            Some(
                                ItemStack {
                                    item_type: x.item_type,
                                    count: (x.count - prev.1) as u32,
                                    durability: x.durability,
                                },
                            )
                        } else {
                            None
                        };
                        lemma_count_update(prev.0, i, v, item);
                        assert forall|j: ItemType| j != item implies #[trigger] count_of(
                            prev.0.update(i, v),
                            j,
                        ) == count_of(slots, j) by {
                            lemma_count_update(prev.0, i, v, j);
                        }
                    }
                },
                None => {},
            }
        }
    }
}

/// What topping up keeps: slots past `n` are untouched, every added item is
/// accounted for, and other items keep their counts.
pub proof fn lemma_merge_run(
    slots: Seq<Option<ItemStack>>,
    item: ItemType,
    limit: u32,
    amount: nat,
    n: nat,
)
    requires
        n <= slots.len(),
    ensures
        ({
            let st = merge_run(slots, item, limit, amount, n);
            &&& st.0.len() == slots.len()
            &&& forall|k: int| n <= k < slots.len() ==> #[trigger] st.0[k] == slots[k]
            &&& st.1 <= amount
            &&& count_of(st.0, item) + st.1 == count_of(slots, item) + amount
            &&& forall|j: ItemType| j != item ==> #[trigger] count_of(st.0, j) == count_of(slots, j)
            &&& st.2 ==> st.1 == 0
        }),
    decreases n,
{
    if n > 0 {
        let m = (n - 1) as nat;
        lemma_merge_run(slots, item, limit, amount, m);
        let prev = merge_run(slots, item, limit, amount, m);
        let i = m as int;
        if !prev.2 {
            match prev.0[i] {
                Some(x) => {
                    if x.item_type == item {
                        let room: nat = if x.count < limit {
                            (limit - x.count) as nat
                        } else {
                            0
                        };
                        let add: nat = if prev.1 < room {
                            prev.1
                        } else {
                            room
                        };
                        let v = Some(
                            ItemStack {
                                item_type: x.item_type,
                                count: (x.count + add) as u32,
                                durability: x.durability,
                            },
                        );
                        lemma_count_update(prev.0, i, v, item);
                        assert forall|j: ItemType| j != item implies #[trigger] count_of(
                            prev.0.update(i, v),
                            j,
                        ) == count_of(slots, j) by {
                            lemma_count_update(prev.0, i, v, j);
                        }
                    }
                },
                None => {},
            }
        }
    }
}

/// What filling keeps: slots past `n` are untouched, every added item is
/// accounted for, and other items keep their counts.
pub proof fn lemma_fill_run(
    slots: Seq<Option<ItemStack>>,
    item: ItemType,
    limit: u32,
    amount: nat,
    n: nat,
)
    requires
        n <= slots.len(),
    ensures
        ({
            let st = fill_run(slots, item, limit, amount, n);
            &&& st.0.len() == slots.len()
            &&& forall|k: int| n <= k < slots.len() ==> #[trigger] st.0[k] == slots[k]
            &&& st.1 <= amount
            &&& count_of(st.0, item) + st.1 == count_of(slots, item) + amount
            &&& forall|j: ItemType| j != item ==> #[trigger] count_of(st.0, j) == count_of(slots, j)
            &&& st.2 ==> st.1 == 0
        }),
    decreases n,
{
    if n > 0 {
        let m = (n - 1) as nat;
        lemma_fill_run(slots, item, limit, amount, m);
        let prev = fill_run(slots, item, limit, amount, m);
        let i = m as int;
        if !prev.2 && prev.0[i] is None {
            let add: nat = if prev.1 < limit {
                prev.1
            } else {
                limit as nat
            };
            let v = Some(
                ItemStack {
                    item_type: item,
                    count: add as u32,
                    durability: item.spec_max_durability(),
                },
            );
            lemma_count_update(prev.0, i, v, item);
            assert forall|j: ItemType| j != item implies #[trigger] count_of(
                prev.0.update(i, v),
                j,
            ) == count_of(slots, j) by {
                lemma_count_update(prev.0, i, v, j);
            }
        }
    }
}

/// Topping up finds nothing to top up among empty slots.
pub proof fn lemma_merge_run_empty(slots: Seq<Option<ItemStack>>, item: ItemType, limit: u32, amount: nat, n: nat)
    requires
        n <= slots.len(),
        forall|i: int| 0 <= i < slots.len() ==> #[trigger] slots[i] is None,
    ensures
        merge_run(slots, item, limit, amount, n) == (slots, amount, false),
    decreases n,
{
    if n > 0 {
        lemma_merge_run_empty(slots, item, limit, amount, (n - 1) as nat);
        assert(slots[n - 1] is None);
    }
}

/// An empty first slot takes up to a full stack at once.
pub proof fn lemma_fill_run_first_slot(slots: Seq<Option<ItemStack>>, item: ItemType, limit: u32, amount: nat, n: nat)
    requires
        1 <= n <= slots.len(),
        slots[0] is None,
        amount <= limit,
    ensures
        fill_run(slots, item, limit, amount, n).1 == 0,
        fill_run(slots, item, limit, amount, n).2,
    decreases n,
{
    if n > 1 {
        lemma_fill_run_first_slot(slots, item, limit, amount, (n - 1) as nat);
    } else {
        assert(fill_run(slots, item, limit, amount, 0) == (slots, amount, false));
    }
}

/// Empty slots hold nothing.
pub proof fn lemma_count_of_empty(slots: Seq<Option<ItemStack>>, item: ItemType)
    requires
        forall|i: int| 0 <= i < slots.len() ==> #[trigger] slots[i] is None,
    ensures
        count_of(slots, item) == 0,
    decreases slots.len(),
{
    if slots.len() > 0 {
        let d = slots.drop_last();
        assert forall|i: int| 0 <= i < d.len() implies #[trigger] d[i] is None by {
            assert(d[i] == slots[i]);
        }
        lemma_count_of_empty(d, item);
        assert(slots.last() == slots[slots.len() - 1]);
    }
}

/// Up to a full stack added to empty slots goes in whole.
pub proof fn lemma_add_to_empty(slots: Seq<Option<ItemStack>>, capacity: nat, item: ItemType, amount: nat)
    requires
        1 <= capacity <= slots.len(),
        forall|i: int| 0 <= i < slots.len() ==> #[trigger] slots[i] is None,
        amount <= stack_limit(item),
    ensures
        add_result(slots, capacity, item, amount).1 == 0,
        count_of(add_result(slots, capacity, item, amount).0, item) == amount,
{
    let limit = stack_limit(item);
    if limit > 1 {
        lemma_merge_run_empty(slots, item, limit, amount, slots.len());
    }
    assert(slots[0] is None);
    lemma_fill_run_first_slot(slots, item, limit, amount, capacity);
    lemma_add_conserves(slots, capacity, item, amount);
    lemma_count_of_empty(slots, item);
}

/// No stack of `item` among `s` holds more than `limit`.
pub open spec fn stacks_within(s: Seq<Option<ItemStack>>, item: ItemType, limit: u32) -> bool {
    forall|k: int| 0 <= k < s.len() ==> (#[trigger] s[k] is Some && s[k]->0.item_type == item ==> s[k]->0.count <= limit)
}

/// What topping up keeps and does: the same slots stay filled, stacks of
/// `item` stay within `limit`, and while items remain every stack of `item`
/// seen so far is full.
proof fn lemma_merge_run_shape(slots: Seq<Option<ItemStack>>, item: ItemType, limit: u32, amount: nat, n: nat)
    requires
        n <= slots.len(),
        stacks_within(slots, item, limit),
    ensures
        ({
            let st = merge_run(slots, item, limit, amount, n);
            &&& st.0.len() == slots.len()
            &&& forall|k: int| 0 <= k < slots.len() ==> (#[trigger] st.0[k] is Some <==> slots[k] is Some)
            &&& stacks_within(st.0, item, limit)
            &&& !st.2 ==> forall|k: int| 0 <= k < n ==> (#[trigger] st.0[k] is Some && st.0[k]->0.item_type == item ==> st.0[k]->0.count >= limit)
        }),
    decreases n,
{
    if n > 0 {
        let m = (n - 1) as nat;
        lemma_merge_run_shape(slots, item, limit, amount, m);
        lemma_merge_run(slots, item, limit, amount, m);
        let prev = merge_run(slots, item, limit, amount, m);
        let st = merge_run(slots, item, limit, amount, n);
        assert(st == merge_step(prev, item, limit, m as int));
        assert forall|k: int| 0 <= k < slots.len() implies (#[trigger] st.0[k] is Some <==> slots[k] is Some) by {
            assert(prev.0[k] is Some <==> slots[k] is Some);
        }
        assert forall|k: int| 0 <= k < st.0.len() implies (#[trigger] st.0[k] is Some && st.0[k]->0.item_type == item ==> st.0[k]->0.count <= limit) by {
            assert(prev.0[k] is Some && prev.0[k]->0.item_type == item ==> prev.0[k]->0.count <= limit);
        }
        if !st.2 {
            assert forall|k: int| 0 <= k < n implies (#[trigger] st.0[k] is Some && st.0[k]->0.item_type == item ==> st.0[k]->0.count >= limit) by {
                if k < m {
                    assert(!prev.2);
                    assert(prev.0[k] is Some && prev.0[k]->0.item_type == item ==> prev.0[k]->0.count >= limit);
                }
            }
        }
    }
}

/// What opening new stacks keeps and does: filled slots stay as they are,
/// new stacks of `item` hold at most `limit`, and while items remain every
/// slot seen so far is filled, each new stack with a full `limit`.
proof fn lemma_fill_run_shape(slots: Seq<Option<ItemStack>>, item: ItemType, limit: u32, amount: nat, n: nat)
    requires
        n <= slots.len(),
        stacks_within(slots, item, limit),
    ensures
        ({
            let st = fill_run(slots, item, limit, amount, n);
            &&& st.0.len() == slots.len()
            &&& forall|k: int| 0 <= k < slots.len() && slots[k] is Some ==> #[trigger] st.0[k] == slots[k]
            &&& stacks_within(st.0, item, limit)
            &&& !st.2 ==> forall|k: int| 0 <= k < n ==> (#[trigger] st.0[k]) is Some && (slots[k] is None ==> st.0[k]->0.item_type
                == item && st.0[k]->0.count == limit)
        }),
    decreases n,
{
    if n > 0 {
        let m = (n - 1) as nat;
        lemma_fill_run_shape(slots, item, limit, amount, m);
        lemma_fill_run(slots, item, limit, amount, m);
        let prev = fill_run(slots, item, limit, amount, m);
        assert(prev.0[m as int] == slots[m as int]);
        let st = fill_run(slots, item, limit, amount, n);
        assert(st == fill_step(prev, item, limit, m as int));
        assert forall|k: int| 0 <= k < slots.len() && slots[k] is Some implies #[trigger] st.0[k] == slots[k] by {
            assert(prev.0[k] == slots[k]);
        }
        assert forall|k: int| 0 <= k < st.0.len() implies (#[trigger] st.0[k] is Some && st.0[k]->0.item_type == item ==> st.0[k]->0.count <= limit) by {
            assert(prev.0[k] is Some && prev.0[k]->0.item_type == item ==> prev.0[k]->0.count <= limit);
        }
        if !st.2 {
            assert forall|k: int| 0 <= k < n implies (#[trigger] st.0[k]) is Some && (slots[k] is None ==> st.0[k]->0.item_type
                == item && st.0[k]->0.count == limit) by {
                if k < m {
                    assert(!prev.2);
                    assert(prev.0[k] is Some);
                }
            }
        }
    }
}

/// Adding respects stack limits and fills the inventory before leaving
/// items over: no stack of the item grows past its stack limit, and when
/// something is left over every slot within the capacity holds a stack,
/// each stack of the item full (for items that stack at all).
pub proof fn law_add_fills_before_leaving_over(slots: Seq<Option<ItemStack>>, capacity: nat, item: ItemType, amount: nat)
    requires
        capacity <= slots.len(),
        stacks_within(slots, item, stack_limit(item)),
    ensures
        ({
            let (s2, left) = add_result(slots, capacity, item, amount);
            &&& stacks_within(s2, item, stack_limit(item))
            &&& left > 0 ==> forall|k: int| 0 <= k < capacity ==> (#[trigger] s2[k]) is Some && (stack_limit(item) > 1
                && s2[k]->0.item_type == item ==> s2[k]->0.count == stack_limit(item))
        }),
{
    let limit = stack_limit(item);
    let merged = if limit > 1 {
        merge_run(slots, item, limit, amount, slots.len())
    } else {
        (slots, amount, false)
    };
    if limit > 1 {
        lemma_merge_run_shape(slots, item, limit, amount, slots.len());
        lemma_merge_run(slots, item, limit, amount, slots.len());
    }
    if !merged.2 {
        lemma_fill_run_shape(merged.0, item, limit, merged.1, capacity);
        lemma_fill_run(merged.0, item, limit, merged.1, capacity);
        let filled = fill_run(merged.0, item, limit, merged.1, capacity);
        if filled.1 > 0 {
            assert forall|k: int| 0 <= k < capacity implies (#[trigger] filled.0[k]) is Some && (limit > 1
                && filled.0[k]->0.item_type == item ==> filled.0[k]->0.count == limit) by {
                if merged.0[k] is Some {
                    assert(filled.0[k] == merged.0[k]);
                }
            }
        }
    }
}

// ---------------------------------------------------------------------------
// Laws of the inventory
// ---------------------------------------------------------------------------

/// Adding conserves items: what is not left over is in the slots, and no
/// other kind of item changes.
pub proof fn lemma_add_conserves(
    slots: Seq<Option<ItemStack>>,
    capacity: nat,
    item: ItemType,
    amount: nat,
)
    requires
        capacity <= slots.len(),
    ensures
        ({
            let (s2, left) = add_result(slots, capacity, item, amount);
            &&& s2.len() == slots.len()
            &&& left <= amount
            &&& count_of(s2, item) + left == count_of(slots, item) + amount
            &&& forall|j: ItemType| j != item ==> #[trigger] count_of(s2, j) == count_of(slots, j)
        }),
{
    let limit = stack_limit(item);
    let merged = if limit > 1 {
        merge_run(slots, item, limit, amount, slots.len())
    } else {
        (slots, amount, false)
    };
    if limit > 1 {
        lemma_merge_run(slots, item, limit, amount, slots.len());
    }
    if !merged.2 {
        lemma_fill_run(merged.0, item, limit, merged.1, capacity);
    }
}

/// Taking, when enough is present, removes exactly the amount asked and leaves
/// every other kind of item alone.
pub proof fn lemma_take_removes_exactly(slots: Seq<Option<ItemStack>>, item: ItemType, amount: nat)
    requires
        count_of(slots, item) >= amount,
    ensures
        take_run(slots, item, amount, slots.len()).1 == 0,
        count_of(take_result(slots, item, amount), item) + amount == count_of(slots, item),
        forall|j: ItemType|
            j != item ==> #[trigger] count_of(take_result(slots, item, amount), j) == count_of(
                slots,
                j,
            ),
        take_result(slots, item, amount).len() == slots.len(),
{
    lemma_take_run(slots, item, amount, slots.len());
    lemma_take_full(slots);
}

/// Once taking has stopped, later slots change nothing.
pub proof fn lemma_take_run_done(slots: Seq<Option<ItemStack>>, item: ItemType, amount: nat, n: nat, m: nat)
    requires
        n <= m,
        take_run(slots, item, amount, n).2,
    ensures
        take_run(slots, item, amount, m) == take_run(slots, item, amount, n),
    decreases m - n,
{
    if m > n {
        lemma_take_run_done(slots, item, amount, n, (m - 1) as nat);
    }
}

/// Once topping up has finished, later slots change nothing.
pub proof fn lemma_merge_run_done(
    slots: Seq<Option<ItemStack>>,
    item: ItemType,
    limit: u32,
    amount: nat,
    n: nat,
    m: nat,
)
    requires
        n <= m,
        merge_run(slots, item, limit, amount, n).2,
    ensures
        merge_run(slots, item, limit, amount, m) == merge_run(slots, item, limit, amount, n),
    decreases m - n,
{
    if m > n {
        lemma_merge_run_done(slots, item, limit, amount, n, (m - 1) as nat);
    }
}

/// Once filling has finished, later slots change nothing.
pub proof fn lemma_fill_run_done(
    slots: Seq<Option<ItemStack>>,
    item: ItemType,
    limit: u32,
    amount: nat,
    n: nat,
    m: nat,
)
    requires
        n <= m,
        fill_run(slots, item, limit, amount, n).2,
    ensures
        fill_run(slots, item, limit, amount, m) == fill_run(slots, item, limit, amount, n),
    decreases m - n,
{
    if m > n {
        lemma_fill_run_done(slots, item, limit, amount, n, (m - 1) as nat);
    }
}

impl Inventory {
    /// The slots and capacity agree, as `new` makes them.
    pub open spec fn wf(&self) -> bool {
        self.capacity <= self.slots@.len()
    }

    /// How many of `item` the inventory holds.
    pub open spec fn spec_count(&self, item: ItemType) -> nat {
        count_of(self.slots@, item)
    }

    /// An inventory of `capacity` empty slots.
    pub fn new(capacity: usize) -> (r: Self)
        ensures
            r.capacity == capacity,
            r.slots@ == Seq::new(capacity as nat, |i: int| None::<ItemStack>),
            r.wf(),
    {
        let mut slots: Vec<Option<ItemStack>> = Vec::with_capacity(capacity);
        let mut i: usize = 0;
        while i < capacity
            invariant
                i <= capacity,
                slots@ == Seq::new(i as nat, |k: int| None::<ItemStack>),
            decreases capacity - i,
        {
            slots.push(None);
            i = i + 1;
        }
        Self { slots, capacity }
    }

    /// Whether the inventory holds at least `amount` of `item` over all slots.
    pub fn has_item(&self, item: ItemType, amount: u32) -> (r: bool)
        ensures
            r == (self.spec_count(item) >= amount),
    {
        if amount == 0 {
            return true;
        }
        let mut count: u64 = 0;
        let n = self.slots.len();
        let mut i: usize = 0;
        while i < n
            invariant
                n == self.slots@.len(),
                i <= n,
                count == count_of(self.slots@.take(i as int), item),
                count < amount,
            decreases n - i,
        {
            proof {
                lemma_count_take_step(self.slots@, item, i as int);
            }
            if let Some(slot) = self.slots[i] {
                if slot.item_type == item {
                    count = count + slot.count as u64;
                }
            }
            i = i + 1;
            if count >= amount as u64 {
                proof {
                    lemma_count_monotone(self.slots@, item, i as int);
                }
                return true;
            }
        }
        proof {
            lemma_take_full(self.slots@);
        }
        count >= amount as u64
    }

    /// Takes `amount` of `item` out, emptying matching stacks front to back and
    /// reducing the last one touched. Nothing changes, and the answer is
    /// false, when fewer than `amount` are present.
    pub fn remove_item(&mut self, item: ItemType, amount: u32) -> (r: bool)
        ensures
            r == (old(self).spec_count(item) >= amount),
            final(self).capacity == old(self).capacity,
            r ==> final(self).slots@ == take_result(old(self).slots@, item, amount as nat),
            !r ==> final(self).slots@ == old(self).slots@,
            r ==> final(self).spec_count(item) + amount == old(self).spec_count(item),
            forall|j: ItemType|
                j != item ==> #[trigger] final(self).spec_count(j) == old(self).spec_count(j),
    {
        if !self.has_item(item, amount) {
            return false;
        }
        let ghost old_slots = self.slots@;
        let mut remaining: u32 = amount;
        let mut done = false;
        let n = self.slots.len();
        let mut i: usize = 0;
        while i < n && !done
            invariant
                n == old_slots.len(),
                i <= n,
                self.capacity == old(self).capacity,
                take_run(old_slots, item, amount as nat, i as nat) == (
                    self.slots@,
                    remaining as nat,
                    done,
                ),
            decreases n - i,
        {
            proof {
                lemma_take_run(old_slots, item, amount as nat, i as nat);
            }
            if let Some(s) = self.slots[i] {
                if s.item_type == item {
                    if s.count > remaining {
                        self.slots.set(
                            i,
                            Some(
                                ItemStack {
                                    item_type: s.item_type,
                                    count: s.count - remaining,
                                    durability: s.durability,
                                },
                            ),
                        );
                        remaining = 0;
                        done = true;
                    } else {
                        remaining = remaining - s.count;
                        self.slots.set(i, None);
                        if remaining == 0 {
                            done = true;
                        }
                    }
                }
            }
            i = i + 1;
        }
        proof {
            if done {
                lemma_take_run_done(old_slots, item, amount as nat, i as nat, n as nat);
            }
            lemma_take_removes_exactly(old_slots, item, amount as nat);
        }
        remaining == 0
    }

    /// Adds `amount` of `item` and returns how many did not fit. Existing
    /// stacks are topped up to the stack limit first (tools and armour never
    /// stack), then empty slots receive new stacks.
    pub fn add_item(&mut self, item: ItemType, amount: u32) -> (r: u32)
        requires
            old(self).wf(),
        ensures
            (final(self).slots@, r as nat) == add_result(
                old(self).slots@,
                old(self).capacity as nat,
                item,
                amount as nat,
            ),
            final(self).capacity == old(self).capacity,
            final(self).wf(),
            r <= amount,
            final(self).spec_count(item) + r == old(self).spec_count(item) + amount,
            forall|j: ItemType|
                j != item ==> #[trigger] final(self).spec_count(j) == old(self).spec_count(j),
    {
        let ghost old_slots = self.slots@;
        proof {
            lemma_add_conserves(old_slots, self.capacity as nat, item, amount as nat);
        }
        let mut remaining: u32 = amount;
        let stack_limit: u32 = if item.max_durability().is_some() {
            1
        } else {
            item.max_stack_size()
        };
        let n = self.slots.len();
        if stack_limit > 1 {
            let mut done = false;
            let mut i: usize = 0;
            while i < n && !done
                invariant
                    n == old_slots.len(),
                    i <= n,
                    self.capacity == old(self).capacity,
                    self.capacity <= n,
                    stack_limit == self::stack_limit(item),
                    merge_run(old_slots, item, stack_limit, amount as nat, i as nat) == (
                        self.slots@,
                        remaining as nat,
                        done,
                    ),
                decreases n - i,
            {
                proof {
                    lemma_merge_run(old_slots, item, stack_limit, amount as nat, i as nat);
                }
                if let Some(slot) = self.slots[i] {
                    if slot.item_type == item {
                        let add = remaining.min(stack_limit.saturating_sub(slot.count));
                        self.slots.set(
                            i,
                            Some(
                                ItemStack {
                                    item_type: slot.item_type,
                                    count: slot.count + add,
                                    durability: slot.durability,
                                },
                            ),
                        );
                        remaining = remaining - add;
                        if remaining == 0 {
                            done = true;
                        }
                    }
                }
                i = i + 1;
            }
            proof {
                lemma_merge_run(old_slots, item, stack_limit, amount as nat, i as nat);
            }
            if done {
                proof {
                    lemma_merge_run_done(old_slots, item, stack_limit, amount as nat, i as nat, n as nat);
                }
                return 0;
            }
        }
        assert(self.slots@.len() == n);
        let ghost mid_slots = self.slots@;
        let ghost mid_remaining = remaining as nat;
        let capacity = self.capacity;
        let mut done = false;
        let mut i: usize = 0;
        while i < capacity && !done
            invariant
                capacity == self.capacity,
                self.capacity == old(self).capacity,
                capacity <= n,
                n == mid_slots.len(),
                i <= capacity,
                stack_limit == self::stack_limit(item),
                fill_run(mid_slots, item, stack_limit, mid_remaining, i as nat) == (
                    self.slots@,
                    remaining as nat,
                    done,
                ),
            decreases capacity - i,
        {
            proof {
                lemma_fill_run(mid_slots, item, stack_limit, mid_remaining, i as nat);
            }
            if self.slots[i].is_none() {
                let add = remaining.min(stack_limit);
                self.slots.set(
                    i,
                    Some(
                        ItemStack {
                            item_type: item,
                            count: add,
                            durability: item.max_durability(),
                        },
                    ),
                );
                remaining = remaining - add;
                if remaining == 0 {
                    done = true;
                }
            }
            i = i + 1;
        }
        proof {
            if done {
                lemma_fill_run_done(mid_slots, item, stack_limit, mid_remaining, i as nat, capacity as nat);
            }
        }
        remaining
    }
}

/// A prefix holds no more of an item than the whole sequence.
pub proof fn lemma_count_monotone(s: Seq<Option<ItemStack>>, item: ItemType, i: int)
    requires
        0 <= i <= s.len(),
    ensures
        count_of(s.take(i), item) <= count_of(s, item),
    decreases s.len() - i,
{
    if i == s.len() {
        lemma_take_full(s);
    } else {
        lemma_count_take_step(s, item, i);
        lemma_count_monotone(s, item, i + 1);
    }
}


impl Clone for Inventory {
    fn clone(&self) -> (r: Self)
        ensures
            r.slots@ == self.slots@,
            r.capacity == self.capacity,
    {
        let mut slots: Vec<Option<ItemStack>> = Vec::new();
        let mut i: usize = 0;
        while i < self.slots.len()
            invariant
                i <= self.slots@.len(),
                slots@ == self.slots@.take(i as int),
            decreases self.slots@.len() - i,
        {
            slots.push(self.slots[i]);
            proof {
                assert(self.slots@.take(i + 1) =~= self.slots@.take(i as int).push(self.slots@[i as int]));
            }
            i = i + 1;
        }
        proof {
            assert(self.slots@.take(i as int) =~= self.slots@);
        }
        Inventory { slots, capacity: self.capacity }
    }
}


/// What is added in full is held: when nothing is left over, the inventory
/// holds at least the amount added.
pub proof fn law_added_items_are_held(
    slots: Seq<Option<ItemStack>>,
    capacity: nat,
    item: ItemType,
    amount: nat,
)
    requires
        capacity <= slots.len(),
        add_result(slots, capacity, item, amount).1 == 0,
    ensures
        count_of(add_result(slots, capacity, item, amount).0, item) >= amount,
{
    lemma_add_conserves(slots, capacity, item, amount);
}

/// Adding an amount in full and then taking the same amount back leaves every
/// item's count as it was.
pub proof fn law_add_then_take_restores_counts(
    slots: Seq<Option<ItemStack>>,
    capacity: nat,
    item: ItemType,
    amount: nat,
)
    requires
        capacity <= slots.len(),
        add_result(slots, capacity, item, amount).1 == 0,
    ensures
        ({
            let added = add_result(slots, capacity, item, amount).0;
            &&& count_of(added, item) >= amount
            &&& forall|j: ItemType|
                #[trigger] count_of(take_result(added, item, amount), j) == count_of(slots, j)
        }),
{
    lemma_add_conserves(slots, capacity, item, amount);
    let added = add_result(slots, capacity, item, amount).0;
    lemma_take_removes_exactly(added, item, amount);
}


/// Tools and armour never stack: adding an item that wears out to slots
/// where it lies at most one to a slot leaves it at most one to a slot,
/// whatever the amount added.
pub proof fn law_worn_items_never_stack(slots: Seq<Option<ItemStack>>, capacity: nat, item: ItemType, amount: nat)
    requires
        capacity <= slots.len(),
        item.spec_max_durability() is Some,
        stacks_within(slots, item, 1),
    ensures
        stacks_within(add_result(slots, capacity, item, amount).0, item, 1),
{
    law_add_fills_before_leaving_over(slots, capacity, item, amount);
}

} // verus!
