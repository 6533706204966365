use vstd::prelude::*;
use super::item::ItemType;
use super::inventory::{
    Inventory,
    ItemStack,
    count_of,
    take_result,
    add_result,
    lemma_take_removes_exactly,
};

verus! {

/// A crafting pattern: `height` rows of `width` cells, row by row in `slots`.
#[derive(Debug)]
pub struct RecipeShape {
    pub width: usize,
    pub height: usize,
    pub slots: Vec<Option<ItemType>>,
}

/// A way to make `result_count` of `result` from ingredients, at a crafting
/// table and/or furnace where required, optionally following a shape.
pub struct Recipe {
    pub result: ItemType,
    pub result_count: u32,
    pub ingredients: Vec<(ItemType, u32)>,
    pub needs_crafting_table: bool,
    pub needs_furnace: bool,
    pub shape: Option<RecipeShape>,
}

/// The rows laid end to end.
pub open spec fn flatten_rows(rows: Seq<Seq<Option<ItemType>>>) -> Seq<Option<ItemType>>
    decreases rows.len(),
{
    if rows.len() == 0 {
        Seq::empty()
    } else {
        flatten_rows(rows.drop_last()) + rows.last()
    }
}

/// The views of a list of row slices.
pub open spec fn row_views(rows: Seq<&[Option<ItemType>]>) -> Seq<Seq<Option<ItemType>>> {
    Seq::new(rows.len(), |i: int| rows[i]@)
}

/// How many cells of a pattern hold `item`.
pub open spec fn occurrences(cells: Seq<Option<ItemType>>, item: ItemType) -> nat
    decreases cells.len(),
{
    if cells.len() == 0 {
        0
    } else {
        occurrences(cells.drop_last(), item) + if cells.last() == Some(item) {
            1nat
        } else {
            0nat
        }
    }
}

/// The (item, count) pairs of a pattern for the first `k` item kinds in
/// declaration order, leaving out kinds that do not occur.
pub open spec fn counts_upto(cells: Seq<Option<ItemType>>, k: nat) -> Seq<(ItemType, u32)>
    decreases k,
{
    if k == 0 {
        Seq::empty()
    } else {
        let item = ItemType::spec_from_ordinal((k - 1) as u8);
        let c = occurrences(cells, item);
        counts_upto(cells, (k - 1) as nat) + if c > 0 {
            seq![(item, c as u32)]
        } else {
            Seq::empty()
        }
    }
}

/// The (item, count) pairs of a pattern, one per item kind that occurs, in
/// declaration order of the kinds.
pub open spec fn pattern_counts(cells: Seq<Option<ItemType>>) -> Seq<(ItemType, u32)> {
    counts_upto(cells, ItemType::spec_kind_count())
}

/// No item appears in two entries of an ingredient list.
pub open spec fn distinct_items(reqs: Seq<(ItemType, u32)>) -> bool {
    forall|a: int, b: int| 0 <= a < b < reqs.len() ==> reqs[a].0 != reqs[b].0
}

/// An inventory's slots after taking every entry of `reqs` in order; an
/// entry that is not fully present takes nothing.
pub open spec fn take_all(
    slots: Seq<Option<ItemStack>>,
    reqs: Seq<(ItemType, u32)>,
) -> Seq<Option<ItemStack>>
    decreases reqs.len(),
{
    if reqs.len() == 0 {
        slots
    } else {
        let before = take_all(slots, reqs.drop_last());
        let (item, amount) = reqs.last();
        if count_of(before, item) >= amount {
            take_result(before, item, amount as nat)
        } else {
            before
        }
    }
}

/// Whether every entry of `reqs` is present in the slots.
pub open spec fn all_present(slots: Seq<Option<ItemStack>>, reqs: Seq<(ItemType, u32)>) -> bool {
    forall|k: int| 0 <= k < reqs.len() ==> count_of(slots, reqs[k].0) >= reqs[k].1
}

// ---------------------------------------------------------------------------
// Lemmas on patterns
// ---------------------------------------------------------------------------

/// Rows of one width lay out to width times height cells.
pub proof fn lemma_flatten_len(rows: Seq<Seq<Option<ItemType>>>, w: nat)
    requires
        forall|i: int| 0 <= i < rows.len() ==> #[trigger] rows[i].len() == w,
    ensures
        flatten_rows(rows).len() == rows.len() * w,
    decreases rows.len(),
{
    if rows.len() > 0 {
        lemma_flatten_len(rows.drop_last(), w);
        assert((rows.len() - 1) * w + w == rows.len() * w) by (nonlinear_arith);
    }
}

/// Counting a prefix one cell longer adds that cell.
pub proof fn lemma_occurrences_take_step(cells: Seq<Option<ItemType>>, item: ItemType, i: int)
    requires
        0 <= i < cells.len(),
    ensures
        occurrences(cells.take(i + 1), item) == occurrences(cells.take(i), item) + if cells[i]
            == Some(item) {
            1nat
        } else {
            0nat
        },
{
    assert(cells.take(i + 1).drop_last() =~= cells.take(i));
}

/// A pattern never has more occurrences of an item than cells.
pub proof fn lemma_occurrences_bound(cells: Seq<Option<ItemType>>, item: ItemType)
    ensures
        occurrences(cells, item) <= cells.len(),
    decreases cells.len(),
{
    if cells.len() > 0 {
        lemma_occurrences_bound(cells.drop_last(), item);
    }
}

/// The counted list is sorted strictly by kind, its counts are exact and
/// positive, and every kind that occurs has an entry.
pub proof fn lemma_counts_upto(cells: Seq<Option<ItemType>>, k: nat)
    requires
        k <= ItemType::spec_kind_count(),
        cells.len() <= u32::MAX,
    ensures
        ({
            let r = counts_upto(cells, k);
            &&& forall|a: int, b: int|
                0 <= a < b < r.len() ==> #[trigger] r[a].0.spec_ordinal()
                    < #[trigger] r[b].0.spec_ordinal()
            &&& forall|a: int|
                0 <= a < r.len() ==> #[trigger] r[a].1 == occurrences(cells, r[a].0) && r[a].1 > 0
                    && r[a].0.spec_ordinal() < k
            &&& forall|it: ItemType|
                it.spec_ordinal() < k && occurrences(cells, it) > 0 ==> exists|a: int|
                    0 <= a < r.len() && #[trigger] r[a].0 == it
        }),
    decreases k,
{
    if k > 0 {
        let m = (k - 1) as nat;
        lemma_counts_upto(cells, m);
        let item = ItemType::spec_from_ordinal(m as u8);
        lemma_occurrences_bound(cells, item);
        let prev = counts_upto(cells, m);
        let r = counts_upto(cells, k);
        assert(item.spec_ordinal() == m) by {
            lemma_from_ordinal_ordinal(m as u8);
        }
        assert forall|a: int, b: int| 0 <= a < b < r.len() implies #[trigger] r[a].0.spec_ordinal()
            < #[trigger] r[b].0.spec_ordinal() by {
            assert(r[a] == prev[a]);
            assert(prev[a].1 == occurrences(cells, prev[a].0));
            if b < prev.len() {
                assert(r[b] == prev[b]);
            }
        }
        assert forall|a: int| 0 <= a < r.len() implies #[trigger] r[a].1 == occurrences(
            cells,
            r[a].0,
        ) && r[a].1 > 0 && r[a].0.spec_ordinal() < k by {
            if a < prev.len() {
                assert(r[a] == prev[a]);
            }
        }
        assert forall|it: ItemType|
            it.spec_ordinal() < k && occurrences(cells, it) > 0 implies exists|a: int|
                0 <= a < r.len() && #[trigger] r[a].0 == it by {
            if it.spec_ordinal() < m {
                let a = choose|a: int| 0 <= a < prev.len() && #[trigger] prev[a].0 == it;
                assert(r[a] == prev[a]);
            } else {
                ItemType::lemma_ordinal_injective(it, item);
                assert(r[prev.len() as int].0 == it);
            }
        }
    }
}

/// The position of the kind named by a position is that position.
pub proof fn lemma_from_ordinal_ordinal(n: u8)
    requires
        n < ItemType::spec_kind_count(),
    ensures
        ItemType::spec_from_ordinal(n).spec_ordinal() == n,
{
}

/// Entries sorted strictly by kind name distinct items.
pub proof fn lemma_sorted_distinct(r: Seq<(ItemType, u32)>)
    requires
        forall|a: int, b: int|
            0 <= a < b < r.len() ==> #[trigger] r[a].0.spec_ordinal() < #[trigger] r[b].0.spec_ordinal(),
    ensures
        distinct_items(r),
{
    assert forall|a: int, b: int| 0 <= a < b < r.len() implies r[a].0 != r[b].0 by {
        assert(r[a].0.spec_ordinal() < r[b].0.spec_ordinal());
    }
}

/// Taking a list of distinct, fully present entries removes exactly each
/// entry's amount and leaves every item not on the list alone.
pub proof fn lemma_take_all(slots: Seq<Option<ItemStack>>, reqs: Seq<(ItemType, u32)>)
    requires
        distinct_items(reqs),
        all_present(slots, reqs),
    ensures
        take_all(slots, reqs).len() == slots.len(),
        forall|k: int|
            0 <= k < reqs.len() ==> count_of(take_all(slots, reqs), #[trigger] reqs[k].0) + reqs[k].1
                == count_of(slots, reqs[k].0),
        forall|j: ItemType|
            (forall|k: int| 0 <= k < reqs.len() ==> #[trigger] reqs[k].0 != j) ==> #[trigger] count_of(
                take_all(slots, reqs),
                j,
            ) == count_of(slots, j),
    decreases reqs.len(),
{
    if reqs.len() > 0 {
        let init = reqs.drop_last();
        assert(distinct_items(init));
        assert(all_present(slots, init)) by {
            assert forall|k: int| 0 <= k < init.len() implies count_of(slots, init[k].0)
                >= init[k].1 by {
                assert(init[k] == reqs[k]);
            }
        }
        lemma_take_all(slots, init);
        let before = take_all(slots, init);
        let (item, amount) = reqs.last();
        let last = reqs.len() - 1;
        assert(forall|k: int| 0 <= k < init.len() ==> #[trigger] init[k].0 != item) by {
            assert forall|k: int| 0 <= k < init.len() implies #[trigger] init[k].0 != item by {
                assert(init[k] == reqs[k]);
            }
        }
        assert(count_of(before, item) == count_of(slots, item));
        assert(count_of(slots, reqs[last].0) >= reqs[last].1);
        lemma_take_removes_exactly(before, item, amount as nat);
        let after = take_all(slots, reqs);
        assert forall|k: int| 0 <= k < reqs.len() implies count_of(after, #[trigger] reqs[k].0)
            + reqs[k].1 == count_of(slots, reqs[k].0) by {
            if k < last {
                assert(init[k] == reqs[k]);
                assert(count_of(before, init[k].0) + init[k].1 == count_of(slots, init[k].0));
            }
        }
        assert forall|j: ItemType|
            (forall|k: int| 0 <= k < reqs.len() ==> #[trigger] reqs[k].0 != j) implies #[trigger] count_of(
            after,
            j,
        ) == count_of(slots, j) by {
            assert(reqs[last].0 != j);
            assert forall|k: int| 0 <= k < init.len() implies #[trigger] init[k].0 != j by {
                assert(init[k] == reqs[k]);
            }
        }
    }
}

/// Crafting law: when every ingredient is present and the ingredient list
/// names each item once, crafting removes exactly the listed amounts, adds
/// the results that fit, and leaves every other item alone.
pub proof fn law_craft_consumes_and_produces(
    slots: Seq<Option<ItemStack>>,
    capacity: nat,
    reqs: Seq<(ItemType, u32)>,
    result: ItemType,
    result_count: nat,
)
    requires
        capacity <= slots.len(),
        distinct_items(reqs),
        all_present(slots, reqs),
    ensures
        ({
            let after = take_all(slots, reqs);
            let (fin, left) = add_result(after, capacity, result, result_count);
            &&& forall|k: int|
                0 <= k < reqs.len() && reqs[k].0 != result ==> count_of(fin, #[trigger] reqs[k].0)
                    + reqs[k].1 == count_of(slots, reqs[k].0)
            &&& count_of(fin, result) + left == count_of(after, result) + result_count
            &&& left <= result_count
            &&& forall|j: ItemType|
                (forall|k: int| 0 <= k < reqs.len() ==> #[trigger] reqs[k].0 != j) && j != result
                    ==> #[trigger] count_of(fin, j) == count_of(slots, j)
        }),
{
    lemma_take_all(slots, reqs);
    let after = take_all(slots, reqs);
    super::inventory::lemma_add_conserves(after, capacity, result, result_count);
}

impl RecipeShape {
    /// The dimensions and the cells agree.
    pub open spec fn wf(&self) -> bool {
        &&& self.width > 0
        &&& self.height > 0
        &&& self.slots@.len() == self.width * self.height
    }

    /// Whether the pattern fits a square grid of side `n`.
    pub open spec fn fits(&self, n: nat) -> bool {
        self.width <= n && self.height <= n
    }

    /// A pattern from rows of equal, nonzero width (at least one row).
    pub fn new(rows: &[&[Option<ItemType>]]) -> (r: Self)
        requires
            rows@.len() > 0,
            rows@[0]@.len() > 0,
            forall|i: int| 0 <= i < rows@.len() ==> #[trigger] rows@[i]@.len() == rows@[0]@.len(),
        ensures
            r.height == rows@.len(),
            r.width == rows@[0]@.len(),
            r.slots@ == flatten_rows(row_views(rows@)),
            r.wf(),
    {
        let height = rows.len();
        let width = rows[0].len();
        let mut slots: Vec<Option<ItemType>> = Vec::new();
        let mut y: usize = 0;
        while y < height
            invariant
                height == rows@.len(),
                width == rows@[0]@.len(),
                y <= height,
                forall|i: int| 0 <= i < rows@.len() ==> #[trigger] rows@[i]@.len() == width,
                slots@ == flatten_rows(row_views(rows@).take(y as int)),
            decreases height - y,
        {
            let row = rows[y];
            let ghost before = slots@;
            let mut x: usize = 0;
            while x < row.len()
                invariant
                    x <= row@.len(),
                    slots@ == before + row@.take(x as int),
                decreases row@.len() - x,
            {
                slots.push(row[x]);
                proof {
                    assert(row@.take(x + 1) =~= row@.take(x as int).push(row@[x as int]));
                }
                x = x + 1;
            }
            proof {
                assert(row@.take(x as int) =~= row@);
                assert(row_views(rows@).take(y + 1).drop_last() =~= row_views(rows@).take(
                    y as int,
                ));
            }
            y = y + 1;
        }
        proof {
            assert(row_views(rows@).take(height as int) =~= row_views(rows@));
            lemma_flatten_len(row_views(rows@), width as nat);
            assert(height * width == width * height) by (nonlinear_arith);
        }
        Self { width, height, slots }
    }

    /// How many of each item the pattern uses: one (item, count) pair per
    /// item kind present, in declaration order of the kinds.
    pub fn ingredient_counts(&self) -> (r: Vec<(ItemType, u32)>)
        requires
            self.slots@.len() <= u32::MAX,
        ensures
            r@ == pattern_counts(self.slots@),
            distinct_items(r@),
    {
        let mut counts: Vec<(ItemType, u32)> = Vec::new();
        let n = self.slots.len();
        let mut k: u8 = 0;
        while k < 135
            invariant
                k <= 135,
                n == self.slots@.len(),
                n <= u32::MAX,
                counts@ == counts_upto(self.slots@, k as nat),
            decreases 135 - k,
        {
            let item = ItemType::from_ordinal(k);
            let mut c: u32 = 0;
            let mut i: usize = 0;
            while i < n
                invariant
                    n == self.slots@.len(),
                    n <= u32::MAX,
                    i <= n,
                    c == occurrences(self.slots@.take(i as int), item),
                    c <= i,
                decreases n - i,
            {
                proof {
                    lemma_occurrences_take_step(self.slots@, item, i as int);
                }
                if self.slots[i] == Some(item) {
                    c = c + 1;
                }
                i = i + 1;
            }
            proof {
                assert(self.slots@.take(n as int) =~= self.slots@);
            }
            if c > 0 {
                counts.push((item, c));
            }
            k = k + 1;
        }
        proof {
            lemma_counts_upto(self.slots@, 135);
            lemma_sorted_distinct(counts@);
        }
        counts
    }
}


impl Clone for RecipeShape {
    fn clone(&self) -> (r: Self)
        ensures
            r.width == self.width,
            r.height == self.height,
            r.slots@ == self.slots@,
    {
        let mut slots: Vec<Option<ItemType>> = Vec::new();
        let mut i: usize = 0;
        while i < self.slots.len()
            invariant
                i <= self.slots@.len(),
                slots@ == self.slots@.take(i as int),
            decreases self.slots@.len() - i,
        {
            slots.push(self.slots[i]);
            proof {
                assert(self.slots@.take(i + 1) =~= self.slots@.take(i as int).push(self.slots@[i as int]));
            }
            i = i + 1;
        }
        proof {
            assert(self.slots@.take(i as int) =~= self.slots@);
        }
        RecipeShape { width: self.width, height: self.height, slots }
    }
}

/// A copy of an ingredient list.
fn copy_pairs(v: &Vec<(ItemType, u32)>) -> (r: Vec<(ItemType, u32)>)
    ensures
        r@ == v@,
{
    let mut out: Vec<(ItemType, u32)> = Vec::new();
    let mut i: usize = 0;
    while i < v.len()
        invariant
            i <= v@.len(),
            out@ == v@.take(i as int),
        decreases v@.len() - i,
    {
        out.push(v[i]);
        proof {
            assert(v@.take(i + 1) =~= v@.take(i as int).push(v@[i as int]));
        }
        i = i + 1;
    }
    proof {
        assert(v@.take(i as int) =~= v@);
    }
    out
}

impl Recipe {
    /// A shaped recipe's pattern is small enough to count.
    pub open spec fn shape_countable(&self) -> bool {
        self.shape matches Some(sh) ==> sh.slots@.len() <= u32::MAX
    }

    /// What the recipe consumes: the pattern's counts when shaped, the
    /// ingredient list otherwise.
    pub open spec fn spec_required(&self) -> Seq<(ItemType, u32)> {
        match self.shape {
            Some(sh) => pattern_counts(sh.slots@),
            None => self.ingredients@,
        }
    }

    /// Whether crafting is possible with these slots at the given stations:
    /// the stations the recipe needs are present, a pattern fits the grid
    /// (3 wide at a table, 2 otherwise; furnaces take any), and every
    /// required amount is held.
    pub open spec fn spec_can_craft(
        &self,
        slots: Seq<Option<ItemStack>>,
        at_crafting_table: bool,
        at_furnace: bool,
    ) -> bool {
        &&& !(self.needs_crafting_table && !at_crafting_table)
        &&& !(self.needs_furnace && !at_furnace)
        &&& (!at_furnace && self.shape is Some) ==> self.shape.unwrap().fits(
            if at_crafting_table {
                3
            } else {
                2
            },
        )
        &&& all_present(slots, self.spec_required())
    }

    fn required_ingredients(&self) -> (r: Vec<(ItemType, u32)>)
        requires
            self.shape_countable(),
        ensures
            r@ == self.spec_required(),
    {
        match &self.shape {
            Some(shape) => shape.ingredient_counts(),
            None => copy_pairs(&self.ingredients),
        }
    }

    /// What the recipe consumes: the pattern's counts when shaped, the
    /// ingredient list otherwise.
    pub fn ingredient_requirements(&self) -> (r: Vec<(ItemType, u32)>)
        requires
            self.shape_countable(),
        ensures
            r@ == self.spec_required(),
    {
        self.required_ingredients()
    }

    /// The pattern as rows of cells, or None for a shapeless recipe.
    pub fn ingredient_rows(&self) -> (r: Option<Vec<Vec<Option<ItemType>>>>)
        requires
            self.shape matches Some(sh) ==> sh.slots@.len() >= sh.width * sh.height,
        ensures
            r is None <==> self.shape is None,
            r matches Some(rows) ==> {
                let sh = self.shape.unwrap();
                &&& rows@.len() == sh.height
                &&& forall|y: int|
                    0 <= y < sh.height ==> (#[trigger] rows@[y])@ == sh.slots@.subrange(
                        y * sh.width,
                        y * sh.width + sh.width,
                    )
            },
    {
        let shape = match &self.shape {
            Some(shape) => shape,
            None => return None,
        };
        let width = shape.width;
        let height = shape.height;
        let total = shape.slots.len();
        let mut rows: Vec<Vec<Option<ItemType>>> = Vec::new();
        let mut y: usize = 0;
        while y < height
            invariant
                total == shape.slots@.len(),
                y <= height,
                width == shape.width,
                height == shape.height,
                shape.slots@.len() >= width * height,
                rows@.len() == y,
                forall|k: int|
                    0 <= k < y ==> (#[trigger] rows@[k])@ == shape.slots@.subrange(
                        k * width,
                        k * width + width,
                    ),
            decreases height - y,
        {
            proof {
                assert(y * width + width <= width * height) by (nonlinear_arith)
                    requires
                        y < height,
                ;
                assert(0 <= y * width) by (nonlinear_arith);
            }
            let start = y * width;
            let end = start + width;
            let mut row: Vec<Option<ItemType>> = Vec::new();
            let mut x: usize = start;
            while x < end
                invariant
                    start <= x <= end,
                    end <= shape.slots@.len(),
                    row@ == shape.slots@.subrange(start as int, x as int),
                decreases end - x,
            {
                row.push(shape.slots[x]);
                proof {
                    assert(shape.slots@.subrange(start as int, x + 1) =~= shape.slots@.subrange(
                        start as int,
                        x as int,
                    ).push(shape.slots@[x as int]));
                }
                x = x + 1;
            }
            rows.push(row);
            y = y + 1;
        }
        Some(rows)
    }

    /// Whether the recipe can be crafted from `inventory` at the given
    /// stations.
    pub fn can_craft(&self, inventory: &Inventory, at_crafting_table: bool, at_furnace: bool) -> (r:
        bool)
        requires
            self.shape_countable(),
        ensures
            r == self.spec_can_craft(inventory.slots@, at_crafting_table, at_furnace),
    {
        if self.needs_crafting_table && !at_crafting_table {
            return false;
        }
        if self.needs_furnace && !at_furnace {
            return false;
        }
        if !at_furnace {
            if let Some(shape) = &self.shape {
                let grid_size: usize = if at_crafting_table {
                    3
                } else {
                    2
                };
                if shape.width > grid_size || shape.height > grid_size {
                    return false;
                }
            }
        }
        let reqs = self.required_ingredients();
        let mut i: usize = 0;
        while i < reqs.len()
            invariant
                i <= reqs@.len(),
                reqs@ == self.spec_required(),
                forall|k: int| 0 <= k < i ==> count_of(inventory.slots@, reqs@[k].0) >= reqs@[k].1,
            decreases reqs@.len() - i,
        {
            let (item, amount) = reqs[i];
            if !inventory.has_item(item, amount) {
                return false;
            }
            i = i + 1;
        }
        true
    }

    /// Takes every required entry out of `inventory` (an entry not fully
    /// present takes nothing) and then adds the results that fit.
    pub fn craft(&self, inventory: &mut Inventory)
        requires
            self.shape_countable(),
            old(inventory).wf(),
        ensures
            final(inventory).capacity == old(inventory).capacity,
            final(inventory).wf(),
            final(inventory).slots@ == add_result(
                take_all(old(inventory).slots@, self.spec_required()),
                old(inventory).capacity as nat,
                self.result,
                self.result_count as nat,
            ).0,
    {
        let reqs = self.required_ingredients();
        let ghost start = inventory.slots@;
        let mut i: usize = 0;
        while i < reqs.len()
            invariant
                i <= reqs@.len(),
                reqs@ == self.spec_required(),
                inventory.capacity == old(inventory).capacity,
                start == old(inventory).slots@,
                inventory.slots@ == take_all(start, reqs@.take(i as int)),
                inventory.slots@.len() == start.len(),
                inventory.wf(),
            decreases reqs@.len() - i,
        {
            let (item, amount) = reqs[i];
            proof {
                assert(reqs@.take(i + 1).drop_last() =~= reqs@.take(i as int));
                if count_of(inventory.slots@, item) >= amount {
                    lemma_take_removes_exactly(inventory.slots@, item, amount as nat);
                }
            }
            inventory.remove_item(item, amount);
            i = i + 1;
        }
        proof {
            assert(reqs@.take(i as int) =~= reqs@);
        }
        inventory.add_item(self.result, self.result_count);
    }
}


/// Station law: a recipe that needs a furnace can never be made away from
/// a furnace, and one that needs a crafting table never away from a table,
/// whatever the inventory holds.
pub proof fn law_recipes_need_their_stations(
    r: Recipe,
    slots: Seq<Option<ItemStack>>,
    at_crafting_table: bool,
    at_furnace: bool,
)
    ensures
        r.needs_furnace && !at_furnace ==> !r.spec_can_craft(slots, at_crafting_table, at_furnace),
        r.needs_crafting_table && !at_crafting_table ==> !r.spec_can_craft(slots, at_crafting_table, at_furnace),
{
}

} // verus!
