//! The programmable instruction grid, its Reader, and the budget allocator.
//!
//! A Brain owns a fixed-shape grid of [`Instruction`]s and the Reader that
//! traverses it. Authoring happens only through the bounded [`Brain::set`]
//! mutator, which enforces the configured per-type budgets; remaining counts
//! are always recomputed from the grid contents, never cached, so displayed
//! availability can never drift from what is actually placed.

use vstd::prelude::*;

use crate::errors::EditError;
use crate::grid_world::lemma_row_major_index;
use crate::instruction::Instruction;
use crate::instruction::InstructionType;
use crate::rotation::Rotation;

verus! {

/// The moving instruction pointer within a Brain, analogous to a program
/// counter. Its rotation doubles as the travel direction and as the value
/// last written by a `Direction` instruction.
#[derive(Clone, Copy, Debug, PartialEq, Eq)]
pub struct Reader {
    pub pos: (i32, i32),
    pub rotation: Rotation,
}

/// How many cells of `s` hold instruction type `t`.
pub open spec fn count_of(s: Seq<Instruction>, t: InstructionType) -> int
    decreases s.len(),
{
    if s.len() == 0 {
        0
    } else {
        count_of(s.drop_last(), t) + if s.last().instruction_type == t {
            1int
        } else {
            0int
        }
    }
}

/// The configured total for type `t` among the entries of `budgets` from
/// index `i` on: the first matching entry's total, or 0 when none matches.
pub open spec fn total_of_from(
    budgets: Seq<(usize, InstructionType)>,
    t: InstructionType,
    i: int,
) -> int
    decreases budgets.len() - i,
{
    if i < 0 || i >= budgets.len() {
        0
    } else if budgets[i].1 == t {
        budgets[i].0 as int
    } else {
        total_of_from(budgets, t, i + 1)
    }
}

/// The configured total for type `t`: the first matching entry's total, or 0
/// for a type that is not budgeted.
pub open spec fn total_of(budgets: Seq<(usize, InstructionType)>, t: InstructionType) -> int {
    total_of_from(budgets, t, 0)
}

/// A well-formed budget table: every entry budgets a distinct, non-blank
/// instruction type.
pub open spec fn budgets_wf(budgets: Seq<(usize, InstructionType)>) -> bool {
    &&& forall|k: int|
        0 <= k < budgets.len() ==> (#[trigger] budgets[k]).1 != InstructionType::Blank
    &&& forall|j: int, k: int|
        0 <= j < k < budgets.len() ==> (#[trigger] budgets[j]).1 != (#[trigger] budgets[k]).1
}

/// The mathematical contents of a [`Brain`].
#[verifier::ext_equal]
pub struct BrainView {
    pub width: nat,
    pub height: nat,
    pub grid: Seq<Instruction>,
    pub reader_pos: (int, int),
    pub reader_rotation: Rotation,
    pub budgets: Seq<(usize, InstructionType)>,
}

impl BrainView {
    /// Whether (x, y) lies inside the instruction grid.
    pub open spec fn in_bounds(self, x: int, y: int) -> bool {
        0 <= x < self.width && 0 <= y < self.height
    }

    /// The instruction at (x, y): the stored cell in bounds, the blank
    /// non-editable sentinel anywhere else.
    pub open spec fn spec_get(self, x: int, y: int) -> Instruction {
        if self.in_bounds(x, y) {
            self.grid[y * self.width + x]
        } else {
            Instruction::spec_sentinel()
        }
    }

    /// For every configured entry, the placed count never exceeds the total.
    pub open spec fn budgets_respected(self) -> bool {
        forall|k: int|
            0 <= k < self.budgets.len() ==> count_of(self.grid, (#[trigger] self.budgets[k]).1)
                <= self.budgets[k].0
    }

    /// Well-formedness: the grid matches the fixed dimensions, the Reader is
    /// in bounds, and the budget table is respected by the grid contents.
    pub open spec fn wf(self) -> bool {
        &&& 1 <= self.width <= i32::MAX
        &&& 1 <= self.height <= i32::MAX
        &&& self.grid.len() == self.width * self.height
        &&& self.in_bounds(self.reader_pos.0, self.reader_pos.1)
        &&& budgets_wf(self.budgets)
        &&& self.budgets_respected()
    }
}

/// How many placements of type `t` remain: the configured total minus the
/// placed count, floored at zero.
pub open spec fn spec_remaining(b: BrainView, t: InstructionType) -> int {
    if count_of(b.grid, t) >= total_of(b.budgets, t) {
        0
    } else {
        total_of(b.budgets, t) - count_of(b.grid, t)
    }
}

/// What remains of one budget entry `e` against grid contents `grid`.
pub open spec fn spec_entry_remaining(grid: Seq<Instruction>, e: (usize, InstructionType)) -> int {
    if count_of(grid, e.1) >= e.0 {
        0
    } else {
        e.0 - count_of(grid, e.1)
    }
}

/// The palette entries contributed by the first `n` budget entries, in
/// declared order, excluding entries with nothing remaining.
pub open spec fn spec_avail_upto(
    grid: Seq<Instruction>,
    budgets: Seq<(usize, InstructionType)>,
    n: int,
) -> Seq<(usize, InstructionType)>
    decreases n,
{
    if n <= 0 || n > budgets.len() {
        Seq::empty()
    } else {
        let rest = spec_avail_upto(grid, budgets, n - 1);
        let rem = spec_entry_remaining(grid, budgets[n - 1]);
        if rem > 0 {
            rest.push((rem as usize, budgets[n - 1].1))
        } else {
            rest
        }
    }
}

/// The full palette: the always-available blank eraser entry first, then the
/// budget entries with a positive remaining count, in declared order.
pub open spec fn spec_available(b: BrainView) -> Seq<(usize, InstructionType)> {
    seq![(1usize, InstructionType::Blank)] + spec_avail_upto(
        b.grid,
        b.budgets,
        b.budgets.len() as int,
    )
}

/// Whether an edit placing `instruction` at in-bounds (x, y) is legal:
/// erasing is always legal, replacing a cell with its own current type is
/// budget-neutral and always legal, and anything else needs budget left.
pub open spec fn spec_can_place(b: BrainView, x: int, y: int, instruction: Instruction) -> bool {
    ||| instruction.instruction_type == InstructionType::Blank
    ||| b.spec_get(x, y).instruction_type == instruction.instruction_type
    ||| spec_remaining(b, instruction.instruction_type) > 0
}

/// How overwriting one cell changes the count of a type.
pub proof fn lemma_count_of_update(s: Seq<Instruction>, i: int, v: Instruction, t: InstructionType)
    requires
        0 <= i < s.len(),
    ensures
        count_of(s.update(i, v), t) == count_of(s, t) - (if s[i].instruction_type == t {
            1int
        } else {
            0int
        }) + (if v.instruction_type == t {
            1int
        } else {
            0int
        }),
    decreases s.len(),
{
    let su = s.update(i, v);
    if i == s.len() - 1 {
        assert(su.drop_last() =~= s.drop_last());
        assert(su.last() == v);
    } else {
        assert(su.drop_last() =~= s.drop_last().update(i, v));
        lemma_count_of_update(s.drop_last(), i, v, t);
        assert(su.last() == s.last());
    }
}

/// A grid holding no cell of type `t` counts zero of it.
pub proof fn lemma_count_of_no_match(s: Seq<Instruction>, t: InstructionType)
    requires
        forall|i: int| 0 <= i < s.len() ==> (#[trigger] s[i]).instruction_type != t,
    ensures
        count_of(s, t) == 0,
    decreases s.len(),
{
    if s.len() > 0 {
        assert(s.last() == s[s.len() - 1]);
        lemma_count_of_no_match(s.drop_last(), t);
    }
}

/// Scanning from `i`, the first matching entry determines the total.
pub proof fn lemma_total_of_matching_entry(
    budgets: Seq<(usize, InstructionType)>,
    t: InstructionType,
    i: int,
    k: int,
)
    requires
        0 <= i <= k < budgets.len(),
        budgets[k].1 == t,
        forall|j: int| i <= j < k ==> (#[trigger] budgets[j]).1 != t,
    ensures
        total_of_from(budgets, t, i) == budgets[k].0,
    decreases k - i,
{
    if i < k {
        lemma_total_of_matching_entry(budgets, t, i + 1, k);
    }
}

/// In a well-formed budget table, the configured total of entry `k`'s type
/// is exactly that entry's total.
pub proof fn lemma_total_of_entry(
    budgets: Seq<(usize, InstructionType)>,
    t: InstructionType,
    k: int,
)
    requires
        budgets_wf(budgets),
        0 <= k < budgets.len(),
        budgets[k].1 == t,
    ensures
        total_of(budgets, t) == budgets[k].0,
{
    assert forall|j: int| 0 <= j < k implies (#[trigger] budgets[j]).1 != t by {
        assert(budgets[j].1 != budgets[k].1);
    }
    lemma_total_of_matching_entry(budgets, t, 0, k);
}

/// The budget invariant, stated on its own: in a well-formed Brain no
/// configured instruction type is placed more often than its total allows.
pub proof fn lemma_budget_never_exceeded(b: BrainView, k: int)
    requires
        b.wf(),
        0 <= k < b.budgets.len(),
    ensures
        count_of(b.grid, b.budgets[k].1) <= b.budgets[k].0,
{
    assert(b.budgets_respected());
}

/// Round trip: overwriting in-bounds (x, y) with `instruction` makes the
/// read of (x, y) yield exactly `instruction`.
pub proof fn lemma_set_get_round_trip(
    pre: BrainView,
    post: BrainView,
    x: int,
    y: int,
    instruction: Instruction,
)
    requires
        pre.wf(),
        pre.in_bounds(x, y),
        post.width == pre.width,
        post.height == pre.height,
        post.grid == pre.grid.update(y * pre.width + x, instruction),
    ensures
        post.spec_get(x, y) == instruction,
{
    lemma_row_major_index(pre.width as int, pre.height as int, x, y);
}

/// The programmable instruction grid plus Reader owned by a Robot.
pub struct Brain {
    width: usize,
    height: usize,
    instructions: Vec<Instruction>,
    budgets: Vec<(usize, InstructionType)>,
    reader: Reader,
}

impl View for Brain {
    type V = BrainView;

    closed spec fn view(&self) -> BrainView {
        BrainView {
            width: self.width as nat,
            height: self.height as nat,
            grid: self.instructions@,
            reader_pos: (self.reader.pos.0 as int, self.reader.pos.1 as int),
            reader_rotation: self.reader.rotation,
            budgets: self.budgets@,
        }
    }
}

impl Brain {
    /// See [`BrainView::wf`].
    pub open spec fn wf(&self) -> bool {
        self@.wf()
    }

    /// Create a Brain of the given fixed dimensions with an all-blank,
    /// fully editable grid, the Reader at (0, 0) facing `Up`, and the given
    /// budget table.
    pub fn new(width: usize, height: usize, budgets: Vec<(usize, InstructionType)>) -> (r: Brain)
        requires
            1 <= width <= i32::MAX,
            1 <= height <= i32::MAX,
            width * height <= usize::MAX,
            budgets_wf(budgets@),
        ensures
            r.wf(),
            r@ == (BrainView {
                width: width as nat,
                height: height as nat,
                grid: Seq::new((width * height) as nat, |i: int| Instruction::spec_blank()),
                reader_pos: (0int, 0int),
                reader_rotation: Rotation::Up,
                budgets: budgets@,
            }),
    {
        let n: usize = width * height;
        let mut instructions: Vec<Instruction> = Vec::new();
        let mut i: usize = 0;
        while i < n
            invariant
                i <= n,
                instructions@ =~= Seq::new(i as nat, |j: int| Instruction::spec_blank()),
            decreases n - i,
        {
            instructions.push(Instruction::blank());
            i = i + 1;
        }
        let r = Brain {
            width,
            height,
            instructions,
            budgets,
            reader: Reader { pos: (0, 0), rotation: Rotation::Up },
        };
        proof {
            assert(r@.grid =~= Seq::new((width * height) as nat, |i: int| Instruction::spec_blank()));
            assert forall|k: int| 0 <= k < r@.budgets.len() implies count_of(
                r@.grid,
                (#[trigger] r@.budgets[k]).1,
            ) <= r@.budgets[k].0 by {
                lemma_count_of_no_match(r@.grid, r@.budgets[k].1);
            }
        }
        r
    }

    /// The grid width.
    pub fn width(&self) -> (r: usize)
        ensures
            r == self@.width,
    {
        self.width
    }

    /// The grid height.
    pub fn height(&self) -> (r: usize)
        ensures
            r == self@.height,
    {
        self.height
    }

    /// The Reader's current position and travel direction.
    pub fn reader(&self) -> (r: Reader)
        ensures
            (r.pos.0 as int, r.pos.1 as int) == self@.reader_pos,
            r.rotation == self@.reader_rotation,
    {
        self.reader
    }

    /// Whether (x, y) lies inside the instruction grid.
    pub fn in_bounds(&self, x: i32, y: i32) -> (r: bool)
        ensures
            r == self@.in_bounds(x as int, y as int),
    {
        x >= 0 && y >= 0 && (x as usize) < self.width && (y as usize) < self.height
    }

    /// The instruction at (x, y). Total: out-of-range coordinates yield the
    /// blank non-editable sentinel and never fail — the execution engine
    /// probes one cell beyond the Reader every quantum.
    pub fn get(&self, x: i32, y: i32) -> (r: Instruction)
        requires
            self.wf(),
        ensures
            r == self@.spec_get(x as int, y as int),
    {
        if x < 0 || y < 0 {
            return Instruction::sentinel();
        }
        let xu: usize = x as usize;
        let yu: usize = y as usize;
        if xu >= self.width || yu >= self.height {
            return Instruction::sentinel();
        }
        let n_cells: usize = self.instructions.len();
        proof {
            lemma_row_major_index(self@.width as int, self@.height as int, xu as int, yu as int);
            assert((yu as int) * (self@.width as int) + (xu as int) < n_cells as int);
        }
        let idx: usize = yu * self.width + xu;
        self.instructions[idx]
    }

    /// How many cells of the grid currently hold type `t`.
    fn count_placed(&self, t: InstructionType) -> (r: usize)
        ensures
            r as int == count_of(self@.grid, t),
    {
        let len: usize = self.instructions.len();
        let mut n: usize = 0;
        let mut i: usize = 0;
        while i < len
            invariant
                i <= len,
                len == self.instructions@.len(),
                n <= i,
                n as int == count_of(self.instructions@.take(i as int), t),
            decreases len - i,
        {
            proof {
                assert(self.instructions@.take(i as int + 1).drop_last() =~= self.instructions@.take(
                    i as int,
                ));
                assert(self.instructions@.take(i as int + 1).last() == self.instructions@[i as int]);
            }
            if self.instructions[i].instruction_type == t {
                n = n + 1;
            }
            i = i + 1;
        }
        proof {
            assert(self.instructions@.take(len as int) =~= self.instructions@);
        }
        n
    }

    /// The configured total for type `t`: the first matching budget entry's
    /// total, or 0 for a type that is not budgeted.
    fn budget_total(&self, t: InstructionType) -> (r: usize)
        ensures
            r as int == total_of(self@.budgets, t),
    {
        let len: usize = self.budgets.len();
        let mut k: usize = 0;
        while k < len
            invariant
                k <= len,
                len == self.budgets@.len(),
                total_of(self@.budgets, t) == total_of_from(self@.budgets, t, k as int),
            decreases len - k,
        {
            let (total, bt) = self.budgets[k];
            if bt == t {
                return total;
            }
            k = k + 1;
        }
        0
    }

    /// How many placements of type `t` remain: the configured total minus
    /// the placed count, floored at zero via a guarded check.
    pub fn remaining_count(&self, instruction_type: InstructionType) -> (r: usize)
        ensures
            r as int == spec_remaining(self@, instruction_type),
    {
        let total = self.budget_total(instruction_type);
        let placed = self.count_placed(instruction_type);
        if placed >= total {
            0
        } else {
            total - placed
        }
    }

    /// The instruction palette: a synthetic always-available blank eraser
    /// entry first, then each configured budget entry with a positive
    /// remaining count, in declared order.
    pub fn available(&self) -> (r: Vec<(usize, InstructionType)>)
        ensures
            r@ == spec_available(self@),
    {
        let mut r: Vec<(usize, InstructionType)> = Vec::new();
        r.push((1, InstructionType::Blank));
        let len: usize = self.budgets.len();
        let mut k: usize = 0;
        while k < len
            invariant
                k <= len,
                len == self.budgets@.len(),
                r@ == seq![(1usize, InstructionType::Blank)] + spec_avail_upto(
                    self@.grid,
                    self@.budgets,
                    k as int,
                ),
            decreases len - k,
        {
            let (total, bt) = self.budgets[k];
            let placed = self.count_placed(bt);
            if placed < total {
                let rem: usize = total - placed;
                r.push((rem, bt));
            }
            proof {
                assert(r@ =~= seq![(1usize, InstructionType::Blank)] + spec_avail_upto(
                    self@.grid,
                    self@.budgets,
                    k as int + 1,
                ));
            }
            k = k + 1;
        }
        proof {
            assert(r@ =~= spec_available(self@));
        }
        r
    }

    /// Overwrite the cell at (x, y) with `instruction`.
    ///
    /// Fails `OutOfBounds` for coordinates outside the grid and
    /// `BudgetExceeded` when placing a non-blank type whose budget is fully
    /// consumed into a cell not already holding that type; on any failure
    /// the Brain is unchanged. Replacing a cell with its own current type is
    /// budget-neutral and always legal.
    pub fn set(&mut self, x: i32, y: i32, instruction: Instruction) -> (r: Result<(), EditError>)
        requires
            old(self).wf(),
        ensures
            final(self).wf(),
            final(self)@.width == old(self)@.width,
            final(self)@.height == old(self)@.height,
            final(self)@.budgets == old(self)@.budgets,
            final(self)@.reader_pos == old(self)@.reader_pos,
            final(self)@.reader_rotation == old(self)@.reader_rotation,
            match r {
                Ok(()) => old(self)@.in_bounds(x as int, y as int) && spec_can_place(
                    old(self)@,
                    x as int,
                    y as int,
                    instruction,
                ) && final(self)@.grid == old(self)@.grid.update(
                    y * old(self)@.width + x,
                    instruction,
                ) && final(self)@.spec_get(x as int, y as int) == instruction,
                Err(EditError::OutOfBounds) => !old(self)@.in_bounds(x as int, y as int)
                    && final(self)@ == old(self)@,
                Err(EditError::BudgetExceeded) => old(self)@.in_bounds(x as int, y as int)
                    && !spec_can_place(old(self)@, x as int, y as int, instruction) && final(self)@
                    == old(self)@,
            },
    {
        if x < 0 || y < 0 {
            return Err(EditError::OutOfBounds);
        }
        let xu: usize = x as usize;
        let yu: usize = y as usize;
        if xu >= self.width || yu >= self.height {
            return Err(EditError::OutOfBounds);
        }
        let n_cells: usize = self.instructions.len();
        proof {
            lemma_row_major_index(self@.width as int, self@.height as int, xu as int, yu as int);
            assert((yu as int) * (self@.width as int) + (xu as int) < n_cells as int);
        }
        let idx: usize = yu * self.width + xu;
        let current = self.instructions[idx];
        proof {
            assert(self@.spec_get(x as int, y as int) == current);
        }
        let is_blank = instruction.instruction_type == InstructionType::Blank;
        let same = current.instruction_type == instruction.instruction_type;
        if !is_blank && !same && self.remaining_count(instruction.instruction_type) == 0 {
            return Err(EditError::BudgetExceeded);
        }
        let ghost pre = self@;
        self.instructions[idx] = instruction;
        proof {
            let t = instruction.instruction_type;
            assert(self@.grid == pre.grid.update(idx as int, instruction));
            assert(idx as int == y * pre.width + x);
            lemma_set_get_round_trip(pre, self@, x as int, y as int, instruction);
            assert forall|k: int| 0 <= k < self@.budgets.len() implies count_of(
                self@.grid,
                (#[trigger] self@.budgets[k]).1,
            ) <= self@.budgets[k].0 by {
                let bt = self@.budgets[k].1;
                lemma_count_of_update(pre.grid, idx as int, instruction, bt);
                if bt == t {
                    if current.instruction_type != t {
                        lemma_total_of_entry(pre.budgets, t, k);
                    }
                }
            }
        }
        Ok(())
    }

    /// Place the Reader. Only the execution engine moves the Reader, and
    /// only to in-bounds cells.
    pub(crate) fn set_reader(&mut self, reader: Reader)
        requires
            old(self).wf(),
            old(self)@.in_bounds(reader.pos.0 as int, reader.pos.1 as int),
        ensures
            final(self).wf(),
            final(self)@.width == old(self)@.width,
            final(self)@.height == old(self)@.height,
            final(self)@.grid == old(self)@.grid,
            final(self)@.budgets == old(self)@.budgets,
            final(self)@.reader_pos == (reader.pos.0 as int, reader.pos.1 as int),
            final(self)@.reader_rotation == reader.rotation,
    {
        self.reader = reader;
    }
}

} // verus!
