//! The canvas store: the canonical grid of cells, the validity mask and
//! the presence count, with one mutation per critical section.

use vstd::prelude::*;
use vstd::string::StringExecFns;
use crate::GRID_SIZE;
use crate::codec::decode_grid;
use crate::codec::spec_decode;
use crate::color::is_valid_hex_color;
use crate::color::valid_color;
use crate::mask::generate_tree_mask;
use crate::mask::spec_tree_mask;
use crate::messages::PixelData;
use crate::messages::ServerMessage;
use crate::pixel::CellModel;
use crate::pixel::Pixel;
use crate::pixel::default_cell;
use crate::pixel::wf_cell;

verus! {

/// Model of a sequence of cells.
pub open spec fn cells_model(s: Seq<Pixel>) -> Seq<CellModel> {
    Seq::new(s.len(), |i: int| s[i]@)
}

/// Every cell of the sequence is well-formed.
pub open spec fn wf_cells(ms: Seq<CellModel>) -> bool {
    forall|i: int| 0 <= i < ms.len() ==> wf_cell(#[trigger] ms[i])
}

/// Why a paint request was rejected as a no-op.
#[derive(Clone, Copy, PartialEq, Eq, Structural, Debug)]
pub enum PaintRejection {
    /// The index does not lie in `[0, GRID_SIZE)`.
    IndexOutOfRange,
    /// The color is not `#` followed by six hex digits.
    InvalidColor,
    /// The cell lies outside the validity mask.
    NotPaintable,
}

/// The canonical shared state: grid, validity mask and presence count.
pub struct AppState {
    /// The grid, one cell per canvas position, indexed by `y * GRID_WIDTH + x`.
    pub grid: Vec<Pixel>,
    /// Number of currently connected sessions.
    pub online_count: u64,
    /// The validity mask; `true` marks a paintable cell.
    pub tree_mask: Vec<bool>,
}

/// The presence count after adding `delta`, clamped to `[0, u64::MAX]`.
pub open spec fn clamped_presence(c: u64, delta: int) -> u64 {
    let s = c + delta;
    if s < 0 {
        0u64
    } else if s > u64::MAX {
        u64::MAX
    } else {
        s as u64
    }
}

impl AppState {
    /// Structural invariant: full-size grid of well-formed cells, and
    /// the mask is exactly the generated one.
    pub open spec fn wf(&self) -> bool {
        &&& self.grid@.len() == GRID_SIZE
        &&& self.tree_mask@ == spec_tree_mask()
        &&& wf_cells(cells_model(self.grid@))
    }

    /// The grid as a sequence of cell models.
    pub open spec fn grid_model(&self) -> Seq<CellModel> {
        cells_model(self.grid@)
    }

    /// A fresh state: all cells never painted, nobody connected.
    pub fn new() -> (s: Self)
        ensures
            s.wf(),
            s.online_count == 0,
            s.grid_model() =~= Seq::new(GRID_SIZE as nat, |i: int| default_cell()),
    {
        let mut grid: Vec<Pixel> = Vec::new();
        let mut i: usize = 0;
        while i < GRID_SIZE
            invariant
                i <= GRID_SIZE,
                grid@.len() == i,
                forall|j: int| 0 <= j < i ==> (#[trigger] grid@[j])@ == default_cell(),
            decreases GRID_SIZE - i,
        {
            grid.push(Pixel::default());
            i = i + 1;
        }
        let s = AppState { grid, online_count: 0, tree_mask: generate_tree_mask() };
        proof {
            crate::pixel::lemma_default_cell_wf();
            assert(s.grid_model() =~= Seq::new(GRID_SIZE as nat, |i: int| default_cell()));
        }
        s
    }

    /// Applies one paint request, or rejects it as a no-op.
    ///
    /// A request is accepted exactly when the index is in range, the
    /// color is well-formed and the cell is paintable; acceptance
    /// overwrites that one cell and yields the cell-updated event to
    /// broadcast. Rejection leaves the grid untouched and names the
    /// first failing check, in the order index, color, mask.
    pub fn apply_paint(&mut self, index: usize, color: &str, modifier: &str, now: u64) -> (r:
        Result<ServerMessage, PaintRejection>)
        requires
            old(self).wf(),
        ensures
            final(self).wf(),
            final(self).online_count == old(self).online_count,
            final(self).tree_mask@ == old(self).tree_mask@,
            r is Ok <==> (index < GRID_SIZE && valid_color(color@) && spec_tree_mask()[index as int]),
            r is Ok ==> final(self).grid_model() == old(self).grid_model().update(
                index as int,
                CellModel { color: color@, last_updated: now, modifier: modifier@ },
            ),
            r matches Ok(m) ==> (m matches ServerMessage::UpdatePixel { index: pi, color: pc }
                && pi == index && pc@ == color@),
            r is Err ==> final(self).grid_model() == old(self).grid_model(),
            index >= GRID_SIZE ==> (r matches Err(PaintRejection::IndexOutOfRange)),
            index < GRID_SIZE && !valid_color(color@) ==> (r matches Err(
                PaintRejection::InvalidColor,
            )),
            index < GRID_SIZE && valid_color(color@) && !spec_tree_mask()[index as int] ==> (
            r matches Err(PaintRejection::NotPaintable)),
    {
        if index >= GRID_SIZE {
            return Err(PaintRejection::IndexOutOfRange);
        }
        if !is_valid_hex_color(color) {
            return Err(PaintRejection::InvalidColor);
        }
        if !self.tree_mask[index] {
            return Err(PaintRejection::NotPaintable);
        }
        let cell = Pixel {
            color: String::from_str(color),
            last_updated: now,
            modifier_id: modifier.to_owned(),
        };
        self.grid.set(index, cell);
        proof {
            assert(self.grid_model() =~= old(self).grid_model().update(
                index as int,
                CellModel { color: color@, last_updated: now, modifier: modifier@ },
            ));
        }
        Ok(ServerMessage::UpdatePixel { index, color: String::from_str(color) })
    }

    /// Adds `delta` to the presence count, clamped at zero (and, at the
    /// top, at the machine limit). Returns the resulting count.
    pub fn adjust_presence(&mut self, delta: i32) -> (count: u64)
        ensures
            final(self).online_count == clamped_presence(old(self).online_count, delta as int),
            count == final(self).online_count,
            final(self).grid@ == old(self).grid@,
            final(self).tree_mask@ == old(self).tree_mask@,
            old(self).wf() ==> final(self).wf(),
    {
        let new_count: u64 = if delta >= 0 {
            self.online_count.saturating_add(delta as u64)
        } else {
            let mag: u64 = (-(delta as i64)) as u64;
            self.online_count.saturating_sub(mag)
        };
        self.online_count = new_count;
        new_count
    }

    /// A consistent point-in-time view: a copy of every cell, and the
    /// presence count, taken together.
    pub fn snapshot(&self) -> (r: (Vec<Pixel>, u64))
        requires
            self.wf(),
        ensures
            cells_model(r.0@) == self.grid_model(),
            r.0@.len() == GRID_SIZE,
            wf_cells(cells_model(r.0@)),
            r.1 == self.online_count,
    {
        let mut cells: Vec<Pixel> = Vec::new();
        let n = self.grid.len();
        let mut i: usize = 0;
        while i < n
            invariant
                i <= n,
                n == self.grid@.len(),
                self.wf(),
                cells@.len() == i,
                forall|j: int| 0 <= j < i ==> (#[trigger] cells@[j])@ == self.grid@[j]@,
            decreases n - i,
        {
            cells.push(self.grid[i].clone());
            i = i + 1;
        }
        proof {
            assert(cells_model(cells@) =~= self.grid_model());
        }
        (cells, self.online_count)
    }

    /// Rebuilds a state from snapshot bytes. The bytes are trusted only
    /// if they decode and hold exactly one full grid; on any
    /// malformation or length mismatch the result falls back silently
    /// to a fresh all-default canvas. Nobody is connected either way.
    pub fn from_backup_bytes(data: &Vec<u8>) -> (s: Self)
        ensures
            s.wf(),
            s.online_count == 0,
            spec_decode(data@) matches Some(ms) ==> {
                &&& ms.len() == GRID_SIZE ==> s.grid_model() == ms
                &&& ms.len() != GRID_SIZE ==> s.grid_model() =~= Seq::new(
                    GRID_SIZE as nat,
                    |i: int| default_cell(),
                )
            },
            spec_decode(data@) is None ==> s.grid_model() =~= Seq::new(
                GRID_SIZE as nat,
                |i: int| default_cell(),
            ),
    {
        match decode_grid(data) {
            Some(cells) => {
                if cells.len() == GRID_SIZE {
                    AppState { grid: cells, online_count: 0, tree_mask: generate_tree_mask() }
                } else {
                    AppState::new()
                }
            },
            None => AppState::new(),
        }
    }

    /// The unicast snapshot event for a new session: every cell's
    /// color, the presence count and the validity mask, all taken from
    /// one consistent view of the state.
    pub fn initial_state_message(&self) -> (m: ServerMessage)
        requires
            self.wf(),
        ensures
            m matches ServerMessage::InitialState { grid, online_count, tree_mask } && {
                &&& grid@.len() == GRID_SIZE
                &&& forall|i: int|
                    0 <= i < GRID_SIZE ==> (#[trigger] grid@[i]).color@ == self.grid_model()[i].color
                &&& online_count == self.online_count
                &&& tree_mask@ == spec_tree_mask()
                &&& tree_mask@.len() == GRID_SIZE
            },
    {
        let mut grid: Vec<PixelData> = Vec::new();
        let mut i: usize = 0;
        while i < GRID_SIZE
            invariant
                i <= GRID_SIZE,
                self.wf(),
                grid@.len() == i,
                forall|j: int|
                    0 <= j < i ==> (#[trigger] grid@[j]).color@ == self.grid_model()[j].color,
            decreases GRID_SIZE - i,
        {
            grid.push(PixelData { color: self.grid[i].color.clone() });
            i = i + 1;
        }
        let mut tree_mask: Vec<bool> = Vec::new();
        let mut i: usize = 0;
        while i < GRID_SIZE
            invariant
                i <= GRID_SIZE,
                self.wf(),
                tree_mask@.len() == i,
                forall|j: int| 0 <= j < i ==> tree_mask@[j] == self.tree_mask@[j],
            decreases GRID_SIZE - i,
        {
            tree_mask.push(self.tree_mask[i]);
            i = i + 1;
        }
        proof {
            assert(tree_mask@ =~= spec_tree_mask());
        }
        ServerMessage::InitialState { grid, online_count: self.online_count, tree_mask }
    }
}

/// The presence count after `n` further connects.
pub open spec fn after_connects(c: u64, n: nat) -> u64
    decreases n,
{
    if n == 0 {
        c
    } else {
        clamped_presence(after_connects(c, (n - 1) as nat), 1)
    }
}

/// The presence count after `n` further disconnects.
pub open spec fn after_disconnects(c: u64, n: nat) -> u64
    decreases n,
{
    if n == 0 {
        c
    } else {
        clamped_presence(after_disconnects(c, (n - 1) as nat), -1)
    }
}

proof fn lemma_connects_add(c: u64, n: nat)
    requires
        c + n <= u64::MAX,
    ensures
        after_connects(c, n) == c + n,
    decreases n,
{
    if n > 0 {
        lemma_connects_add(c, (n - 1) as nat);
    }
}

proof fn lemma_disconnects_sub(c: u64, n: nat)
    requires
        n <= c,
    ensures
        after_disconnects(c, n) == c - n,
    decreases n,
{
    if n > 0 {
        lemma_disconnects_sub(c, (n - 1) as nat);
    }
}

/// Law: `n` connects followed by `n` disconnects return the presence
/// count to its starting value (as long as the count stays below the
/// machine limit, where a connect saturates).
pub proof fn lemma_presence_balanced(c: u64, n: nat)
    requires
        c + n <= u64::MAX,
    ensures
        after_disconnects(after_connects(c, n), n) == c,
{
    lemma_connects_add(c, n);
    lemma_disconnects_sub((c + n) as u64, n);
}

} // verus!
