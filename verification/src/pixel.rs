//! One cell of the canvas: its color, the time of its last write and
//! the identity of its last writer.

use vstd::prelude::*;
use vstd::string::StringExecFns;
use crate::color::valid_color;

verus! {

/// Background color of a never-painted cell.
pub const DEFAULT_COLOR: &'static str = "#1a1a2e";

/// One cell of the canvas.
pub struct Pixel {
    /// Current color, `#` followed by six hex digits.
    pub color: String,
    /// Unix-seconds time of the last write; 0 for a never-painted cell.
    pub last_updated: u64,
    /// Identity of the last writer; empty for a never-painted cell.
    pub modifier_id: String,
}

/// Mathematical model of a cell.
pub ghost struct CellModel {
    pub color: Seq<char>,
    pub last_updated: u64,
    pub modifier: Seq<char>,
}

impl View for Pixel {
    type V = CellModel;

    open spec fn view(&self) -> CellModel {
        CellModel {
            color: self.color@,
            last_updated: self.last_updated,
            modifier: self.modifier_id@,
        }
    }
}

/// A well-formed cell carries a well-formed color.
pub open spec fn wf_cell(m: CellModel) -> bool {
    valid_color(m.color)
}

/// Model of a never-painted cell.
pub open spec fn default_cell() -> CellModel {
    CellModel { color: DEFAULT_COLOR@, last_updated: 0, modifier: Seq::empty() }
}

/// The background color is itself a well-formed color.
pub proof fn lemma_default_cell_wf()
    ensures
        wf_cell(default_cell()),
{
    reveal_strlit("#1a1a2e");
}

impl Clone for Pixel {
    /// Cloning a cell keeps its model.
    fn clone(&self) -> (r: Self)
        ensures
            r@ == self@,
    {
        Pixel {
            color: self.color.clone(),
            last_updated: self.last_updated,
            modifier_id: self.modifier_id.clone(),
        }
    }
}

impl Default for Pixel {
    /// A never-painted cell: background color, time 0, no writer.
    fn default() -> (r: Self)
        ensures
            r@ == default_cell(),
            wf_cell(r@),
    {
        let r = Pixel {
            color: String::from_str(DEFAULT_COLOR),
            last_updated: 0,
            modifier_id: String::new(),
        };
        proof {
            lemma_default_cell_wf();
            assert(r.modifier_id@ =~= Seq::<char>::empty());
        }
        r
    }
}

} // verus!
