use crate::geometry::{Rect, POS_LIMIT};
use vstd::prelude::*;

verus! {

/// Maps a contiguous range of global tile ids onto sub-rectangles of one
/// tileset image: id `first_gid` is the top-left tile, ids continue row-major
/// across `columns` columns for `rows` rows.
#[derive(Clone, Debug)]
pub struct TileAtlas {
    pub first_gid: u32,
    pub tile_width: u32,
    pub tile_height: u32,
    pub columns: u32,
    pub rows: u32,
    pub image: String,
}

impl TileAtlas {
    /// An atlas is well formed when its grid is non-degenerate and spans a
    /// bounded image, so that every tile's source rectangle is well formed.
    pub open spec fn wf(self) -> bool {
        &&& 1 <= self.tile_width <= 65_536
        &&& 1 <= self.tile_height <= 65_536
        &&& 1 <= self.columns
        &&& self.columns * self.tile_width <= POS_LIMIT
        &&& self.rows * self.tile_height <= POS_LIMIT
        &&& self.rows <= 1_000_000
        &&& self.columns <= 1_000_000
    }

    /// The number of tile ids the atlas covers.
    pub open spec fn count(self) -> int {
        self.columns * self.rows
    }

    /// Whether the atlas covers the given global tile id.
    pub open spec fn covers(self, gid: u32) -> bool {
        self.first_gid <= gid < self.first_gid + self.count()
    }

    /// The source rectangle of the given global tile id.
    pub open spec fn tile_rect(self, gid: u32) -> Rect {
        let idx = gid - self.first_gid;
        Rect {
            x: ((idx % (self.columns as int)) * self.tile_width) as i32,
            y: ((idx / (self.columns as int)) * self.tile_height) as i32,
            width: self.tile_width,
            height: self.tile_height,
        }
    }

    /// Looks up the source rectangle of a tile id the atlas covers.
    pub fn get_tile_rect(&self, gid: u32) -> (r: Rect)
        requires
            self.wf(),
            self.covers(gid),
        ensures
            r == self.tile_rect(gid),
            r.wf(),
    {
        let idx: u32 = gid - self.first_gid;
        let col: u32 = idx % self.columns;
        let row: u32 = idx / self.columns;
        proof {
            vstd::arithmetic::div_mod::lemma_fundamental_div_mod(idx as int, self.columns as int);
            assert(row < self.rows) by (nonlinear_arith)
                requires
                    idx as int == self.columns * row + col,
                    0 <= col < self.columns,
                    idx < self.columns * self.rows,
                    self.columns >= 1,
                    row >= 0,
            ;
            assert(col * self.tile_width < self.columns * self.tile_width) by (nonlinear_arith)
                requires
                    0 <= col < self.columns,
                    self.tile_width >= 1,
            ;
            assert(row * self.tile_height < self.rows * self.tile_height) by (nonlinear_arith)
                requires
                    0 <= row < self.rows,
                    self.tile_height >= 1,
            ;
        }
        let x: u64 = col as u64 * self.tile_width as u64;
        let y: u64 = row as u64 * self.tile_height as u64;
        Rect { x: x as i32, y: y as i32, width: self.tile_width, height: self.tile_height }
    }
}

} // verus!
