use crate::animated_tile::{tile_tick, AnimatedTile, Frame};
use crate::door::Door;
use crate::enemy::{enemy_stepped, has_bat_clips, Enemy};
use crate::geometry::{
    div_ceil, div_trunc, div_trunc_any, div_trunc_any_i64, Rect, Vector2, MAX_TICK, POS_LIMIT,
};
use crate::map::{
    LayerDescription, MapDescription, MapLoadError, ObjectDescription, ObjectGroupDescription,
    TilesetDescription, prop_lookup, MAX_COORD_MILLI, MAX_GID, MAX_IMAGE_SIZE, MAX_LOCAL_ID,
    MAX_MAP_TILES, MAX_SIZE_MILLI, MAX_TILE_SIZE,
};
use crate::player::{Direction, Player};
use crate::sprite::DrawCommand;
use crate::game::SPRITE_SCALE;
use crate::tile::TileAtlas;
use vstd::prelude::*;

verus! {

/// Number of tiles one screen shows horizontally.
pub const MAP_WIDTH: i32 = 20;

/// Number of tiles one screen shows vertically.
pub const MAP_HEIGHT: i32 = 16;

/// A directed ramp segment, one authored polyline edge wide. Its endpoints
/// carry non-negative pixel coordinates and the segment is never vertical,
/// so the ramp height below any horizontal position is defined.
#[derive(Clone, Copy, PartialEq, Eq, Structural, Debug)]
pub struct Slope {
    pub from: Vector2,
    pub to: Vector2,
}

/// Whether a rectangle straddles the slope segment's bounding box from any
/// of the four diagonal approach directions.
pub open spec fn slope_overlaps(s: Slope, rect: Rect) -> bool {
    ||| {
        &&& rect.spec_right() > s.to.0
        &&& rect.spec_left() < s.from.0
        &&& rect.spec_top() < s.to.1
        &&& rect.spec_bottom() > s.from.1
    }
    ||| {
        &&& rect.spec_right() > s.from.0
        &&& rect.spec_left() < s.to.0
        &&& rect.spec_top() < s.from.1
        &&& rect.spec_bottom() > s.to.1
    }
    ||| {
        &&& rect.spec_left() < s.from.0
        &&& rect.spec_right() > s.to.0
        &&& rect.spec_top() < s.from.1
        &&& rect.spec_bottom() > s.to.1
    }
    ||| {
        &&& rect.spec_left() < s.to.0
        &&& rect.spec_right() > s.from.0
        &&& rect.spec_top() < s.to.1
        &&& rect.spec_bottom() > s.from.1
    }
}

/// The vertical pixel coordinate a grounded mover snaps to on the ramp: the
/// surface height at the doubled horizontal position `cx2` (doubled so that
/// half-pixel rectangle centers stay exact), minus the fixed bias and the
/// mover's height `h`, with the whole rational expression truncated toward
/// zero at once.
pub open spec fn slope_snap_y(s: Slope, cx2: int, h: int) -> int {
    let dx2 = 2 * (s.to.0 - s.from.0);
    div_trunc_any((cx2 - 2 * s.from.0) * (s.to.1 - s.from.1) + (s.from.1 - 4 - h) * dx2, dx2)
}

impl Slope {
    /// A slope is well formed when its endpoints are non-negative bounded
    /// map coordinates and the segment is not vertical.
    pub open spec fn wf(self) -> bool {
        &&& 0 <= self.from.0 <= POS_LIMIT
        &&& 0 <= self.from.1 <= POS_LIMIT
        &&& 0 <= self.to.0 <= POS_LIMIT
        &&& 0 <= self.to.1 <= POS_LIMIT
        &&& self.from.0 != self.to.0
    }

    /// The rise and run of the segment; the ramp's gradient is their ratio.
    pub fn get_slope(&self) -> (r: (i32, i32))
        requires
            self.wf(),
        ensures
            r.0 == self.to.1 - self.from.1,
            r.1 == self.to.0 - self.from.0,
            r.1 != 0,
    {
        (self.to.1 - self.from.1, self.to.0 - self.from.0)
    }

    /// Whether the given rectangle straddles this segment.
    pub fn collides_with(&self, rect: Rect) -> (r: bool)
        ensures
            r == slope_overlaps(*self, rect),
    {
        let r_left: i64 = rect.x as i64;
        let r_right: i64 = rect.x as i64 + rect.width as i64;
        let r_top: i64 = rect.y as i64;
        let r_bottom: i64 = rect.y as i64 + rect.height as i64;
        let f_left: i64 = self.from.0 as i64;
        let f_top: i64 = self.from.1 as i64;
        let t_left: i64 = self.to.0 as i64;
        let t_top: i64 = self.to.1 as i64;
        (r_right > t_left && r_left < f_left && r_top < t_top && r_bottom > f_top) || (r_right
            > f_left && r_left < t_left && r_top < f_top && r_bottom > t_top) || (r_left < f_left
            && r_right > t_left && r_top < f_top && r_bottom > t_top) || (r_left < t_left
            && r_right > f_left && r_top < t_top && r_bottom > f_top)
    }

    /// The vertical coordinate a grounded mover of height `h` snaps to on
    /// this ramp, its hitbox center at the doubled horizontal position `cx2`.
    pub fn snap_y(&self, cx2: i64, h: u32) -> (r: i64)
        requires
            self.wf(),
            -0x1_0000_0000 <= cx2 <= 0x1_0000_0000,
            h <= 1_000_000,
        ensures
            r == slope_snap_y(*self, cx2 as int, h as int),
            -0x2000_0000_0000_0000 <= r <= 0x2000_0000_0000_0000,
    {
        proof {
            assert(-0x1000_0000_0000_0000 <= (cx2 - 2 * self.from.0) * (self.to.1 - self.from.1)
                <= 0x1000_0000_0000_0000) by (nonlinear_arith)
                requires
                    -0x1_0000_0000 <= cx2 <= 0x1_0000_0000,
                    0 <= self.from.0 <= POS_LIMIT,
                    0 <= self.from.1 <= POS_LIMIT,
                    0 <= self.to.1 <= POS_LIMIT,
            ;
            assert(-0x1000_0000_0000_0000 <= (self.from.1 - 4 - h) * (2 * (self.to.0
                - self.from.0)) <= 0x1000_0000_0000_0000) by (nonlinear_arith)
                requires
                    0 <= self.from.1 <= POS_LIMIT,
                    0 <= h <= 1_000_000,
                    0 <= self.from.0 <= POS_LIMIT,
                    0 <= self.to.0 <= POS_LIMIT,
            ;
        }
        let den: i64 = 2 * (self.to.0 as i64 - self.from.0 as i64);
        let num: i64 = (cx2 - 2 * self.from.0 as i64) * (self.to.1 as i64 - self.from.1 as i64)
            + (self.from.1 as i64 - 4 - h as i64) * den;
        div_trunc_any_i64(num, den)
    }
}

// ---------------------------------------------------------------------------
// What a map description denotes, component by component.
// ---------------------------------------------------------------------------

/// The solid blocks one grid row contributes: one tile-sized rectangle for
/// each non-zero cell.
pub open spec fn row_blocks(row: Seq<u32>, y: int, tw: int, th: int) -> Seq<Rect>
    decreases row.len(),
{
    if row.len() == 0 {
        Seq::empty()
    } else {
        row_blocks(row.drop_last(), y, tw, th) + if row.last() != 0 {
            seq![
                Rect {
                    x: ((row.len() - 1) * tw) as i32,
                    y: (y * th) as i32,
                    width: tw as u32,
                    height: th as u32,
                },
            ]
        } else {
            Seq::<Rect>::empty()
        }
    }
}

/// The solid blocks one grid contributes, row-major.
pub open spec fn grid_blocks(grid: Seq<Vec<u32>>, tw: int, th: int) -> Seq<Rect>
    decreases grid.len(),
{
    if grid.len() == 0 {
        Seq::empty()
    } else {
        grid_blocks(grid.drop_last(), tw, th) + row_blocks(
            grid.last()@,
            grid.len() - 1,
            tw,
            th,
        )
    }
}

/// The solid blocks of a map: every non-zero cell of every layer named
/// `collision`, one tile-sized rectangle each.
pub open spec fn layers_blocks(layers: Seq<LayerDescription>, tw: int, th: int) -> Seq<Rect>
    decreases layers.len(),
{
    if layers.len() == 0 {
        Seq::empty()
    } else {
        layers_blocks(layers.drop_last(), tw, th) + if layers.last().name@ == "collision"@ {
            grid_blocks(layers.last().tiles@, tw, th)
        } else {
            Seq::<Rect>::empty()
        }
    }
}

/// The endpoint a polyline point denotes: the object position plus the point
/// offset, rounded up to whole pixels so fractional authoring coordinates
/// leave no gaps.
pub open spec fn slope_point(ox: int, oy: int, p: (i64, i64)) -> Vector2 {
    Vector2(div_ceil(ox + p.0, 1000) as i32, div_ceil(oy + p.1, 1000) as i32)
}

/// The slopes a polyline contributes: one per consecutive point pair.
pub open spec fn polyline_slopes(ox: int, oy: int, pts: Seq<(i64, i64)>) -> Seq<Slope>
    decreases pts.len(),
{
    if pts.len() < 2 {
        Seq::empty()
    } else {
        polyline_slopes(ox, oy, pts.drop_last()) + seq![
            Slope {
                from: slope_point(ox, oy, pts[pts.len() - 2]),
                to: slope_point(ox, oy, pts[pts.len() - 1]),
            },
        ]
    }
}

/// The slopes one object contributes.
pub open spec fn object_slopes(obj: ObjectDescription) -> Seq<Slope> {
    match obj.polyline {
        Option::Some(pts) => polyline_slopes(obj.x as int, obj.y as int, pts@),
        Option::None => Seq::empty(),
    }
}

/// The slopes a list of objects contributes.
pub open spec fn objects_slopes(objs: Seq<ObjectDescription>) -> Seq<Slope>
    decreases objs.len(),
{
    if objs.len() == 0 {
        Seq::empty()
    } else {
        objects_slopes(objs.drop_last()) + object_slopes(objs.last())
    }
}

/// The slopes of a map: every polyline edge of every group named `slope`.
pub open spec fn groups_slopes(groups: Seq<ObjectGroupDescription>) -> Seq<Slope>
    decreases groups.len(),
{
    if groups.len() == 0 {
        Seq::empty()
    } else {
        groups_slopes(groups.drop_last()) + if groups.last().name@ == "slope"@ {
            objects_slopes(groups.last().objects@)
        } else {
            Seq::<Slope>::empty()
        }
    }
}

/// The trigger region a door object denotes, truncated to whole pixels.
pub open spec fn door_rect(obj: ObjectDescription) -> Rect {
    Rect {
        x: div_trunc(obj.x as int, 1000) as i32,
        y: div_trunc(obj.y as int, 1000) as i32,
        width: div_trunc(obj.width as int, 1000) as u32,
        height: div_trunc(obj.height as int, 1000) as u32,
    }
}

/// The door an object denotes, if it carries a destination.
pub open spec fn object_door(obj: ObjectDescription) -> Seq<Door> {
    match prop_lookup(obj.properties@, "destination"@) {
        Option::Some(destination) => seq![Door { destination, position: door_rect(obj) }],
        Option::None => Seq::empty(),
    }
}

/// The doors a list of objects contributes.
pub open spec fn objects_doors(objs: Seq<ObjectDescription>) -> Seq<Door>
    decreases objs.len(),
{
    if objs.len() == 0 {
        Seq::empty()
    } else {
        objects_doors(objs.drop_last()) + object_door(objs.last())
    }
}

/// The doors of a map: every object with a destination in every group named
/// `doors`.
pub open spec fn groups_doors(groups: Seq<ObjectGroupDescription>) -> Seq<Door>
    decreases groups.len(),
{
    if groups.len() == 0 {
        Seq::empty()
    } else {
        groups_doors(groups.drop_last()) + if groups.last().name@ == "doors"@ {
            objects_doors(groups.last().objects@)
        } else {
            Seq::<Door>::empty()
        }
    }
}

/// The player start position of a map: the first object of the last group
/// named `start`, truncated to whole pixels; the origin when no such group
/// exists.
pub open spec fn groups_start(groups: Seq<ObjectGroupDescription>) -> Vector2
    decreases groups.len(),
{
    if groups.len() == 0 {
        Vector2(0, 0)
    } else if groups.last().name@ == "start"@ && groups.last().objects@.len() > 0 {
        Vector2(
            div_trunc(groups.last().objects@[0].x as int, 1000) as i32,
            div_trunc(groups.last().objects@[0].y as int, 1000) as i32,
        )
    } else {
        groups_start(groups.drop_last())
    }
}

/// The objects named `bat` of a list of objects.
pub open spec fn objects_bats(objs: Seq<ObjectDescription>) -> Seq<ObjectDescription>
    decreases objs.len(),
{
    if objs.len() == 0 {
        Seq::empty()
    } else {
        objects_bats(objs.drop_last()) + if objs.last().name@ == "bat"@ {
            seq![objs.last()]
        } else {
            Seq::<ObjectDescription>::empty()
        }
    }
}

/// The enemy spawn descriptors of a map: every object named `bat` in every
/// group named `enemies`.
pub open spec fn groups_bats(groups: Seq<ObjectGroupDescription>) -> Seq<ObjectDescription>
    decreases groups.len(),
{
    if groups.len() == 0 {
        Seq::empty()
    } else {
        groups_bats(groups.drop_last()) + if groups.last().name@ == "enemies"@ {
            objects_bats(groups.last().objects@)
        } else {
            Seq::<ObjectDescription>::empty()
        }
    }
}

/// Whether an enemy is the bat the given spawn descriptor calls for: at the
/// descriptor's position (truncated to pixels), at rest, with its two flight
/// clips registered and the left one selected.
pub open spec fn bat_from_object(obj: ObjectDescription, e: Enemy) -> bool {
    match e {
        Enemy::Bat(b) => {
            &&& b.x == div_trunc(obj.x as int, 1000) as i32
            &&& b.y == div_trunc(obj.y as int, 1000) as i32
            &&& b.starting_x == b.x
            &&& b.starting_y == b.y
            &&& !b.should_move_up
            &&& b.dx == 0
            &&& b.dy == 0
            &&& b.facing == Direction::Idle
            &&& b.collision == (Rect { x: 0, y: 0, width: 16, height: 16 })
            &&& b.animation.name@ == "enemy"@
            &&& has_bat_clips(b.animation)
            &&& b.animation.current_animation@ == "fly_left"@
            &&& ({
                let c = b.animation.reg()["fly_left"@];
                &&& c.frames@ == crate::animation::grid_frames(
                    Rect { x: 32, y: 32, width: 16, height: 16 },
                    3,
                    1,
                )
                &&& c.frame_duration == 150
                &&& !c.play_once
                &&& c.frame_index == 0
                &&& c.visible
            })
            &&& ({
                let c = b.animation.reg()["fly_right"@];
                &&& c.frames@ == crate::animation::grid_frames(
                    Rect { x: 32, y: 48, width: 16, height: 16 },
                    3,
                    1,
                )
                &&& c.frame_duration == 150
                &&& !c.play_once
                &&& c.frame_index == 0
                &&& c.visible
            })
        },
    }
}

/// The atlas a tileset denotes: its image cut into a grid of tiles.
pub open spec fn atlas_of(t: TilesetDescription) -> TileAtlas {
    TileAtlas {
        first_gid: t.first_gid,
        tile_width: t.tile_width,
        tile_height: t.tile_height,
        columns: (t.images@[0].width as int / t.tile_width as int) as u32,
        rows: (t.images@[0].height as int / t.tile_height as int) as u32,
        image: t.images@[0].source,
    }
}

/// The animated-tile table entries one tileset contributes: for each tile
/// with a frame animation, its global id and its frames with ids offset by
/// the tileset's first global id.
pub open spec fn tileset_anim_entries(t: TilesetDescription) -> Seq<(u32, Seq<Frame>)>
    decreases t.tiles@.len(),
{
    tiles_anim_entries(t.tiles@, t.first_gid as int)
}

pub open spec fn tiles_anim_entries(tiles: Seq<crate::map::TileDescription>, fg: int) -> Seq<
    (u32, Seq<Frame>),
>
    decreases tiles.len(),
{
    if tiles.len() == 0 {
        Seq::empty()
    } else {
        tiles_anim_entries(tiles.drop_last(), fg) + match tiles.last().animation {
            Option::Some(v) => seq![
                (
                    (tiles.last().id + fg) as u32,
                    v@.map_values(
                        |f: Frame| Frame { tile_id: (f.tile_id + fg) as u32, duration: f.duration },
                    ),
                ),
            ],
            Option::None => Seq::<(u32, Seq<Frame>)>::empty(),
        }
    }
}

/// The animated-tile table of a map.
pub open spec fn tilesets_anim_entries(ts: Seq<TilesetDescription>) -> Seq<(u32, Seq<Frame>)>
    decreases ts.len(),
{
    if ts.len() == 0 {
        Seq::empty()
    } else {
        tilesets_anim_entries(ts.drop_last()) + tileset_anim_entries(ts.last())
    }
}

// ---------------------------------------------------------------------------
// What a well-formed map description looks like.
// ---------------------------------------------------------------------------

/// The map's grid dimensions are non-degenerate and bounded.
pub open spec fn dims_ok(m: MapDescription) -> bool {
    &&& 1 <= m.width <= MAX_MAP_TILES
    &&& 1 <= m.height <= MAX_MAP_TILES
    &&& 1 <= m.tile_width <= MAX_TILE_SIZE
    &&& 1 <= m.tile_height <= MAX_TILE_SIZE
}

/// Every layer's grid has exactly the map's dimensions.
pub open spec fn layers_ok(layers: Seq<LayerDescription>, w: int, h: int) -> bool {
    forall|i: int|
        0 <= i < layers.len() ==> {
            let grid = (#[trigger] layers[i]).tiles@;
            grid.len() == h && forall|y: int| 0 <= y < grid.len() ==> (#[trigger] grid[y])@.len()
                == w
        }
}

/// Every tileset's ids, dimensions and animation frames are bounded, and its
/// image, where it has one, fits at least one tile.
pub open spec fn tileset_ok(t: TilesetDescription) -> bool {
    &&& t.first_gid <= MAX_GID
    &&& 1 <= t.tile_width <= MAX_TILE_SIZE
    &&& 1 <= t.tile_height <= MAX_TILE_SIZE
    &&& t.images@.len() > 0 ==> {
        &&& t.tile_width <= t.images@[0].width <= MAX_IMAGE_SIZE
        &&& t.tile_height <= t.images@[0].height <= MAX_IMAGE_SIZE
    }
    &&& forall|i: int|
        0 <= i < t.tiles@.len() ==> {
            let tile = #[trigger] t.tiles@[i];
            &&& tile.id <= MAX_LOCAL_ID
            &&& match tile.animation {
                Option::Some(v) => v@.len() >= 1 && forall|j: int|
                    0 <= j < v@.len() ==> (#[trigger] v@[j]).tile_id <= MAX_LOCAL_ID && v@[
                        j
                    ].duration <= MAX_TICK,
                Option::None => true,
            }
        }
}

pub open spec fn tilesets_ok(ts: Seq<TilesetDescription>) -> bool {
    forall|i: int| 0 <= i < ts.len() ==> tileset_ok(#[trigger] ts[i])
}

/// Every tileset names at least one image.
pub open spec fn tilesets_have_images(ts: Seq<TilesetDescription>) -> bool {
    forall|i: int| 0 <= i < ts.len() ==> (#[trigger] ts[i]).images@.len() > 0
}

/// The authored coordinates of one object lie in range, its size included;
/// for a polyline, every point offset too.
pub open spec fn object_coords_ok(obj: ObjectDescription) -> bool {
    &&& -MAX_COORD_MILLI <= obj.x <= MAX_COORD_MILLI
    &&& -MAX_COORD_MILLI <= obj.y <= MAX_COORD_MILLI
    &&& 0 <= obj.width <= MAX_SIZE_MILLI
    &&& 0 <= obj.height <= MAX_SIZE_MILLI
    &&& match obj.polyline {
        Option::Some(pts) => forall|i: int|
            0 <= i < pts@.len() ==> -MAX_COORD_MILLI <= (#[trigger] pts@[i]).0 <= MAX_COORD_MILLI
                && -MAX_COORD_MILLI <= pts@[i].1 <= MAX_COORD_MILLI,
        Option::None => true,
    }
}

/// Every object of one group has bounded coordinates.
pub open spec fn group_objects_ok(g: ObjectGroupDescription) -> bool {
    forall|j: int| 0 <= j < g.objects@.len() ==> object_coords_ok(#[trigger] g.objects@[j])
}

/// Every object of every group the loader recognizes has bounded coordinates.
pub open spec fn groups_coords_ok(groups: Seq<ObjectGroupDescription>) -> bool {
    forall|i: int|
        0 <= i < groups.len() && recognized_group((#[trigger] groups[i]).name@)
            ==> group_objects_ok(groups[i])
}

/// The group names the loader reads; all others are ignored.
pub open spec fn recognized_group(name: Seq<char>) -> bool {
    ||| name == "slope"@
    ||| name == "start"@
    ||| name == "doors"@
    ||| name == "enemies"@
}

/// Every group named `start` holds at least one object.
pub open spec fn start_groups_ok(groups: Seq<ObjectGroupDescription>) -> bool {
    forall|i: int|
        0 <= i < groups.len() && (#[trigger] groups[i]).name@ == "start"@ ==> groups[
            i
        ].objects@.len() > 0
}

/// Every slope the description denotes is well formed.
pub open spec fn slopes_wf(slopes: Seq<Slope>) -> bool {
    forall|i: int| 0 <= i < slopes.len() ==> (#[trigger] slopes[i]).wf()
}

/// Every object of one group carries a destination.
pub open spec fn group_destinations_ok(g: ObjectGroupDescription) -> bool {
    forall|j: int|
        0 <= j < g.objects@.len() ==> prop_lookup(
            (#[trigger] g.objects@[j]).properties@,
            "destination"@,
        ) is Some
}

/// Every door object carries a destination.
pub open spec fn doors_have_destinations(groups: Seq<ObjectGroupDescription>) -> bool {
    forall|i: int|
        0 <= i < groups.len() && (#[trigger] groups[i]).name@ == "doors"@
            ==> group_destinations_ok(groups[i])
}

/// A description the loader accepts.
pub open spec fn desc_loadable(m: MapDescription) -> bool {
    &&& !desc_malformed(m)
    &&& tilesets_have_images(m.tilesets@)
    &&& doors_have_destinations(m.object_groups@)
}

/// A malformed description: degenerate dimensions, a misshapen grid,
/// out-of-range ids or coordinates, an empty start group, or a degenerate
/// slope.
pub open spec fn desc_malformed(m: MapDescription) -> bool {
    ||| !dims_ok(m)
    ||| !layers_ok(m.layers@, m.width as int, m.height as int)
    ||| !tilesets_ok(m.tilesets@)
    ||| !groups_coords_ok(m.object_groups@)
    ||| !start_groups_ok(m.object_groups@)
    ||| !slopes_wf(groups_slopes(m.object_groups@))
}

// ---------------------------------------------------------------------------
// Validation of a map description.
// ---------------------------------------------------------------------------

/// Checks that every layer's grid has exactly the map's dimensions.
#[verifier::loop_isolation(false)]
fn check_layers(layers: &Vec<LayerDescription>, w: u32, h: u32) -> (r: bool)
    ensures
        r == layers_ok(layers@, w as int, h as int),
{
    let n = layers.len();
    for i in 0..n
        invariant
            forall|k: int|
                0 <= k < i ==> {
                    let grid = (#[trigger] layers@[k]).tiles@;
                    grid.len() == h && forall|y: int|
                        0 <= y < grid.len() ==> (#[trigger] grid[y])@.len() == w
                },
    {
        let rows = layers[i].tiles.len();
        if rows != h as usize {
            return false;
        }
        for y in 0..rows
            invariant
                rows == layers@[i as int].tiles@.len(),
                forall|yy: int|
                    0 <= yy < y ==> (#[trigger] layers@[i as int].tiles@[yy])@.len() == w,
        {
            if layers[i].tiles[y].len() != w as usize {
                return false;
            }
        }
    }
    true
}

/// Checks that every tileset's ids, dimensions and animation frames are
/// bounded and that its image, where it has one, fits at least one tile.
#[verifier::loop_isolation(false)]
fn check_tilesets(ts: &Vec<TilesetDescription>) -> (r: bool)
    ensures
        r == tilesets_ok(ts@),
{
    let n = ts.len();
    for i in 0..n
        invariant
            forall|k: int| 0 <= k < i ==> tileset_ok(#[trigger] ts@[k]),
    {
        let t = &ts[i];
        if t.first_gid > MAX_GID {
            return false;
        }
        if t.tile_width < 1 || t.tile_width > MAX_TILE_SIZE {
            return false;
        }
        if t.tile_height < 1 || t.tile_height > MAX_TILE_SIZE {
            return false;
        }
        if t.images.len() > 0 {
            let img = &t.images[0];
            if img.width < t.tile_width || img.width > MAX_IMAGE_SIZE {
                return false;
            }
            if img.height < t.tile_height || img.height > MAX_IMAGE_SIZE {
                return false;
            }
        }
        let m = t.tiles.len();
        for j in 0..m
            invariant
                m == ts@[i as int].tiles@.len(),
                forall|k: int|
                    0 <= k < j ==> {
                        let tile = #[trigger] ts@[i as int].tiles@[k];
                        &&& tile.id <= MAX_LOCAL_ID
                        &&& match tile.animation {
                            Option::Some(v) => v@.len() >= 1 && forall|q: int|
                                0 <= q < v@.len() ==> (#[trigger] v@[q]).tile_id <= MAX_LOCAL_ID
                                    && v@[q].duration <= MAX_TICK,
                            Option::None => true,
                        }
                    },
        {
            let tile = &ts[i].tiles[j];
            if tile.id > MAX_LOCAL_ID {
                return false;
            }
            match &tile.animation {
                Some(v) => {
                    if v.len() < 1 {
                        return false;
                    }
                    let fl = v.len();
                    for q in 0..fl
                        invariant
                            fl == v@.len(),
                            v@ == ts@[i as int].tiles@[j as int].animation.unwrap()@,
                            forall|p: int|
                                0 <= p < q ==> (#[trigger] v@[p]).tile_id <= MAX_LOCAL_ID && v@[
                                    p
                                ].duration <= MAX_TICK,
                    {
                        if v[q].tile_id > MAX_LOCAL_ID || v[q].duration > MAX_TICK {
                            return false;
                        }
                    }
                },
                None => {},
            }
        }
    }
    true
}

/// Checks that every tileset names at least one image.
#[verifier::loop_isolation(false)]
fn check_tilesets_images(ts: &Vec<TilesetDescription>) -> (r: bool)
    ensures
        r == tilesets_have_images(ts@),
{
    let n = ts.len();
    for i in 0..n
        invariant
            forall|k: int| 0 <= k < i ==> (#[trigger] ts@[k]).images@.len() > 0,
    {
        if ts[i].images.len() == 0 {
            return false;
        }
    }
    true
}

/// Checks that one object's coordinates, size, and polyline points lie in
/// range.
#[verifier::loop_isolation(false)]
fn check_object_coords(obj: &ObjectDescription) -> (r: bool)
    ensures
        r == object_coords_ok(*obj),
{
    if obj.x < -MAX_COORD_MILLI || obj.x > MAX_COORD_MILLI {
        return false;
    }
    if obj.y < -MAX_COORD_MILLI || obj.y > MAX_COORD_MILLI {
        return false;
    }
    if obj.width < 0 || obj.width > MAX_SIZE_MILLI {
        return false;
    }
    if obj.height < 0 || obj.height > MAX_SIZE_MILLI {
        return false;
    }
    match &obj.polyline {
        Some(pts) => {
            let n = pts.len();
            for i in 0..n
                invariant
                    n == pts@.len(),
                    pts@ == obj.polyline.unwrap()@,
                    forall|k: int|
                        0 <= k < i ==> -MAX_COORD_MILLI <= (#[trigger] pts@[k]).0
                            <= MAX_COORD_MILLI && -MAX_COORD_MILLI <= pts@[k].1 <= MAX_COORD_MILLI,
            {
                if pts[i].0 < -MAX_COORD_MILLI || pts[i].0 > MAX_COORD_MILLI || pts[i].1
                    < -MAX_COORD_MILLI || pts[i].1 > MAX_COORD_MILLI {
                    return false;
                }
            }
            true
        },
        None => true,
    }
}

/// Checks that every object of every recognized group has bounded
/// coordinates.
#[verifier::loop_isolation(false)]
fn check_group_coords(groups: &Vec<ObjectGroupDescription>) -> (r: bool)
    ensures
        r == groups_coords_ok(groups@),
{
    let slope_name: String = "slope".to_owned();
    let start_name: String = "start".to_owned();
    let doors_name: String = "doors".to_owned();
    let enemies_name: String = "enemies".to_owned();
    let n = groups.len();
    for i in 0..n
        invariant
            forall|k: int|
                0 <= k < i && recognized_group((#[trigger] groups@[k]).name@)
                    ==> group_objects_ok(groups@[k]),
    {
        let g = &groups[i];
        let recognized = g.name.eq(&slope_name) || g.name.eq(&start_name) || g.name.eq(&doors_name)
            || g.name.eq(&enemies_name);
        if recognized {
            let m = g.objects.len();
            for j in 0..m
                invariant
                    m == groups@[i as int].objects@.len(),
                    forall|k: int|
                        0 <= k < j ==> object_coords_ok(#[trigger] groups@[i as int].objects@[k]),
            {
                if !check_object_coords(&groups[i].objects[j]) {
                    return false;
                }
            }
        }
    }
    true
}

/// Checks that every group named `start` holds at least one object.
#[verifier::loop_isolation(false)]
fn check_start_groups(groups: &Vec<ObjectGroupDescription>) -> (r: bool)
    ensures
        r == start_groups_ok(groups@),
{
    let start_name: String = "start".to_owned();
    let n = groups.len();
    for i in 0..n
        invariant
            forall|k: int|
                0 <= k < i && (#[trigger] groups@[k]).name@ == "start"@ ==> groups@[
                    k
                ].objects@.len() > 0,
    {
        if groups[i].name.eq(&start_name) && groups[i].objects.len() == 0 {
            return false;
        }
    }
    true
}

/// Checks that every object of every group named `doors` carries a
/// destination.
#[verifier::loop_isolation(false)]
fn check_doors_destinations(groups: &Vec<ObjectGroupDescription>) -> (r: bool)
    ensures
        r == doors_have_destinations(groups@),
{
    let doors_name: String = "doors".to_owned();
    let destination_key: String = "destination".to_owned();
    let n = groups.len();
    for i in 0..n
        invariant
            forall|k: int|
                0 <= k < i && (#[trigger] groups@[k]).name@ == "doors"@ ==> group_destinations_ok(
                    groups@[k],
                ),
    {
        let g = &groups[i];
        if g.name.eq(&doors_name) {
            let m = g.objects.len();
            for j in 0..m
                invariant
                    m == groups@[i as int].objects@.len(),
                    forall|k: int|
                        0 <= k < j ==> prop_lookup(
                            (#[trigger] groups@[i as int].objects@[k]).properties@,
                            "destination"@,
                        ) is Some,
            {
                match crate::map::lookup_property(&groups[i].objects[j].properties, &destination_key) {
                    Some(_) => {},
                    None => {
                        return false;
                    },
                }
            }
        }
    }
    true
}

/// Checks that every slope in the list is well formed.
#[verifier::loop_isolation(false)]
fn check_slopes_wf(slopes: &Vec<Slope>) -> (r: bool)
    ensures
        r == slopes_wf(slopes@),
{
    let n = slopes.len();
    for i in 0..n
        invariant
            forall|k: int| 0 <= k < i ==> (#[trigger] slopes@[k]).wf(),
    {
        let s = &slopes[i];
        if s.from.0 < 0 || s.from.0 > POS_LIMIT || s.from.1 < 0 || s.from.1 > POS_LIMIT || s.to.0
            < 0 || s.to.0 > POS_LIMIT || s.to.1 < 0 || s.to.1 > POS_LIMIT || s.from.0 == s.to.0 {
            return false;
        }
    }
    true
}

// ---------------------------------------------------------------------------
// Building the level's components from a validated description.
// ---------------------------------------------------------------------------

/// Truncates a coordinate in thousandths of a pixel to whole pixels.
fn milli_to_px(a: i64) -> (r: i32)
    requires
        -MAX_COORD_MILLI <= a <= MAX_COORD_MILLI,
    ensures
        r as int == div_trunc(a as int, 1000),
        -POS_LIMIT <= r <= POS_LIMIT,
{
    let q = crate::geometry::div_trunc_i64(a, 1000);
    proof {
        if a >= 0 {
            vstd::arithmetic::div_mod::lemma_div_is_ordered(a as int, MAX_COORD_MILLI as int, 1000);
        } else {
            vstd::arithmetic::div_mod::lemma_div_is_ordered(
                -(a as int),
                MAX_COORD_MILLI as int,
                1000,
            );
        }
    }
    q as i32
}

/// Truncates a size in thousandths of a pixel to whole pixels.
fn milli_to_size(a: i64) -> (r: u32)
    requires
        0 <= a <= MAX_SIZE_MILLI,
    ensures
        r as int == div_trunc(a as int, 1000),
        r <= crate::geometry::SIZE_LIMIT,
{
    let q = crate::geometry::div_trunc_i64(a, 1000);
    proof {
        vstd::arithmetic::div_mod::lemma_div_is_ordered(a as int, MAX_SIZE_MILLI as int, 1000);
    }
    q as u32
}

/// Rounds a coordinate in thousandths of a pixel up to whole pixels.
fn milli_to_px_ceil(a: i64) -> (r: i32)
    requires
        -2 * MAX_COORD_MILLI <= a <= 2 * MAX_COORD_MILLI,
    ensures
        r == div_ceil(a as int, 1000) as i32,
        r as int == div_ceil(a as int, 1000),
{
    let q = crate::geometry::div_ceil_i64(a, 1000);
    proof {
        if a >= 0 {
            vstd::arithmetic::div_mod::lemma_div_is_ordered(
                a as int,
                2 * MAX_COORD_MILLI as int,
                1000,
            );
        } else {
            vstd::arithmetic::div_mod::lemma_div_is_ordered(
                -(a as int),
                2 * MAX_COORD_MILLI as int,
                1000,
            );
            vstd::arithmetic::div_mod::lemma_div_nonincreasing(-(a as int), 1000);
        }
    }
    q as i32
}

/// Collects the solid blocks of every layer named `collision`.
#[verifier::loop_isolation(false)]
fn build_blocks(layers: &Vec<LayerDescription>, w: u32, h: u32, tw: u32, th: u32) -> (r: Vec<Rect>)
    requires
        1 <= w <= MAX_MAP_TILES,
        1 <= h <= MAX_MAP_TILES,
        1 <= tw <= MAX_TILE_SIZE,
        1 <= th <= MAX_TILE_SIZE,
        layers_ok(layers@, w as int, h as int),
    ensures
        r@ == layers_blocks(layers@, tw as int, th as int),
        forall|i: int| 0 <= i < r@.len() ==> (#[trigger] r@[i]).wf(),
{
    let collision_name: String = "collision".to_owned();
    let mut blocks: Vec<Rect> = Vec::new();
    let n = layers.len();
    proof {
        assert(layers@.take(0) =~= Seq::<LayerDescription>::empty());
    }
    for li in 0..n
        invariant
            blocks@ == layers_blocks(layers@.take(li as int), tw as int, th as int),
            forall|i: int| 0 <= i < blocks@.len() ==> (#[trigger] blocks@[i]).wf(),
    {
        if layers[li].name.eq(&collision_name) {
            let grid_len = layers[li].tiles.len();
            proof {
                assert(layers@[li as int].tiles@.take(0) =~= Seq::<Vec<u32>>::empty());
            }
            for y in 0..grid_len
                invariant
                    grid_len == layers@[li as int].tiles@.len(),
                    layers@[li as int].name@ == "collision"@,
                    blocks@ == layers_blocks(layers@.take(li as int), tw as int, th as int)
                        + grid_blocks(
                        layers@[li as int].tiles@.take(y as int),
                        tw as int,
                        th as int,
                    ),
                    forall|i: int| 0 <= i < blocks@.len() ==> (#[trigger] blocks@[i]).wf(),
            {
                let row_len = layers[li].tiles[y].len();
                proof {
                    assert(layers@[li as int].tiles@[y as int]@.take(0) =~= Seq::<u32>::empty());
                }
                for x in 0..row_len
                    invariant
                        grid_len == layers@[li as int].tiles@.len(),
                        y < grid_len,
                        row_len == layers@[li as int].tiles@[y as int]@.len(),
                        layers@[li as int].name@ == "collision"@,
                        blocks@ == layers_blocks(layers@.take(li as int), tw as int, th as int)
                            + grid_blocks(
                            layers@[li as int].tiles@.take(y as int),
                            tw as int,
                            th as int,
                        ) + row_blocks(
                            layers@[li as int].tiles@[y as int]@.take(x as int),
                            y as int,
                            tw as int,
                            th as int,
                        ),
                        forall|i: int| 0 <= i < blocks@.len() ==> (#[trigger] blocks@[i]).wf(),
                {
                    let ghost row = layers@[li as int].tiles@[y as int]@;
                    let gid = layers[li].tiles[y][x];
                    if gid != 0 {
                        proof {
                            assert(x * tw <= 40_960_000 && x * tw >= 0) by (nonlinear_arith)
                                requires
                                    0 <= x < 10_000,
                                    1 <= tw <= 4096,
                            ;
                            assert(y * th <= 40_960_000 && y * th >= 0) by (nonlinear_arith)
                                requires
                                    0 <= y < 10_000,
                                    1 <= th <= 4096,
                            ;
                        }
                        let px: u64 = x as u64 * tw as u64;
                        let py: u64 = y as u64 * th as u64;
                        blocks.push(Rect { x: px as i32, y: py as i32, width: tw, height: th });
                    }
                    proof {
                        assert(row.take(x + 1).drop_last() =~= row.take(x as int));
                        assert(row.take(x + 1).last() == row[x as int]);
                    }
                }
                proof {
                    let grid = layers@[li as int].tiles@;
                    assert(grid[y as int]@.take(row_len as int) =~= grid[y as int]@);
                    assert(grid.take(y + 1).drop_last() =~= grid.take(y as int));
                    assert(grid.take(y + 1).last() == grid[y as int]);
                }
            }
            proof {
                let grid = layers@[li as int].tiles@;
                assert(grid.take(grid_len as int) =~= grid);
                assert(layers@.take(li + 1).drop_last() =~= layers@.take(li as int));
                assert(layers@.take(li + 1).last() == layers@[li as int]);
            }
        } else {
            proof {
                assert(layers@.take(li + 1).drop_last() =~= layers@.take(li as int));
                assert(layers@.take(li + 1).last() == layers@[li as int]);
            }
        }
    }
    proof {
        assert(layers@.take(n as int) =~= layers@);
    }
    blocks
}

/// Collects the slopes of every group named `slope`: one slope per
/// consecutive polyline point pair, endpoints rounded up to whole pixels.
#[verifier::loop_isolation(false)]
#[verifier::rlimit(60)]
fn build_slopes(groups: &Vec<ObjectGroupDescription>) -> (r: Vec<Slope>)
    requires
        groups_coords_ok(groups@),
    ensures
        r@ == groups_slopes(groups@),
{
    let slope_name: String = "slope".to_owned();
    let mut slopes: Vec<Slope> = Vec::new();
    let n = groups.len();
    proof {
        assert(groups@.take(0) =~= Seq::<ObjectGroupDescription>::empty());
    }
    for gi in 0..n
        invariant
            slopes@ == groups_slopes(groups@.take(gi as int)),
    {
        if groups[gi].name.eq(&slope_name) {
            proof {
                assert(recognized_group(groups@[gi as int].name@));
                assert(groups@[gi as int].objects@.take(0) =~= Seq::<ObjectDescription>::empty());
            }
            let m = groups[gi].objects.len();
            for oj in 0..m
                invariant
                    m == groups@[gi as int].objects@.len(),
                    groups@[gi as int].name@ == "slope"@,
                    slopes@ == groups_slopes(groups@.take(gi as int)) + objects_slopes(
                        groups@[gi as int].objects@.take(oj as int),
                    ),
            {
                let obj = &groups[gi].objects[oj];
                proof {
                    assert(object_coords_ok(groups@[gi as int].objects@[oj as int]));
                }
                match &obj.polyline {
                    Some(pts) => {
                        let pl = pts.len();
                        if pl >= 1 {
                            let mut from = Vector2(
                                milli_to_px_ceil(obj.x + pts[0].0),
                                milli_to_px_ceil(obj.y + pts[0].1),
                            );
                            proof {
                                assert(pts@.take(1).len() < 2);
                                assert(polyline_slopes(obj.x as int, obj.y as int, pts@.take(1))
                                    =~= Seq::<Slope>::empty());
                                assert(from == slope_point(obj.x as int, obj.y as int, pts@[0]));
                            }
                            for k in 1..pl
                                invariant
                                    pl == pts@.len(),
                                    pts@ == groups@[gi as int].objects@[oj as int].polyline.unwrap()@,
                                    object_coords_ok(groups@[gi as int].objects@[oj as int]),
                                    obj == &groups@[gi as int].objects@[oj as int],
                                    slopes@ == groups_slopes(groups@.take(gi as int))
                                        + objects_slopes(
                                        groups@[gi as int].objects@.take(oj as int),
                                    ) + polyline_slopes(
                                        obj.x as int,
                                        obj.y as int,
                                        pts@.take(k as int),
                                    ),
                                    from == slope_point(obj.x as int, obj.y as int, pts@[k - 1]),
                            {
                                let to = Vector2(
                                    milli_to_px_ceil(obj.x + pts[k].0),
                                    milli_to_px_ceil(obj.y + pts[k].1),
                                );
                                slopes.push(Slope { from, to });
                                from = to;
                                proof {
                                    assert(pts@.take(k + 1).drop_last() =~= pts@.take(k as int));
                                    assert(pts@.take(k + 1)[k - 1] == pts@[k - 1]);
                                    assert(pts@.take(k + 1).last() == pts@[k as int]);
                                }
                            }
                            proof {
                                assert(pts@.take(pl as int) =~= pts@);
                            }
                        } else {
                            proof {
                                assert(pts@.take(0) =~= pts@);
                                assert(polyline_slopes(obj.x as int, obj.y as int, pts@) =~= Seq::<
                                    Slope,
                                >::empty());
                            }
                        }
                    },
                    None => {},
                }
                proof {
                    let objs = groups@[gi as int].objects@;
                    assert(objs.take(oj + 1).drop_last() =~= objs.take(oj as int));
                    assert(objs.take(oj + 1).last() == objs[oj as int]);
                }
            }
            proof {
                let objs = groups@[gi as int].objects@;
                assert(objs.take(m as int) =~= objs);
                assert(groups@.take(gi + 1).drop_last() =~= groups@.take(gi as int));
                assert(groups@.take(gi + 1).last() == groups@[gi as int]);
            }
        } else {
            proof {
                assert(groups@.take(gi + 1).drop_last() =~= groups@.take(gi as int));
                assert(groups@.take(gi + 1).last() == groups@[gi as int]);
            }
        }
    }
    proof {
        assert(groups@.take(n as int) =~= groups@);
    }
    slopes
}

/// Collects the doors of every group named `doors`.
#[verifier::loop_isolation(false)]
#[verifier::rlimit(60)]
fn build_doors(groups: &Vec<ObjectGroupDescription>) -> (r: Vec<Door>)
    requires
        groups_coords_ok(groups@),
        doors_have_destinations(groups@),
    ensures
        r@ == groups_doors(groups@),
        forall|i: int| 0 <= i < r@.len() ==> (#[trigger] r@[i]).position.wf(),
{
    let doors_name: String = "doors".to_owned();
    let destination_key: String = "destination".to_owned();
    let mut doors: Vec<Door> = Vec::new();
    let n = groups.len();
    proof {
        assert(groups@.take(0) =~= Seq::<ObjectGroupDescription>::empty());
    }
    for gi in 0..n
        invariant
            doors@ == groups_doors(groups@.take(gi as int)),
            forall|i: int| 0 <= i < doors@.len() ==> (#[trigger] doors@[i]).position.wf(),
    {
        if groups[gi].name.eq(&doors_name) {
            proof {
                assert(recognized_group(groups@[gi as int].name@));
                assert(groups@[gi as int].objects@.take(0) =~= Seq::<ObjectDescription>::empty());
            }
            let m = groups[gi].objects.len();
            for oj in 0..m
                invariant
                    m == groups@[gi as int].objects@.len(),
                    groups@[gi as int].name@ == "doors"@,
                    doors@ == groups_doors(groups@.take(gi as int)) + objects_doors(
                        groups@[gi as int].objects@.take(oj as int),
                    ),
                    forall|i: int| 0 <= i < doors@.len() ==> (#[trigger] doors@[i]).position.wf(),
            {
                let obj = &groups[gi].objects[oj];
                proof {
                    assert(object_coords_ok(groups@[gi as int].objects@[oj as int]));
                    assert(group_destinations_ok(groups@[gi as int]));
                }
                match crate::map::lookup_property(&obj.properties, &destination_key) {
                    Some(destination) => {
                        let position = Rect {
                            x: milli_to_px(obj.x),
                            y: milli_to_px(obj.y),
                            width: milli_to_size(obj.width),
                            height: milli_to_size(obj.height),
                        };
                        doors.push(Door { destination: destination.clone(), position });
                    },
                    None => {
                        proof {
                            assert(false);
                        }
                    },
                }
                proof {
                    let objs = groups@[gi as int].objects@;
                    assert(objs.take(oj + 1).drop_last() =~= objs.take(oj as int));
                    assert(objs.take(oj + 1).last() == objs[oj as int]);
                }
            }
            proof {
                let objs = groups@[gi as int].objects@;
                assert(objs.take(m as int) =~= objs);
                assert(groups@.take(gi + 1).drop_last() =~= groups@.take(gi as int));
                assert(groups@.take(gi + 1).last() == groups@[gi as int]);
            }
        } else {
            proof {
                assert(groups@.take(gi + 1).drop_last() =~= groups@.take(gi as int));
                assert(groups@.take(gi + 1).last() == groups@[gi as int]);
            }
        }
    }
    proof {
        assert(groups@.take(n as int) =~= groups@);
    }
    doors
}

/// Finds the player start position: the first object of the last group named
/// `start`, or the origin.
#[verifier::loop_isolation(false)]
fn find_start(groups: &Vec<ObjectGroupDescription>) -> (r: Vector2)
    requires
        groups_coords_ok(groups@),
    ensures
        r == groups_start(groups@),
        -POS_LIMIT <= r.0 <= POS_LIMIT,
        -POS_LIMIT <= r.1 <= POS_LIMIT,
{
    let start_name: String = "start".to_owned();
    let mut start = Vector2(0, 0);
    let n = groups.len();
    proof {
        assert(groups@.take(0) =~= Seq::<ObjectGroupDescription>::empty());
    }
    for gi in 0..n
        invariant
            start == groups_start(groups@.take(gi as int)),
            -POS_LIMIT <= start.0 <= POS_LIMIT,
            -POS_LIMIT <= start.1 <= POS_LIMIT,
    {
        if groups[gi].name.eq(&start_name) && groups[gi].objects.len() > 0 {
            proof {
                assert(recognized_group(groups@[gi as int].name@));
                assert(object_coords_ok(groups@[gi as int].objects@[0]));
            }
            let obj = &groups[gi].objects[0];
            start = Vector2(milli_to_px(obj.x), milli_to_px(obj.y));
        }
        proof {
            assert(groups@.take(gi + 1).drop_last() =~= groups@.take(gi as int));
            assert(groups@.take(gi + 1).last() == groups@[gi as int]);
        }
    }
    proof {
        assert(groups@.take(n as int) =~= groups@);
    }
    start
}

/// Spawns the enemies of every group named `enemies`: one bat per object
/// named `bat`, with its flight clips registered and the left one selected.
#[verifier::loop_isolation(false)]
#[verifier::rlimit(60)]
fn build_enemies(groups: &Vec<ObjectGroupDescription>) -> (r: Vec<Enemy>)
    requires
        groups_coords_ok(groups@),
    ensures
        r@.len() == groups_bats(groups@).len(),
        forall|i: int|
            0 <= i < r@.len() ==> bat_from_object(groups_bats(groups@)[i], #[trigger] r@[i])
                && r@[i].wf(),
{
    let enemies_name: String = "enemies".to_owned();
    let bat_name: String = "bat".to_owned();
    let mut enemies: Vec<Enemy> = Vec::new();
    let n = groups.len();
    proof {
        assert(groups@.take(0) =~= Seq::<ObjectGroupDescription>::empty());
    }
    for gi in 0..n
        invariant
            enemies@.len() == groups_bats(groups@.take(gi as int)).len(),
            forall|i: int|
                0 <= i < enemies@.len() ==> bat_from_object(
                    groups_bats(groups@.take(gi as int))[i],
                    #[trigger] enemies@[i],
                ) && enemies@[i].wf(),
    {
        if groups[gi].name.eq(&enemies_name) {
            proof {
                assert(recognized_group(groups@[gi as int].name@));
                assert(groups@[gi as int].objects@.take(0) =~= Seq::<ObjectDescription>::empty());
            }
            let m = groups[gi].objects.len();
            for oj in 0..m
                invariant
                    m == groups@[gi as int].objects@.len(),
                    groups@[gi as int].name@ == "enemies"@,
                    ({
                        let bats = groups_bats(groups@.take(gi as int)) + objects_bats(
                            groups@[gi as int].objects@.take(oj as int),
                        );
                        enemies@.len() == bats.len() && forall|i: int|
                            0 <= i < enemies@.len() ==> bat_from_object(
                                bats[i],
                                #[trigger] enemies@[i],
                            ) && enemies@[i].wf()
                    }),
            {
                let obj = &groups[gi].objects[oj];
                if obj.name.eq(&bat_name) {
                    proof {
                        assert(object_coords_ok(groups@[gi as int].objects@[oj as int]));
                    }
                    let mut bat = crate::enemy::Bat::new(milli_to_px(obj.x), milli_to_px(obj.y));
                    bat.add_animation(
                        "fly_left".to_owned(),
                        Rect::new(32, 32, 16, 16),
                        150,
                        false,
                        3,
                        1,
                    );
                    bat.add_animation(
                        "fly_right".to_owned(),
                        Rect::new(32, 48, 16, 16),
                        150,
                        false,
                        3,
                        1,
                    );
                    bat.set_animation("fly_left".to_owned());
                    proof {
                        reveal_strlit("fly_left");
                        reveal_strlit("fly_right");
                        assert("fly_left"@.len() == 8);
                        assert("fly_right"@.len() == 9);
                    }
                    enemies.push(Enemy::Bat(bat));
                }
                proof {
                    let objs = groups@[gi as int].objects@;
                    assert(objs.take(oj + 1).drop_last() =~= objs.take(oj as int));
                    assert(objs.take(oj + 1).last() == objs[oj as int]);
                }
            }
            proof {
                let objs = groups@[gi as int].objects@;
                assert(objs.take(m as int) =~= objs);
                assert(groups@.take(gi + 1).drop_last() =~= groups@.take(gi as int));
                assert(groups@.take(gi + 1).last() == groups@[gi as int]);
            }
        } else {
            proof {
                assert(groups@.take(gi + 1).drop_last() =~= groups@.take(gi as int));
                assert(groups@.take(gi + 1).last() == groups@[gi as int]);
            }
        }
    }
    proof {
        assert(groups@.take(n as int) =~= groups@);
    }
    enemies
}

/// Cuts each tileset's image into its atlas.
#[verifier::loop_isolation(false)]
fn build_atlases(tilesets: &Vec<TilesetDescription>) -> (r: Vec<TileAtlas>)
    requires
        tilesets_ok(tilesets@),
        tilesets_have_images(tilesets@),
    ensures
        r@.len() == tilesets@.len(),
        forall|i: int|
            0 <= i < r@.len() ==> #[trigger] r@[i] == atlas_of(tilesets@[i]) && r@[i].wf(),
{
    let mut atlases: Vec<TileAtlas> = Vec::new();
    let n = tilesets.len();
    for i in 0..n
        invariant
            atlases@.len() == i,
            forall|k: int|
                0 <= k < i ==> #[trigger] atlases@[k] == atlas_of(tilesets@[k]) && atlases@[
                    k
                ].wf(),
    {
        let t = &tilesets[i];
        proof {
            assert(tileset_ok(tilesets@[i as int]));
            assert(tilesets@[i as int].images@.len() > 0);
        }
        let img = &t.images[0];
        let columns: u32 = img.width / t.tile_width;
        let rows: u32 = img.height / t.tile_height;
        proof {
            vstd::arithmetic::div_mod::lemma_fundamental_div_mod(
                img.width as int,
                t.tile_width as int,
            );
            vstd::arithmetic::div_mod::lemma_fundamental_div_mod(
                img.height as int,
                t.tile_height as int,
            );
            vstd::arithmetic::div_mod::lemma_div_nonincreasing(
                img.width as int,
                t.tile_width as int,
            );
            vstd::arithmetic::div_mod::lemma_div_nonincreasing(
                img.height as int,
                t.tile_height as int,
            );
            vstd::arithmetic::div_mod::lemma_div_is_ordered(
                t.tile_width as int,
                img.width as int,
                t.tile_width as int,
            );
            vstd::arithmetic::div_mod::lemma_div_by_self(t.tile_width as int);
            vstd::arithmetic::div_mod::lemma_div_is_ordered(
                t.tile_height as int,
                img.height as int,
                t.tile_height as int,
            );
            vstd::arithmetic::div_mod::lemma_div_by_self(t.tile_height as int);
            assert(columns * t.tile_width <= img.width) by (nonlinear_arith)
                requires
                    img.width as int == t.tile_width as int * (columns as int) + (
                    img.width as int % t.tile_width as int),
                    img.width as int % t.tile_width as int >= 0,
            ;
            assert(rows * t.tile_height <= img.height) by (nonlinear_arith)
                requires
                    img.height as int == t.tile_height as int * (rows as int) + (
                    img.height as int % t.tile_height as int),
                    img.height as int % t.tile_height as int >= 0,
            ;
        }
        let atlas = TileAtlas {
            first_gid: t.first_gid,
            tile_width: t.tile_width,
            tile_height: t.tile_height,
            columns,
            rows,
            image: img.source.clone(),
        };
        atlases.push(atlas);
    }
    atlases
}

/// Builds the animated-tile table: for each tileset tile with a frame
/// animation, one cycle keyed by the tile's global id, with frame ids offset
/// by the tileset's first global id.
#[verifier::loop_isolation(false)]
#[verifier::rlimit(60)]
fn build_animations(tilesets: &Vec<TilesetDescription>) -> (r: Vec<(u32, AnimatedTile)>)
    requires
        tilesets_ok(tilesets@),
    ensures
        r@.len() == tilesets_anim_entries(tilesets@).len(),
        forall|i: int|
            0 <= i < r@.len() ==> {
                let entry = tilesets_anim_entries(tilesets@)[i];
                &&& (#[trigger] r@[i]).0 == entry.0
                &&& r@[i].1.animation@ == entry.1
                &&& r@[i].1.index == 0
                &&& r@[i].1.duration == 0
                &&& r@[i].1.wf()
            },
{
    let mut table: Vec<(u32, AnimatedTile)> = Vec::new();
    let n = tilesets.len();
    proof {
        assert(tilesets@.take(0) =~= Seq::<TilesetDescription>::empty());
    }
    for ti in 0..n
        invariant
            ({
                let entries = tilesets_anim_entries(tilesets@.take(ti as int));
                table@.len() == entries.len() && forall|i: int|
                    0 <= i < table@.len() ==> {
                        let entry = entries[i];
                        &&& (#[trigger] table@[i]).0 == entry.0
                        &&& table@[i].1.animation@ == entry.1
                        &&& table@[i].1.index == 0
                        &&& table@[i].1.duration == 0
                        &&& table@[i].1.wf()
                    }
            }),
    {
        let t = &tilesets[ti];
        proof {
            assert(tileset_ok(tilesets@[ti as int]));
            assert(tilesets@[ti as int].tiles@.take(0) =~= Seq::<
                crate::map::TileDescription,
            >::empty());
        }
        let m = t.tiles.len();
        for tj in 0..m
            invariant
                m == tilesets@[ti as int].tiles@.len(),
                tileset_ok(tilesets@[ti as int]),
                ({
                    let entries = tilesets_anim_entries(tilesets@.take(ti as int))
                        + tiles_anim_entries(
                        tilesets@[ti as int].tiles@.take(tj as int),
                        tilesets@[ti as int].first_gid as int,
                    );
                    table@.len() == entries.len() && forall|i: int|
                        0 <= i < table@.len() ==> {
                            let entry = entries[i];
                            &&& (#[trigger] table@[i]).0 == entry.0
                            &&& table@[i].1.animation@ == entry.1
                            &&& table@[i].1.index == 0
                            &&& table@[i].1.duration == 0
                            &&& table@[i].1.wf()
                        }
                }),
        {
            let tile = &tilesets[ti].tiles[tj];
            match &tile.animation {
                Some(v) => {
                    let fl = v.len();
                    let mut frames: Vec<Frame> = Vec::new();
                    let fg = tilesets[ti].first_gid;
                    for q in 0..fl
                        invariant
                            fl == v@.len(),
                            v@ == tilesets@[ti as int].tiles@[tj as int].animation.unwrap()@,
                            tj < m == tilesets@[ti as int].tiles@.len(),
                            tileset_ok(tilesets@[ti as int]),
                            fg == tilesets@[ti as int].first_gid,
                            frames@.len() == q,
                            forall|p: int|
                                0 <= p < q ==> #[trigger] frames@[p] == (Frame {
                                    tile_id: (v@[p].tile_id + fg) as u32,
                                    duration: v@[p].duration,
                                }),
                    {
                        proof {
                            assert(tilesets@[ti as int].tiles@[tj as int].id <= MAX_LOCAL_ID
                                && match tilesets@[ti as int].tiles@[tj as int].animation {
                                Option::Some(vv) => vv@.len() >= 1 && forall|j: int|
                                    0 <= j < vv@.len() ==> (#[trigger] vv@[j]).tile_id
                                        <= MAX_LOCAL_ID && vv@[j].duration <= MAX_TICK,
                                Option::None => true,
                            });
                        }
                        frames.push(Frame { tile_id: v[q].tile_id + fg, duration: v[q].duration });
                    }
                    let key = fg + tile.id;
                    let cycle = AnimatedTile::new(frames, 0, 0);
                    proof {
                        let entry_frames = v@.map_values(
                            |f: Frame| Frame {
                                tile_id: (f.tile_id + tilesets@[ti as int].first_gid as int) as u32,
                                duration: f.duration,
                            },
                        );
                        assert(cycle.animation@ =~= entry_frames);
                    }
                    table.push((key, cycle));
                },
                None => {},
            }
            proof {
                let tiles = tilesets@[ti as int].tiles@;
                assert(tiles.take(tj + 1).drop_last() =~= tiles.take(tj as int));
                assert(tiles.take(tj + 1).last() == tiles[tj as int]);
            }
        }
        proof {
            let tiles = tilesets@[ti as int].tiles@;
            assert(tiles.take(m as int) =~= tiles);
            assert(tilesets@.take(ti + 1).drop_last() =~= tilesets@.take(ti as int));
            assert(tilesets@.take(ti + 1).last() == tilesets@[ti as int]);
        }
    }
    proof {
        assert(tilesets@.take(n as int) =~= tilesets@);
    }
    table
}

// ---------------------------------------------------------------------------
// The level itself.
// ---------------------------------------------------------------------------

/// The rectangles of the list that overlap the given one, in order.
pub open spec fn filter_blocks(blocks: Seq<Rect>, other: Rect) -> Seq<Rect>
    decreases blocks.len(),
{
    if blocks.len() == 0 {
        Seq::empty()
    } else {
        filter_blocks(blocks.drop_last(), other) + if crate::collision::overlaps(
            blocks.last(),
            other,
        ) {
            seq![blocks.last()]
        } else {
            Seq::<Rect>::empty()
        }
    }
}

/// The slopes of the list that the given rectangle straddles, in order.
pub open spec fn filter_slopes(slopes: Seq<Slope>, other: Rect) -> Seq<Slope>
    decreases slopes.len(),
{
    if slopes.len() == 0 {
        Seq::empty()
    } else {
        filter_slopes(slopes.drop_last(), other) + if slope_overlaps(slopes.last(), other) {
            seq![slopes.last()]
        } else {
            Seq::<Slope>::empty()
        }
    }
}

/// The doors of the list whose trigger overlaps the given rectangle, in
/// order.
pub open spec fn filter_doors(doors: Seq<Door>, other: Rect) -> Seq<Door>
    decreases doors.len(),
{
    if doors.len() == 0 {
        Seq::empty()
    } else {
        filter_doors(doors.drop_last(), other) + if crate::collision::overlaps(
            doors.last().position,
            other,
        ) {
            seq![doors.last()]
        } else {
            Seq::<Door>::empty()
        }
    }
}

/// What it means for a level to be the decoding of a map description.
pub open spec fn level_decodes(level: Level, desc: MapDescription) -> bool {
    &&& level.x == 0
    &&& level.y == 0
    &&& level.width == desc.width
    &&& level.height == desc.height
    &&& level.tile_width == desc.tile_width
    &&& level.tile_height == desc.tile_height
    &&& level.layers@ == desc.layers@
    &&& level.blocks@ == layers_blocks(
        desc.layers@,
        desc.tile_width as int,
        desc.tile_height as int,
    )
    &&& level.slopes@ == groups_slopes(desc.object_groups@)
    &&& level.doors@ == groups_doors(desc.object_groups@)
    &&& level.start_pos == groups_start(desc.object_groups@)
    &&& level.tile_atlases@.len() == desc.tilesets@.len()
    &&& forall|i: int|
        0 <= i < level.tile_atlases@.len() ==> #[trigger] level.tile_atlases@[i] == atlas_of(
            desc.tilesets@[i],
        )
    &&& level.animations@.len() == tilesets_anim_entries(desc.tilesets@).len()
    &&& forall|i: int|
        0 <= i < level.animations@.len() ==> {
            let entry = tilesets_anim_entries(desc.tilesets@)[i];
            &&& (#[trigger] level.animations@[i]).0 == entry.0
            &&& level.animations@[i].1.animation@ == entry.1
            &&& level.animations@[i].1.index == 0
            &&& level.animations@[i].1.duration == 0
        }
    &&& level.enemies@.len() == groups_bats(desc.object_groups@).len()
    &&& forall|i: int|
        0 <= i < level.enemies@.len() ==> bat_from_object(
            groups_bats(desc.object_groups@)[i],
            #[trigger] level.enemies@[i],
        )
}

/// A loaded map: grid dimensions, tile atlases, the raw grid layers for
/// drawing, and the derived collision primitives — solid blocks, slopes,
/// door triggers — together with the animated-tile table, the player start
/// position, and the spawned enemies. Replaced wholesale on map transition.
pub struct Level {
    pub x: i32,
    pub y: i32,
    pub width: u32,
    pub height: u32,
    pub tile_width: u32,
    pub tile_height: u32,
    pub tile_atlases: Vec<TileAtlas>,
    pub layers: Vec<LayerDescription>,
    pub blocks: Vec<Rect>,
    pub slopes: Vec<Slope>,
    pub doors: Vec<Door>,
    pub animations: Vec<(u32, AnimatedTile)>,
    pub start_pos: Vector2,
    pub enemies: Vec<Enemy>,
}

impl Level {
    /// A level is well formed when its dimensions are bounded and every
    /// component it holds is well formed.
    pub open spec fn wf(self) -> bool {
        &&& -POS_LIMIT <= self.x <= POS_LIMIT
        &&& -POS_LIMIT <= self.y <= POS_LIMIT
        &&& 1 <= self.width <= MAX_MAP_TILES
        &&& 1 <= self.height <= MAX_MAP_TILES
        &&& 1 <= self.tile_width <= MAX_TILE_SIZE
        &&& 1 <= self.tile_height <= MAX_TILE_SIZE
        &&& layers_ok(self.layers@, self.width as int, self.height as int)
        &&& forall|i: int| 0 <= i < self.tile_atlases@.len() ==> (#[trigger] self.tile_atlases@[i]).wf()
        &&& forall|i: int| 0 <= i < self.blocks@.len() ==> (#[trigger] self.blocks@[i]).wf()
        &&& forall|i: int| 0 <= i < self.slopes@.len() ==> (#[trigger] self.slopes@[i]).wf()
        &&& forall|i: int| 0 <= i < self.doors@.len() ==> (#[trigger] self.doors@[i]).position.wf()
        &&& forall|i: int| 0 <= i < self.animations@.len() ==> (#[trigger] self.animations@[i]).1.wf()
        &&& forall|i: int| 0 <= i < self.enemies@.len() ==> (#[trigger] self.enemies@[i]).wf()
        &&& -POS_LIMIT <= self.start_pos.0 <= POS_LIMIT
        &&& -POS_LIMIT <= self.start_pos.1 <= POS_LIMIT
    }

    /// Decodes a map description into a level. Fails, returning no partial
    /// map, when the description is malformed, when a tileset names no
    /// image, or when a door object carries no destination — in that order
    /// of precedence. Unrecognized object groups and layer names are
    /// tolerated and ignored, but every grid layer must have exactly the
    /// map's dimensions, since the renderer walks every non-collision grid.
    pub fn load(desc: MapDescription) -> (r: Result<Level, MapLoadError>)
        ensures
            r == Result::<Level, MapLoadError>::Err(MapLoadError::Malformed) <==> desc_malformed(
                desc,
            ),
            r == Result::<Level, MapLoadError>::Err(MapLoadError::MissingTilesetImage) <==> (
            !desc_malformed(desc) && !tilesets_have_images(desc.tilesets@)),
            r == Result::<Level, MapLoadError>::Err(MapLoadError::MissingDestination) <==> (
            !desc_malformed(desc) && tilesets_have_images(desc.tilesets@)
                && !doors_have_destinations(desc.object_groups@)),
            r is Ok <==> desc_loadable(desc),
            r is Ok ==> r.unwrap().wf() && level_decodes(r.unwrap(), desc),
    {
        if desc.width < 1 || desc.width > MAX_MAP_TILES || desc.height < 1 || desc.height
            > MAX_MAP_TILES || desc.tile_width < 1 || desc.tile_width > MAX_TILE_SIZE
            || desc.tile_height < 1 || desc.tile_height > MAX_TILE_SIZE {
            return Err(MapLoadError::Malformed);
        }
        if !check_layers(&desc.layers, desc.width, desc.height) {
            return Err(MapLoadError::Malformed);
        }
        if !check_tilesets(&desc.tilesets) {
            return Err(MapLoadError::Malformed);
        }
        if !check_group_coords(&desc.object_groups) {
            return Err(MapLoadError::Malformed);
        }
        if !check_start_groups(&desc.object_groups) {
            return Err(MapLoadError::Malformed);
        }
        let slopes = build_slopes(&desc.object_groups);
        if !check_slopes_wf(&slopes) {
            return Err(MapLoadError::Malformed);
        }
        if !check_tilesets_images(&desc.tilesets) {
            return Err(MapLoadError::MissingTilesetImage);
        }
        if !check_doors_destinations(&desc.object_groups) {
            return Err(MapLoadError::MissingDestination);
        }
        let tile_atlases = build_atlases(&desc.tilesets);
        let animations = build_animations(&desc.tilesets);
        let blocks = build_blocks(
            &desc.layers,
            desc.width,
            desc.height,
            desc.tile_width,
            desc.tile_height,
        );
        let doors = build_doors(&desc.object_groups);
        let start_pos = find_start(&desc.object_groups);
        let enemies = build_enemies(&desc.object_groups);
        Ok(
            Level {
                x: 0,
                y: 0,
                width: desc.width,
                height: desc.height,
                tile_width: desc.tile_width,
                tile_height: desc.tile_height,
                tile_atlases,
                layers: desc.layers,
                blocks,
                slopes,
                doors,
                animations,
                start_pos,
                enemies,
            },
        )
    }

    /// The stored blocks the given hitbox overlaps, in stored order.
    pub fn collided_blocks(&self, other: &Rect) -> (r: Vec<Rect>)
        requires
            self.wf(),
        ensures
            r@ == filter_blocks(self.blocks@, *other),
            forall|i: int| 0 <= i < r@.len() ==> (#[trigger] r@[i]).wf(),
    {
        let mut out: Vec<Rect> = Vec::new();
        let n = self.blocks.len();
        proof {
            assert(self.blocks@.take(0) =~= Seq::<Rect>::empty());
        }
        for i in 0..n
            invariant
                n == self.blocks@.len(),
                self.wf(),
                out@ == filter_blocks(self.blocks@.take(i as int), *other),
                forall|k: int| 0 <= k < out@.len() ==> (#[trigger] out@[k]).wf(),
        {
            if crate::collision::collides_with(&self.blocks[i], other) {
                out.push(self.blocks[i]);
            }
            proof {
                assert(self.blocks@.take(i + 1).drop_last() =~= self.blocks@.take(i as int));
                assert(self.blocks@.take(i + 1).last() == self.blocks@[i as int]);
            }
        }
        proof {
            assert(self.blocks@.take(n as int) =~= self.blocks@);
        }
        out
    }

    /// The stored slopes the given hitbox straddles, in stored order.
    pub fn collided_slopes(&self, other: &Rect) -> (r: Vec<Slope>)
        requires
            self.wf(),
        ensures
            r@ == filter_slopes(self.slopes@, *other),
            forall|i: int| 0 <= i < r@.len() ==> (#[trigger] r@[i]).wf(),
    {
        let mut out: Vec<Slope> = Vec::new();
        let n = self.slopes.len();
        proof {
            assert(self.slopes@.take(0) =~= Seq::<Slope>::empty());
        }
        for i in 0..n
            invariant
                n == self.slopes@.len(),
                self.wf(),
                out@ == filter_slopes(self.slopes@.take(i as int), *other),
                forall|k: int| 0 <= k < out@.len() ==> (#[trigger] out@[k]).wf(),
        {
            if self.slopes[i].collides_with(*other) {
                out.push(self.slopes[i]);
            }
            proof {
                assert(self.slopes@.take(i + 1).drop_last() =~= self.slopes@.take(i as int));
                assert(self.slopes@.take(i + 1).last() == self.slopes@[i as int]);
            }
        }
        proof {
            assert(self.slopes@.take(n as int) =~= self.slopes@);
        }
        out
    }

    /// The stored doors whose trigger the given hitbox overlaps, in stored
    /// order.
    pub fn collided_doors(&self, other: &Rect) -> (r: Vec<Door>)
        requires
            self.wf(),
        ensures
            r@ == filter_doors(self.doors@, *other),
    {
        let mut out: Vec<Door> = Vec::new();
        let n = self.doors.len();
        proof {
            assert(self.doors@.take(0) =~= Seq::<Door>::empty());
        }
        for i in 0..n
            invariant
                n == self.doors@.len(),
                self.wf(),
                out@ == filter_doors(self.doors@.take(i as int), *other),
        {
            let door = &self.doors[i];
            if crate::collision::collides_with(&door.position, other) {
                out.push(Door { destination: door.destination.clone(), position: door.position });
            }
            proof {
                assert(self.doors@.take(i + 1).drop_last() =~= self.doors@.take(i as int));
                assert(self.doors@.take(i + 1).last() == self.doors@[i as int]);
            }
        }
        proof {
            assert(self.doors@.take(n as int) =~= self.doors@);
        }
        out
    }

    /// One tick of the level's own state: every animated-tile cycle advances,
    /// then every enemy takes its turn, reacting to the player.
    pub fn update(&mut self, dt: u32, player: &Player)
        requires
            old(self).wf(),
            dt <= MAX_TICK,
        ensures
            final(self).wf(),
            final(self).animations@.len() == old(self).animations@.len(),
            forall|i: int|
                0 <= i < final(self).animations@.len() ==> (#[trigger] final(self).animations@[i]).0
                    == old(self).animations@[i].0 && final(self).animations@[i].1 == tile_tick(
                    old(self).animations@[i].1,
                    dt,
                ),
            final(self).enemies@.len() == old(self).enemies@.len(),
            forall|i: int|
                0 <= i < final(self).enemies@.len() ==> enemy_stepped(
                    old(self).enemies@[i],
                    #[trigger] final(self).enemies@[i],
                    dt,
                    player.x as int,
                ),
            *final(self) == (Level {
                animations: final(self).animations,
                enemies: final(self).enemies,
                ..*old(self)
            }),
    {
        let n = self.animations.len();
        for i in 0..n
            invariant
                n == self.animations@.len(),
                n == old(self).animations@.len(),
                forall|k: int|
                    0 <= k < i ==> (#[trigger] self.animations@[k]).0 == old(
                        self,
                    ).animations@[k].0 && self.animations@[k].1 == tile_tick(
                        old(self).animations@[k].1,
                        dt,
                    ),
                forall|k: int|
                    i <= k < n ==> #[trigger] self.animations@[k] == old(self).animations@[k],
                *self == (Level { animations: self.animations, ..*old(self) }),
                old(self).wf(),
                dt <= MAX_TICK,
        {
            let ghost snap = self.animations@;
            let mut pair = self.animations.remove(i);
            proof {
                assert(pair == old(self).animations@[i as int]);
                assert(old(self).animations@[i as int].1.wf());
            }
            pair.1.update(dt);
            self.animations.insert(i, pair);
            proof {
                assert(self.animations@ =~= snap.update(
                    i as int,
                    (snap[i as int].0, tile_tick(snap[i as int].1, dt)),
                ));
            }
        }
        let m = self.enemies.len();
        for j in 0..m
            invariant
                m == self.enemies@.len(),
                m == old(self).enemies@.len(),
                forall|k: int|
                    0 <= k < j ==> enemy_stepped(
                        old(self).enemies@[k],
                        #[trigger] self.enemies@[k],
                        dt,
                        player.x as int,
                    ) && self.enemies@[k].wf(),
                forall|k: int| j <= k < m ==> #[trigger] self.enemies@[k] == old(self).enemies@[k],
                forall|k: int|
                    0 <= k < self.animations@.len() ==> (#[trigger] self.animations@[k]).0 == old(
                        self,
                    ).animations@[k].0 && self.animations@[k].1 == tile_tick(
                        old(self).animations@[k].1,
                        dt,
                    ),
                self.animations@.len() == old(self).animations@.len(),
                *self == (Level {
                    animations: self.animations,
                    enemies: self.enemies,
                    ..*old(self)
                }),
                old(self).wf(),
                dt <= MAX_TICK,
        {
            let ghost snap = self.enemies@;
            let mut e = self.enemies.remove(j);
            proof {
                assert(e == old(self).enemies@[j as int]);
                assert(old(self).enemies@[j as int].wf());
            }
            e.update(dt, player);
            self.enemies.insert(j, e);
            proof {
                assert(self.enemies@.len() == snap.len());
                assert(forall|k: int|
                    0 <= k < snap.len() && k != j ==> self.enemies@[k] == snap[k]);
                assert(self.enemies@[j as int] == e);
            }
        }
    }

    /// The grid cell, in the atlas at `tile_index`, under the world position
    /// `(left, top)`, clamped into the level's extent.
    pub fn point_to_tile(&self, tile_index: usize, left: i32, top: i32) -> (r: (i32, i32))
        requires
            self.wf(),
            tile_index < self.tile_atlases@.len(),
            -POS_LIMIT <= left <= POS_LIMIT,
            -POS_LIMIT <= top <= POS_LIMIT,
        ensures
            ({
                let tw = self.tile_atlases@[tile_index as int].tile_width as int;
                let th = self.tile_atlases@[tile_index as int].tile_height as int;
                let o_x: int = if self.x >= left { self.x as int } else { left as int };
                let o_y: int = if self.y >= top { self.y as int } else { top as int };
                let limit_x: int = left + self.width * tw - 1;
                let limit_y: int = top + self.height * th - 1;
                let clamp_x: int = if o_x <= limit_x { o_x } else { limit_x };
                let clamp_y: int = if o_y <= limit_y { o_y } else { limit_y };
                r.0 == div_trunc_any(clamp_x - self.x, tw) && r.1 == div_trunc_any(
                    clamp_y - self.y,
                    th,
                )
            }),
    {
        let tw: i64 = self.tile_atlases[tile_index].tile_width as i64;
        let th: i64 = self.tile_atlases[tile_index].tile_height as i64;
        proof {
            assert(self.tile_atlases@[tile_index as int].wf());
            assert(self.width * tw <= 655_360_000_000) by (nonlinear_arith)
                requires
                    1 <= self.width <= 10_000,
                    1 <= tw <= 65_536,
            ;
            assert(self.height * th <= 655_360_000_000) by (nonlinear_arith)
                requires
                    1 <= self.height <= 10_000,
                    1 <= th <= 65_536,
            ;
        }
        let o_x: i64 = if self.x as i64 >= left as i64 {
            self.x as i64
        } else {
            left as i64
        };
        let o_y: i64 = if self.y as i64 >= top as i64 {
            self.y as i64
        } else {
            top as i64
        };
        let limit_x: i64 = left as i64 + self.width as i64 * tw - 1;
        let limit_y: i64 = top as i64 + self.height as i64 * th - 1;
        let clamp_x: i64 = if o_x <= limit_x {
            o_x
        } else {
            limit_x
        };
        let clamp_y: i64 = if o_y <= limit_y {
            o_y
        } else {
            limit_y
        };
        let qx = div_trunc_any_i64(clamp_x - self.x as i64, tw);
        let qy = div_trunc_any_i64(clamp_y - self.y as i64, th);
        (qx as i32, qy as i32)
    }

    /// The world position of the top-left corner of the grid cell
    /// `(tile_x, tile_y)`, clamped into the level's extent.
    pub fn get_tile_xy(&self, tile_x: u32, tile_y: u32) -> (r: (u32, u32))
        requires
            self.wf(),
        ensures
            ({
                let cx: int = if tile_x <= self.width { tile_x as int } else { self.width as int };
                let cy: int = if tile_y <= self.height {
                    tile_y as int
                } else {
                    self.height as int
                };
                r.0 == cx * self.tile_width && r.1 == cy * self.tile_height
            }),
    {
        let cx: u32 = if tile_x <= self.width {
            tile_x
        } else {
            self.width
        };
        let cy: u32 = if tile_y <= self.height {
            tile_y
        } else {
            self.height
        };
        proof {
            assert(cx * self.tile_width <= 40_960_000) by (nonlinear_arith)
                requires
                    0 <= cx <= 10_000,
                    1 <= self.tile_width <= 4096,
            ;
            assert(cy * self.tile_height <= 40_960_000) by (nonlinear_arith)
                requires
                    0 <= cy <= 10_000,
                    1 <= self.tile_height <= 4096,
            ;
        }
        (cx * self.tile_width, cy * self.tile_height)
    }
}

// ---------------------------------------------------------------------------
// Drawing requests.
// ---------------------------------------------------------------------------

/// The index of the first atlas covering the given global tile id.
pub open spec fn find_atlas(atlases: Seq<TileAtlas>, gid: u32) -> Option<int>
    decreases atlases.len(),
{
    if atlases.len() == 0 {
        Option::None
    } else if atlases.first().covers(gid) {
        Option::Some(0int)
    } else {
        match find_atlas(atlases.drop_first(), gid) {
            Option::Some(i) => Option::Some(i + 1),
            Option::None => Option::None,
        }
    }
}

proof fn lemma_find_atlas_some(atlases: Seq<TileAtlas>, gid: u32, i: int)
    requires
        0 <= i < atlases.len(),
        atlases[i].covers(gid),
        forall|k: int| 0 <= k < i ==> !(#[trigger] atlases[k]).covers(gid),
    ensures
        find_atlas(atlases, gid) == Option::Some(i),
    decreases i,
{
    if i == 0 {
    } else {
        assert(!atlases[0].covers(gid));
        lemma_find_atlas_some(atlases.drop_first(), gid, i - 1);
    }
}

proof fn lemma_find_atlas_none(atlases: Seq<TileAtlas>, gid: u32)
    requires
        forall|k: int| 0 <= k < atlases.len() ==> !(#[trigger] atlases[k]).covers(gid),
    ensures
        find_atlas(atlases, gid) is None,
    decreases atlases.len(),
{
    if atlases.len() > 0 {
        lemma_find_atlas_none(atlases.drop_first(), gid);
    }
}

/// The cycle of the first animated-tile entry keyed by the given id.
pub open spec fn find_animation(anims: Seq<(u32, AnimatedTile)>, gid: u32) -> Option<AnimatedTile>
    decreases anims.len(),
{
    if anims.len() == 0 {
        Option::None
    } else if anims.first().0 == gid {
        Option::Some(anims.first().1)
    } else {
        find_animation(anims.drop_first(), gid)
    }
}

proof fn lemma_find_animation_some(anims: Seq<(u32, AnimatedTile)>, gid: u32, i: int)
    requires
        0 <= i < anims.len(),
        anims[i].0 == gid,
        forall|k: int| 0 <= k < i ==> (#[trigger] anims[k]).0 != gid,
    ensures
        find_animation(anims, gid) == Option::Some(anims[i].1),
    decreases i,
{
    if i == 0 {
    } else {
        lemma_find_animation_some(anims.drop_first(), gid, i - 1);
    }
}

proof fn lemma_find_animation_none(anims: Seq<(u32, AnimatedTile)>, gid: u32)
    requires
        forall|k: int| 0 <= k < anims.len() ==> (#[trigger] anims[k]).0 != gid,
    ensures
        find_animation(anims, gid) is None,
    decreases anims.len(),
{
    if anims.len() > 0 {
        lemma_find_animation_none(anims.drop_first(), gid);
    }
}

/// Clamps a tile index into `[0, hi]`.
pub open spec fn clamp_idx(v: int, hi: int) -> int {
    if v < 0 {
        0
    } else if v > hi {
        hi
    } else {
        v
    }
}

/// The grid cell, in the atlas at `tile_index`, under the world position
/// `(left, top)`: the position is clamped into the level's extent and
/// translated to grid units of that atlas's tile size.
pub open spec fn point_to_tile_spec(l: Level, tile_index: int, left: int, top: int) -> (int, int) {
    let tw = l.tile_atlases@[tile_index].tile_width as int;
    let th = l.tile_atlases@[tile_index].tile_height as int;
    let o_x: int = if l.x >= left {
        l.x as int
    } else {
        left
    };
    let o_y: int = if l.y >= top {
        l.y as int
    } else {
        top
    };
    let limit_x: int = left + l.width * tw - 1;
    let limit_y: int = top + l.height * th - 1;
    let clamp_x: int = if o_x <= limit_x {
        o_x
    } else {
        limit_x
    };
    let clamp_y: int = if o_y <= limit_y {
        o_y
    } else {
        limit_y
    };
    (div_trunc_any(clamp_x - l.x, tw), div_trunc_any(clamp_y - l.y, th))
}

/// The drawing request one grid cell contributes: nothing for an empty cell,
/// a cell no atlas covers, or a frame outside its atlas; otherwise the cell's
/// tile — or, on a layer named `animation`, the current frame of the cell's
/// animated-tile cycle — copied from its atlas to the cell's place on
/// screen, scaled by the display factor.
pub open spec fn cell_commands(
    l: Level,
    name: Seq<char>,
    grid: Seq<Vec<u32>>,
    tw: int,
    th: int,
    tile_left: int,
    tile_top: int,
    camera: Rect,
    y: int,
    x: int,
) -> Seq<DrawCommand> {
    let gid = grid[y]@[x];
    if gid == 0 {
        Seq::empty()
    } else {
        match find_atlas(l.tile_atlases@, gid) {
            Option::None => Seq::empty(),
            Option::Some(ai) => {
                let atlas = l.tile_atlases@[ai];
                let draw_gid: u32 = if name == "animation"@ {
                    match find_animation(l.animations@, gid) {
                        Option::Some(t) => t.animation@[t.index as int].tile_id,
                        Option::None => gid,
                    }
                } else {
                    gid
                };
                if atlas.covers(draw_gid) {
                    let start_x = camera.x - tile_left * tw;
                    let start_y = camera.y - tile_top * th;
                    seq![
                        DrawCommand {
                            image: atlas.image,
                            source: atlas.tile_rect(draw_gid),
                            dest: Rect {
                                x: (((x - tile_left) * tw - start_x) * SPRITE_SCALE) as i32,
                                y: (((y - tile_top) * th - start_y) * SPRITE_SCALE) as i32,
                                width: (tw * SPRITE_SCALE) as u32,
                                height: (th * SPRITE_SCALE) as u32,
                            },
                        },
                    ]
                } else {
                    Seq::empty()
                }
            },
        }
    }
}

/// The drawing requests of the cells `[x0, x1)` of one grid row.
pub open spec fn row_commands(
    l: Level,
    name: Seq<char>,
    grid: Seq<Vec<u32>>,
    tw: int,
    th: int,
    tile_left: int,
    tile_top: int,
    camera: Rect,
    y: int,
    x0: int,
    x1: int,
) -> Seq<DrawCommand>
    decreases x1 - x0,
{
    if x1 <= x0 {
        Seq::empty()
    } else {
        row_commands(l, name, grid, tw, th, tile_left, tile_top, camera, y, x0, x1 - 1)
            + cell_commands(l, name, grid, tw, th, tile_left, tile_top, camera, y, x1 - 1)
    }
}

/// The drawing requests of the rows `[y0, y1)` of one layer.
pub open spec fn rows_commands(
    l: Level,
    name: Seq<char>,
    grid: Seq<Vec<u32>>,
    tw: int,
    th: int,
    tile_left: int,
    tile_top: int,
    camera: Rect,
    y0: int,
    y1: int,
    x0: int,
    x1: int,
) -> Seq<DrawCommand>
    decreases y1 - y0,
{
    if y1 <= y0 {
        Seq::empty()
    } else {
        rows_commands(l, name, grid, tw, th, tile_left, tile_top, camera, y0, y1 - 1, x0, x1)
            + row_commands(l, name, grid, tw, th, tile_left, tile_top, camera, y1 - 1, x0, x1)
    }
}

/// The drawing requests of the layer at index `li`: nothing for a collision
/// layer, or when the level has no atlas at all; otherwise the
/// camera-visible cell range of the grid, in the tile units of the atlas at
/// the layer's index — or the last atlas, for layers beyond the tilesets.
pub open spec fn layer_commands_at(l: Level, camera: Rect, li: int) -> Seq<DrawCommand> {
    let layer = l.layers@[li];
    if layer.name@ == "collision"@ || l.tile_atlases@.len() == 0 {
        Seq::empty()
    } else {
        let ti: int = if li < l.tile_atlases@.len() {
            li
        } else {
            l.tile_atlases@.len() - 1
        };
        let tw = l.tile_atlases@[ti].tile_width as int;
        let th = l.tile_atlases@[ti].tile_height as int;
        let top_left = point_to_tile_spec(l, ti, camera.x as int, camera.y as int);
        let bottom_right = point_to_tile_spec(
            l,
            ti,
            camera.x + camera.width,
            camera.y + camera.height,
        );
        let y0 = clamp_idx(top_left.1, l.height as int);
        let y1c = clamp_idx(bottom_right.1, l.height as int);
        let x0 = clamp_idx(top_left.0, l.width as int);
        let x1c = clamp_idx(bottom_right.0, l.width as int);
        let y1 = if y1c < y0 { y0 } else { y1c };
        let x1 = if x1c < x0 { x0 } else { x1c };
        rows_commands(
            l,
            layer.name@,
            layer.tiles@,
            tw,
            th,
            top_left.0,
            top_left.1,
            camera,
            y0,
            y1,
            x0,
            x1,
        )
    }
}

/// The drawing requests of the first `n` layers, in layer order.
pub open spec fn layers_commands(l: Level, camera: Rect, n: int) -> Seq<DrawCommand>
    decreases n,
{
    if n <= 0 {
        Seq::empty()
    } else {
        layers_commands(l, camera, n - 1) + layer_commands_at(l, camera, n - 1)
    }
}

impl Level {
    /// The first stored atlas covering the given global tile id.
    fn find_atlas_index(&self, gid: u32) -> (r: Option<usize>)
        requires
            self.wf(),
        ensures
            match r {
                Some(i) => i < self.tile_atlases@.len() && find_atlas(self.tile_atlases@, gid)
                    == Option::Some(i as int),
                None => find_atlas(self.tile_atlases@, gid) is None,
            },
    {
        let n = self.tile_atlases.len();
        for i in 0..n
            invariant
                n == self.tile_atlases@.len(),
                self.wf(),
                forall|k: int| 0 <= k < i ==> !(#[trigger] self.tile_atlases@[k]).covers(gid),
        {
            let a = &self.tile_atlases[i];
            proof {
                assert(self.tile_atlases@[i as int].wf());
                assert(a.columns as int * a.rows as int <= 1_000_000_000_000) by (nonlinear_arith)
                    requires
                        0 <= a.columns <= 1_000_000,
                        0 <= a.rows <= 1_000_000,
                ;
            }
            let count: u64 = a.columns as u64 * a.rows as u64;
            if gid as u64 >= a.first_gid as u64 && (gid as u64) < a.first_gid as u64 + count {
                proof {
                    lemma_find_atlas_some(self.tile_atlases@, gid, i as int);
                }
                return Some(i);
            }
        }
        proof {
            lemma_find_atlas_none(self.tile_atlases@, gid);
        }
        None
    }

    /// The first stored animated-tile entry keyed by the given id.
    fn find_animation_index(&self, gid: u32) -> (r: Option<usize>)
        requires
            self.wf(),
        ensures
            match r {
                Some(i) => i < self.animations@.len() && self.animations@[i as int].0 == gid
                    && find_animation(self.animations@, gid) == Option::Some(
                    self.animations@[i as int].1,
                ),
                None => find_animation(self.animations@, gid) is None,
            },
    {
        let n = self.animations.len();
        for i in 0..n
            invariant
                n == self.animations@.len(),
                forall|k: int| 0 <= k < i ==> (#[trigger] self.animations@[k]).0 != gid,
        {
            if self.animations[i].0 == gid {
                proof {
                    lemma_find_animation_some(self.animations@, gid, i as int);
                }
                return Some(i);
            }
        }
        proof {
            lemma_find_animation_none(self.animations@, gid);
        }
        None
    }

    /// The drawing request of one grid cell of one layer, if any: the cell's
    /// tile — or, on a layer named `animation`, the current frame of its
    /// cycle — copied from its atlas onto its place on screen.
    #[verifier::loop_isolation(false)]
    fn render_cell(
        &self,
        li: usize,
        ti: usize,
        tile_left: i32,
        tile_top: i32,
        camera: &Rect,
        y: usize,
        x: usize,
    ) -> (r: Option<DrawCommand>)
        requires
            self.wf(),
            li < self.layers@.len(),
            ti < self.tile_atlases@.len(),
            y < self.layers@[li as int].tiles@.len(),
            x < self.layers@[li as int].tiles@[y as int]@.len(),
        ensures
            ({
                let name = self.layers@[li as int].name@;
                let grid = self.layers@[li as int].tiles@;
                let tw = self.tile_atlases@[ti as int].tile_width as int;
                let th = self.tile_atlases@[ti as int].tile_height as int;
                let cell = cell_commands(
                    *self,
                    name,
                    grid,
                    tw,
                    th,
                    tile_left as int,
                    tile_top as int,
                    *camera,
                    y as int,
                    x as int,
                );
                match r {
                    Some(c) => cell == seq![c],
                    None => cell.len() == 0,
                }
            }),
    {
        let animation_name: String = "animation".to_owned();
        let tw: u32 = self.tile_atlases[ti].tile_width;
        let th: u32 = self.tile_atlases[ti].tile_height;
        proof {
            assert(self.tile_atlases@[ti as int].wf());
            assert(layers_ok(self.layers@, self.width as int, self.height as int));
            assert(y < self.height && x < self.width);
        }
        let gid = self.layers[li].tiles[y][x];
        if gid == 0 {
            return None;
        }
        let ai = match self.find_atlas_index(gid) {
            Some(ai) => ai,
            None => {
                return None;
            },
        };
        let draw_gid: u32 = if self.layers[li].name.eq(&animation_name) {
            match self.find_animation_index(gid) {
                Some(ti) => {
                    proof {
                        assert(self.animations@[ti as int].1.wf());
                    }
                    self.animations[ti].1.get_current_frame()
                },
                None => gid,
            }
        } else {
            gid
        };
        let atlas = &self.tile_atlases[ai];
        proof {
            assert(self.tile_atlases@[ai as int].wf());
            assert(atlas.columns as int * atlas.rows as int <= 1_000_000_000_000)
                by (nonlinear_arith)
                requires
                    0 <= atlas.columns <= 1_000_000,
                    0 <= atlas.rows <= 1_000_000,
            ;
        }
        let count: u64 = atlas.columns as u64 * atlas.rows as u64;
        if draw_gid as u64 >= atlas.first_gid as u64 && (draw_gid as u64) < atlas.first_gid as u64
            + count {
            let source = atlas.get_tile_rect(draw_gid);
            proof {
                assert(-0x8000_0000_0000 <= (tile_left as int) * (tw as int) <= 0x8000_0000_0000)
                    by (nonlinear_arith)
                    requires
                        -0x8000_0000 <= tile_left <= 0x8000_0000,
                        0 <= tw <= 65_536,
                ;
                assert(-0x8000_0000_0000 <= (tile_top as int) * (th as int) <= 0x8000_0000_0000)
                    by (nonlinear_arith)
                    requires
                        -0x8000_0000 <= tile_top <= 0x8000_0000,
                        0 <= th <= 65_536,
                ;
                assert(-0x2_0000_0000_0000 <= (x as int - tile_left as int) * (tw as int)
                    <= 0x2_0000_0000_0000) by (nonlinear_arith)
                    requires
                        -0x1_0000_0000 <= x as int - tile_left as int <= 0x1_0000_0000,
                        0 <= tw <= 65_536,
                ;
                assert(-0x2_0000_0000_0000 <= (y as int - tile_top as int) * (th as int)
                    <= 0x2_0000_0000_0000) by (nonlinear_arith)
                    requires
                        -0x1_0000_0000 <= y as int - tile_top as int <= 0x1_0000_0000,
                        0 <= th <= 65_536,
                ;
            }
            proof {
                assert(SPRITE_SCALE == 2);
            }
            let start_x: i64 = camera.x as i64 - tile_left as i64 * tw as i64;
            let start_y: i64 = camera.y as i64 - tile_top as i64 * th as i64;
            proof {
                assert(-0x10_0000_0000_0000 <= ((x as int - tile_left as int) * (tw as int)
                    - start_x as int) * (SPRITE_SCALE as int) <= 0x10_0000_0000_0000)
                    by (nonlinear_arith)
                    requires
                        -0x2_0000_0000_0000 <= (x as int - tile_left as int) * (tw as int)
                            <= 0x2_0000_0000_0000,
                        -0x1_0000_0000_0000 <= start_x as int <= 0x1_0000_0000_0000,
                        0 <= SPRITE_SCALE <= 2,
                ;
                assert(-0x10_0000_0000_0000 <= ((y as int - tile_top as int) * (th as int)
                    - start_y as int) * (SPRITE_SCALE as int) <= 0x10_0000_0000_0000)
                    by (nonlinear_arith)
                    requires
                        -0x2_0000_0000_0000 <= (y as int - tile_top as int) * (th as int)
                            <= 0x2_0000_0000_0000,
                        -0x1_0000_0000_0000 <= start_y as int <= 0x1_0000_0000_0000,
                        0 <= SPRITE_SCALE <= 2,
                ;
            }
            let dx_px: i64 = ((x as i64 - tile_left as i64) * tw as i64 - start_x)
                * SPRITE_SCALE as i64;
            let dy_px: i64 = ((y as i64 - tile_top as i64) * th as i64 - start_y)
                * SPRITE_SCALE as i64;
            let dest = Rect {
                x: dx_px as i32,
                y: dy_px as i32,
                width: tw * SPRITE_SCALE,
                height: th * SPRITE_SCALE,
            };
            Some(DrawCommand { image: atlas.image.clone(), source, dest })
        } else {
            None
        }
    }

    /// Appends the drawing requests of the cells `[x0, x1)` of row `y`.
    #[verifier::loop_isolation(false)]
    #[verifier::rlimit(60)]
    fn render_row(
        &self,
        li: usize,
        ti: usize,
        tile_left: i32,
        tile_top: i32,
        camera: &Rect,
        y: usize,
        x0: usize,
        x1: usize,
        cmds: &mut Vec<DrawCommand>,
    )
        requires
            self.wf(),
            li < self.layers@.len(),
            ti < self.tile_atlases@.len(),
            y < self.layers@[li as int].tiles@.len(),
            x0 <= x1 <= self.layers@[li as int].tiles@[y as int]@.len(),
        ensures
            final(cmds)@ == old(cmds)@ + row_commands(
                *self,
                self.layers@[li as int].name@,
                self.layers@[li as int].tiles@,
                self.tile_atlases@[ti as int].tile_width as int,
                self.tile_atlases@[ti as int].tile_height as int,
                tile_left as int,
                tile_top as int,
                *camera,
                y as int,
                x0 as int,
                x1 as int,
            ),
    {
        let ghost name = self.layers@[li as int].name@;
        let ghost grid = self.layers@[li as int].tiles@;
        let ghost tws = self.tile_atlases@[ti as int].tile_width as int;
        let ghost ths = self.tile_atlases@[ti as int].tile_height as int;
        for x in x0..x1
            invariant
                x0 <= x <= x1,
                cmds@ == old(cmds)@ + row_commands(
                    *self,
                    name,
                    grid,
                    tws,
                    ths,
                    tile_left as int,
                    tile_top as int,
                    *camera,
                    y as int,
                    x0 as int,
                    x as int,
                ),
        {
            match self.render_cell(li, ti, tile_left, tile_top, camera, y, x) {
                Some(c) => {
                    cmds.push(c);
                },
                None => {},
            }
        }
    }

    /// The camera-visible cell range of a grid, in the tile units of the
    /// atlas at `ti`: the raw top-left cell, then the clamped, ordered row
    /// and column bounds.
    #[verifier::loop_isolation(false)]
    fn layer_ranges(&self, ti: usize, camera: &Rect) -> (r: (i32, i32, usize, usize, usize, usize))
        requires
            self.wf(),
            ti < self.tile_atlases@.len(),
            camera.wf(),
            camera.spec_right() <= POS_LIMIT,
            camera.spec_bottom() <= POS_LIMIT,
        ensures
            ({
                let top_left = point_to_tile_spec(*self, ti as int, camera.x as int, camera.y as int);
                let bottom_right = point_to_tile_spec(
                    *self,
                    ti as int,
                    camera.x + camera.width,
                    camera.y + camera.height,
                );
                let y0 = clamp_idx(top_left.1, self.height as int);
                let y1c = clamp_idx(bottom_right.1, self.height as int);
                let x0 = clamp_idx(top_left.0, self.width as int);
                let x1c = clamp_idx(bottom_right.0, self.width as int);
                &&& r.0 == top_left.0
                &&& r.1 == top_left.1
                &&& r.2 == y0
                &&& r.3 == if y1c < y0 { y0 } else { y1c }
                &&& r.4 == x0
                &&& r.5 == if x1c < x0 { x0 } else { x1c }
            }),
    {
        let top_left = self.point_to_tile(ti, camera.left(), camera.top());
        let bottom_right = self.point_to_tile(ti, camera.right(), camera.bottom());
        let y0: usize = if top_left.1 < 0 {
            0
        } else if top_left.1 > self.height as i32 {
            self.height as usize
        } else {
            top_left.1 as usize
        };
        let y1: usize = if bottom_right.1 < 0 {
            0
        } else if bottom_right.1 > self.height as i32 {
            self.height as usize
        } else {
            bottom_right.1 as usize
        };
        let x0: usize = if top_left.0 < 0 {
            0
        } else if top_left.0 > self.width as i32 {
            self.width as usize
        } else {
            top_left.0 as usize
        };
        let x1: usize = if bottom_right.0 < 0 {
            0
        } else if bottom_right.0 > self.width as i32 {
            self.width as usize
        } else {
            bottom_right.0 as usize
        };
        let y1 = if y1 < y0 {
            y0
        } else {
            y1
        };
        let x1 = if x1 < x0 {
            x0
        } else {
            x1
        };
        (top_left.0, top_left.1, y0, y1, x0, x1)
    }

    /// Appends the drawing requests of the layer at index `li`.
    #[verifier::loop_isolation(false)]
    #[verifier::rlimit(100)]
    fn render_layer(&self, li: usize, camera: &Rect, cmds: &mut Vec<DrawCommand>)
        requires
            self.wf(),
            li < self.layers@.len(),
            camera.wf(),
            camera.spec_right() <= POS_LIMIT,
            camera.spec_bottom() <= POS_LIMIT,
        ensures
            final(cmds)@ == old(cmds)@ + layer_commands_at(*self, *camera, li as int),
    {
        let collision_name: String = "collision".to_owned();
        if self.layers[li].name.eq(&collision_name) || self.tile_atlases.len() == 0 {
            proof {
                assert(layer_commands_at(*self, *camera, li as int) =~= Seq::<
                    DrawCommand,
                >::empty());
                assert(cmds@ =~= old(cmds)@ + layer_commands_at(*self, *camera, li as int));
            }
            return ;
        }
        let ti: usize = if li < self.tile_atlases.len() {
            li
        } else {
            self.tile_atlases.len() - 1
        };
        let ranges = self.layer_ranges(ti, camera);
        let tile_left: i32 = ranges.0;
        let tile_top: i32 = ranges.1;
        let y0: usize = ranges.2;
        let y1: usize = ranges.3;
        let x0: usize = ranges.4;
        let x1: usize = ranges.5;
        let ghost name = self.layers@[li as int].name@;
        let ghost grid = self.layers@[li as int].tiles@;
        let ghost tws = self.tile_atlases@[ti as int].tile_width as int;
        let ghost ths = self.tile_atlases@[ti as int].tile_height as int;
        for y in y0..y1
            invariant
                y0 <= y <= y1,
                cmds@ == old(cmds)@ + rows_commands(
                    *self,
                    name,
                    grid,
                    tws,
                    ths,
                    tile_left as int,
                    tile_top as int,
                    *camera,
                    y0 as int,
                    y as int,
                    x0 as int,
                    x1 as int,
                ),
        {
            self.render_row(li, ti, tile_left, tile_top, camera, y, x0, x1, cmds);
        }
    }

    /// The drawing requests that show every non-collision layer's cells under
    /// the camera: each visible tile — or, on a layer named `animation`, the
    /// current frame of its cycle — copied from its atlas onto its place on
    /// screen, scaled by the display factor.
    #[verifier::loop_isolation(false)]
    pub fn render(&self, camera: &Rect) -> (r: Vec<DrawCommand>)
        requires
            self.wf(),
            camera.wf(),
            camera.spec_right() <= POS_LIMIT,
            camera.spec_bottom() <= POS_LIMIT,
        ensures
            r@ == layers_commands(*self, *camera, self.layers@.len() as int),
    {
        let mut cmds: Vec<DrawCommand> = Vec::new();
        let n = self.layers.len();
        for li in 0..n
            invariant
                cmds@ == layers_commands(*self, *camera, li as int),
        {
            self.render_layer(li, camera, &mut cmds);
        }
        cmds
    }
}

/// The drawing requests a list of enemies contributes, in order.
pub open spec fn enemies_commands(enemies: Seq<Enemy>) -> Seq<DrawCommand>
    decreases enemies.len(),
{
    if enemies.len() == 0 {
        Seq::empty()
    } else {
        enemies_commands(enemies.drop_last()) + crate::enemy::enemy_command(enemies.last())
    }
}

impl Level {
    /// The drawing requests that show every enemy this tick.
    #[verifier::loop_isolation(false)]
    pub fn render_enemies(&self) -> (r: Vec<DrawCommand>)
        requires
            self.wf(),
        ensures
            r@ == enemies_commands(self.enemies@),
    {
        let mut cmds: Vec<DrawCommand> = Vec::new();
        let n = self.enemies.len();
        proof {
            assert(self.enemies@.take(0) =~= Seq::<Enemy>::empty());
        }
        for i in 0..n
            invariant
                cmds@ == enemies_commands(self.enemies@.take(i as int)),
        {
            proof {
                assert(self.enemies@[i as int].wf());
            }
            match self.enemies[i].render() {
                Ok(Some(c)) => {
                    cmds.push(c);
                },
                Ok(None) => {},
                Err(_) => {
                    proof {
                        assert(false);
                    }
                },
            }
            proof {
                assert(self.enemies@.take(i + 1).drop_last() =~= self.enemies@.take(i as int));
                assert(self.enemies@.take(i + 1).last() == self.enemies@[i as int]);
            }
        }
        proof {
            assert(self.enemies@.take(n as int) =~= self.enemies@);
        }
        cmds
    }
}

} // verus!
