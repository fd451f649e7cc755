use crate::animated_tile::Frame;
use vstd::prelude::*;

verus! {

/// Most tiles a map may have along one axis.
pub const MAX_MAP_TILES: u32 = 10_000;

/// Largest tile side, in pixels.
pub const MAX_TILE_SIZE: u32 = 4096;

/// Largest first global id a tileset may carry.
pub const MAX_GID: u32 = 1_000_000_000;

/// Largest tileset-local tile id.
pub const MAX_LOCAL_ID: u32 = 1_000_000;

/// Largest tileset image side, in pixels.
pub const MAX_IMAGE_SIZE: u32 = 1_000_000;

/// Largest magnitude of an authored object coordinate, in thousandths of a
/// pixel.
pub const MAX_COORD_MILLI: i64 = 100_000_000_000;

/// Largest authored object size, in thousandths of a pixel.
pub const MAX_SIZE_MILLI: i64 = 1_000_000_000;

/// One image of a tileset: its source name and pixel dimensions.
#[derive(Clone, Debug)]
pub struct ImageDescription {
    pub source: String,
    pub width: u32,
    pub height: u32,
}

/// One tile of a tileset that carries metadata: possibly a frame animation,
/// with frame tile ids local to the tileset.
#[derive(Clone, Debug)]
pub struct TileDescription {
    pub id: u32,
    pub animation: Option<Vec<Frame>>,
}

/// One tileset: the global id range it starts at, its tile dimensions, its
/// images (the first is the one drawn from), and its annotated tiles.
#[derive(Clone, Debug)]
pub struct TilesetDescription {
    pub first_gid: u32,
    pub tile_width: u32,
    pub tile_height: u32,
    pub images: Vec<ImageDescription>,
    pub tiles: Vec<TileDescription>,
}

/// One grid layer: its name and its rows of global tile ids, zero for an
/// empty cell.
#[derive(Clone, Debug)]
pub struct LayerDescription {
    pub name: String,
    pub tiles: Vec<Vec<u32>>,
}

/// One authored map object. Coordinates and sizes are in thousandths of a
/// pixel, so fractional authoring coordinates reach the simulation exactly.
/// `polyline` carries the point offsets of a polyline object; `properties`
/// holds the object's string-valued properties.
#[derive(Clone, Debug)]
pub struct ObjectDescription {
    pub name: String,
    pub x: i64,
    pub y: i64,
    pub width: i64,
    pub height: i64,
    pub polyline: Option<Vec<(i64, i64)>>,
    pub properties: Vec<(String, String)>,
}

/// One object group: its name and its objects.
#[derive(Clone, Debug)]
pub struct ObjectGroupDescription {
    pub name: String,
    pub objects: Vec<ObjectDescription>,
}

/// A complete declarative map description, as plain values: grid dimensions,
/// tile dimensions, tilesets, grid layers, and object groups. Unrecognized
/// layers and groups are tolerated and ignored by the loader.
#[derive(Clone, Debug)]
pub struct MapDescription {
    pub width: u32,
    pub height: u32,
    pub tile_width: u32,
    pub tile_height: u32,
    pub tilesets: Vec<TilesetDescription>,
    pub layers: Vec<LayerDescription>,
    pub object_groups: Vec<ObjectGroupDescription>,
}

/// Why a map failed to load. A failed load returns no partial map.
#[derive(Clone, Copy, PartialEq, Eq, Structural, Debug)]
pub enum MapLoadError {
    /// The description itself is broken: degenerate dimensions, a misshapen
    /// tile grid, out-of-range ids or coordinates, a degenerate slope, or an
    /// empty start group.
    Malformed,
    /// A tileset names no image to draw from.
    MissingTilesetImage,
    /// A door object carries no `destination` property.
    MissingDestination,
}

/// The value of the first property of the given name, if any.
pub open spec fn prop_lookup(props: Seq<(String, String)>, key: Seq<char>) -> Option<String>
    decreases props.len(),
{
    if props.len() == 0 {
        Option::None
    } else if props.first().0@ == key {
        Option::Some(props.first().1)
    } else {
        prop_lookup(props.drop_first(), key)
    }
}

/// Looks a string property up by name.
pub fn lookup_property<'a>(props: &'a Vec<(String, String)>, key: &String) -> (r: Option<
    &'a String,
>)
    ensures
        match r {
            Some(v) => prop_lookup(props@, key@) == Option::Some(*v),
            None => prop_lookup(props@, key@) is None,
        },
{
    let n = props.len();
    proof {
        assert(props@.skip(0) =~= props@);
    }
    for i in 0..n
        invariant
            n == props@.len(),
            forall|j: int| 0 <= j < i ==> (#[trigger] props@[j]).0@ != key@,
            prop_lookup(props@, key@) == prop_lookup(props@.skip(i as int), key@),
    {
        proof {
            assert(props@.skip(i as int).first() == props@[i as int]);
            assert(props@.skip(i as int).drop_first() =~= props@.skip(i + 1));
        }
        if props[i].0.eq(key) {
            return Some(&props[i].1);
        }
    }
    proof {
        assert(props@.skip(n as int).len() == 0);
    }
    None
}

} // verus!
