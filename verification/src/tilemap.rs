//! The tile map: a palette of tiles and a grid that refers to it, read from
//! text.
//!
//! The text has two kinds of sections. After a line with `#Tiles#`, each line
//! adds a tile to the palette: comma-separated fields, the first the source of
//! the tile's texture, the third saying `true` if the tile is solid. After a
//! line with `#Map#`, each line is a row of the grid: comma-separated numbers
//! of tiles in the palette as it stands at that line. Lines before the first
//! section are passed over.

use vstd::prelude::*;
use crate::text::{
    contains, has_marker, lines, lines_of, number_of, parse_number, split, split_on, trim, trimmed,
    views, COMMA,
};
use crate::units::{clamp_to_i32, Point};

verus! {

/// The side of a tile, in pixels.
pub const TILE_SIZE: i32 = 32;

/// One tile of the grid.
#[derive(Clone, Copy, Debug, PartialEq, Eq, Structural)]
pub struct TileData {
    /// Whether the tile is solid.
    pub collider: bool,
    /// The tile's top left corner, in pixels.
    pub pos: Point,
    /// The tile's width and height, in pixels.
    pub size: Point,
    /// The tile's number in the palette.
    pub texture_index: usize,
}

/// A tile map.
pub struct TileMap {
    /// The palette: for each tile, where its texture comes from.
    pub tile_textures: Vec<Vec<u8>>,
    /// The grid, row by row.
    pub map: Vec<TileData>,
    /// The palette: for each tile, whether it is solid.
    pub collision_map: Vec<bool>,
    /// The number of tiles in the last row, and the number of rows.
    pub map_size: (usize, usize),
}

/// Why a text is no tile map. Each reason comes with the number of the line
/// it was found in, counted from zero.
#[derive(Clone, Copy, Debug, PartialEq, Eq, Structural)]
pub enum TileMapError {
    /// A line of the palette has fewer than three fields.
    MissingField(usize),
    /// A field of a row is not a number.
    BadIndex(usize),
    /// A row names a tile that the palette does not have.
    UnknownTile(usize),
}

/// The section that the lines read belong to.
#[derive(Clone, Copy, Debug, PartialEq, Eq, Structural)]
pub enum Section {
    Preamble,
    Palette,
    Grid,
}

/// What has been read of a tile map.
pub struct Reading {
    pub section: Section,
    pub textures: Seq<Seq<u8>>,
    pub colliders: Seq<bool>,
    pub tiles: Seq<TileData>,
    pub width: nat,
    pub height: nat,
}

/// The line that opens a section of the palette: `#Tiles#`.
pub open spec fn tiles_marker() -> Seq<u8> {
    seq![35u8, 84u8, 105u8, 108u8, 101u8, 115u8, 35u8]
}

/// The line that opens a section of the grid: `#Map#`.
pub open spec fn map_marker() -> Seq<u8> {
    seq![35u8, 77u8, 97u8, 112u8, 35u8]
}

/// The word that marks a tile as solid: `true`.
pub open spec fn solid_marker() -> Seq<u8> {
    seq![116u8, 114u8, 117u8, 101u8]
}

/// The tile in column `column` of row `row` that has the number `index` in
/// `palette`. A corner beyond the pixels that a position can name is put at
/// the last of them.
pub open spec fn tile_at(palette: Seq<bool>, index: usize, column: int, row: int) -> TileData {
    TileData {
        collider: palette[index as int],
        pos: Point {
            x: clamp_to_i32(column * TILE_SIZE) as i32,
            y: clamp_to_i32(row * TILE_SIZE) as i32,
        },
        size: Point { x: TILE_SIZE, y: TILE_SIZE },
        texture_index: index,
    }
}

/// The tiles of the first `count` fields of a row, or the reason why the
/// first field that is no tile is none.
pub open spec fn row_upto(
    fields: Seq<Seq<u8>>,
    palette: Seq<bool>,
    row: nat,
    line: nat,
    count: nat,
) -> Result<Seq<TileData>, TileMapError>
    decreases count,
{
    if count == 0 {
        Ok(Seq::empty())
    } else {
        match row_upto(fields, palette, row, line, (count - 1) as nat) {
            Err(e) => Err(e),
            Ok(tiles) => match number_of(trimmed(fields[count - 1])) {
                None => Err(TileMapError::BadIndex(line as usize)),
                Some(index) => if index >= palette.len() {
                    Err(TileMapError::UnknownTile(line as usize))
                } else {
                    Ok(tiles.push(tile_at(palette, index, count - 1, row as int)))
                },
            },
        }
    }
}

impl Reading {
    /// Nothing read yet.
    pub open spec fn start() -> Reading {
        Reading {
            section: Section::Preamble,
            textures: Seq::empty(),
            colliders: Seq::empty(),
            tiles: Seq::empty(),
            width: 0,
            height: 0,
        }
    }

    /// The reading after the line numbered `number`, or the reason why the
    /// line is wrong.
    pub open spec fn after_line(self, line: Seq<u8>, number: nat) -> Result<Reading, TileMapError> {
        let fields = split_on(line, COMMA);
        if has_marker(line, tiles_marker()) {
            Ok(Reading { section: Section::Palette, ..self })
        } else if has_marker(line, map_marker()) {
            Ok(Reading { section: Section::Grid, ..self })
        } else {
            match self.section {
                Section::Preamble => Ok(self),
                Section::Palette => if fields.len() < 3 {
                    Err(TileMapError::MissingField(number as usize))
                } else {
                    Ok(
                        Reading {
                            textures: self.textures.push(fields[0]),
                            colliders: self.colliders.push(has_marker(fields[2], solid_marker())),
                            ..self
                        },
                    )
                },
                Section::Grid => match row_upto(
                    fields,
                    self.colliders,
                    self.height,
                    number,
                    fields.len(),
                ) {
                    Err(e) => Err(e),
                    Ok(tiles) => Ok(
                        Reading {
                            tiles: self.tiles + tiles,
                            width: tiles.len(),
                            height: self.height + 1,
                            ..self
                        },
                    ),
                },
            }
        }
    }

    /// The reading after the first `count` of `lines`, or the reason why the
    /// first wrong line among them is wrong.
    pub open spec fn upto(lines: Seq<Seq<u8>>, count: nat) -> Result<Reading, TileMapError>
        decreases count,
    {
        if count == 0 {
            Ok(Reading::start())
        } else {
            match Reading::upto(lines, (count - 1) as nat) {
                Err(e) => Err(e),
                Ok(reading) => reading.after_line(lines[count - 1], (count - 1) as nat),
            }
        }
    }

    /// The reading of a whole text.
    pub open spec fn of(text: Seq<u8>) -> Result<Reading, TileMapError> {
        Reading::upto(lines_of(text), lines_of(text).len())
    }
}

impl TileMap {
    /// Every tile of the grid is in the palette and is solid if the palette
    /// says so, and the palette has a texture for each of its tiles.
    pub open spec fn well_formed(&self) -> bool {
        &&& self.tile_textures@.len() == self.collision_map@.len()
        &&& forall|i: int|
            0 <= i < self.map@.len() ==> (#[trigger] self.map@[i]).texture_index
                < self.collision_map@.len() && self.map@[i].collider
                == self.collision_map@[self.map@[i].texture_index as int]
    }

    /// Whether the map holds what `reading` says.
    pub open spec fn holds(&self, reading: Reading) -> bool {
        &&& views(self.tile_textures@) == reading.textures
        &&& self.collision_map@ == reading.colliders
        &&& self.map@ == reading.tiles
        &&& self.map_size.0 == reading.width
        &&& self.map_size.1 == reading.height
    }

    /// Whether the tile in column `loc.x` of row `loc.y` is solid, counting
    /// the tiles row by row with rows as wide as the last.
    pub fn is_collidable(&self, loc: Point) -> (solid: bool)
        requires
            self.well_formed(),
            0 <= loc.x,
            0 <= loc.y,
            loc.y * self.map_size.0 + loc.x < self.map@.len(),
        ensures
            solid == self.map@[loc.y * self.map_size.0 + loc.x].collider,
            solid == self.collision_map@[self.map@[loc.y * self.map_size.0
                + loc.x].texture_index as int],
    {
        assert(loc.y * self.map_size.0 >= 0) by (nonlinear_arith)
            requires
                loc.y >= 0,
                self.map_size.0 >= 0,
        ;
        let all = self.map.len();
        let row_start = (loc.y as u128) * (self.map_size.0 as u128);
        assert(row_start == loc.y * self.map_size.0) by (nonlinear_arith)
            requires
                row_start == (loc.y as u128) * (self.map_size.0 as u128),
                0 <= loc.y <= 0x7fff_ffff,
                0 <= self.map_size.0 <= 0xffff_ffff_ffff_ffff,
        {
            assert((loc.y as u128) * (self.map_size.0 as u128) <= 0x7fff_ffff
                * 0xffff_ffff_ffff_ffff);
        }
        let index = (row_start + loc.x as u128) as usize;
        self.collision_map[self.map[index].texture_index]
    }

    /// For each tile of the grid, row by row, whether it is solid.
    pub fn solid_layer(&self) -> (layer: Vec<bool>)
        ensures
            layer@.len() == self.map@.len(),
            forall|i: int| 0 <= i < layer@.len() ==> #[trigger] layer@[i] == self.map@[i].collider,
    {
        let mut layer: Vec<bool> = Vec::new();
        let mut i: usize = 0;
        while i < self.map.len()
            invariant
                i <= self.map@.len(),
                layer@.len() == i,
                forall|k: int| 0 <= k < i ==> #[trigger] layer@[k] == self.map@[k].collider,
            decreases self.map@.len() - i,
        {
            layer.push(self.map[i].collider);
            i = i + 1;
        }
        layer
    }
}

/// The bytes of `#Tiles#`.
fn tiles_marker_bytes() -> (marker: Vec<u8>)
    ensures
        marker@ == tiles_marker(),
{
    let marker = vec![35u8, 84u8, 105u8, 108u8, 101u8, 115u8, 35u8];
    assert(marker@ =~= tiles_marker());
    marker
}

/// The bytes of `#Map#`.
fn map_marker_bytes() -> (marker: Vec<u8>)
    ensures
        marker@ == map_marker(),
{
    let marker = vec![35u8, 77u8, 97u8, 112u8, 35u8];
    assert(marker@ =~= map_marker());
    marker
}

/// The bytes of `true`.
fn solid_marker_bytes() -> (marker: Vec<u8>)
    ensures
        marker@ == solid_marker(),
{
    let marker = vec![116u8, 114u8, 117u8, 101u8];
    assert(marker@ =~= solid_marker());
    marker
}

/// The pixel at which the tiles of the column or row numbered `count` begin.
fn edge(count: usize) -> (pixel: i32)
    ensures
        pixel == clamp_to_i32(count * TILE_SIZE),
{
    if count > 67_108_863 {
        i32::MAX
    } else {
        count as i32 * TILE_SIZE
    }
}

/// Reads one row of the grid from its fields and adds its tiles to `map`.
/// Returns the number of tiles in the row.
fn read_row(
    fields: &Vec<Vec<u8>>,
    palette: &Vec<bool>,
    row: usize,
    line: usize,
    map: &mut Vec<TileData>,
) -> (outcome: Result<usize, TileMapError>)
    ensures
        match row_upto(views(fields@), palette@, row as nat, line as nat, fields@.len()) {
            Err(e) => outcome == Err::<usize, TileMapError>(e),
            Ok(tiles) => outcome is Ok && outcome->Ok_0 == tiles.len() && final(map)@ == old(map)@ + tiles,
        },
        forall|i: int|
            0 <= i < old(map)@.len() && i < final(map)@.len() ==> final(map)@[i] == old(map)@[i],
        forall|i: int|
            old(map)@.len() <= i < final(map)@.len() ==> (#[trigger] final(map)@[i]).texture_index
                < palette@.len() && final(map)@[i].collider
                == palette@[final(map)@[i].texture_index as int],
{
    let ghost texts = views(fields@);
    let ghost added: Seq<TileData> = Seq::empty();
    let mut column: usize = 0;
    while column < fields.len()
        invariant
            column <= fields@.len(),
            texts == views(fields@),
            row_upto(texts, palette@, row as nat, line as nat, column as nat) == Ok::<
                Seq<TileData>,
                TileMapError,
            >(added),
            added.len() == column,
            map@ == old(map)@ + added,
            forall|i: int|
                0 <= i < added.len() ==> (#[trigger] added[i]).texture_index < palette@.len()
                    && added[i].collider == palette@[added[i].texture_index as int],
        decreases fields@.len() - column,
    {
        let field = fields[column].as_slice();
        assert(field@ == texts[column as int]);
        let (lo, hi) = trim(field);
        let number = parse_number(field, lo, hi);
        let index = match number {
            None => {
                proof {
                    lemma_row_fails(texts, palette@, row as nat, line as nat, column as nat + 1,
                        fields@.len());
                }
                return Err(TileMapError::BadIndex(line));
            },
            Some(index) => index,
        };
        if index >= palette.len() {
            proof {
                lemma_row_fails(texts, palette@, row as nat, line as nat, column as nat + 1,
                    fields@.len());
            }
            return Err(TileMapError::UnknownTile(line));
        }
        let tile = TileData {
            collider: palette[index],
            pos: Point { x: edge(column), y: edge(row) },
            size: Point { x: TILE_SIZE, y: TILE_SIZE },
            texture_index: index,
        };
        proof {
            assert(tile == tile_at(palette@, index, column as int, row as int));
            assert(old(map)@ + added.push(tile) == (old(map)@ + added).push(tile));
            added = added.push(tile);
        }
        map.push(tile);
        column = column + 1;
    }
    Ok(column)
}

/// A row that fails within its first `count` fields fails as a whole, for
/// the same reason.
proof fn lemma_row_fails(
    fields: Seq<Seq<u8>>,
    palette: Seq<bool>,
    row: nat,
    line: nat,
    count: nat,
    all: nat,
)
    requires
        count <= all,
        row_upto(fields, palette, row, line, count) is Err,
    ensures
        row_upto(fields, palette, row, line, all) == row_upto(fields, palette, row, line, count),
    decreases all - count,
{
    if count < all {
        lemma_row_fails(fields, palette, row, line, count + 1, all);
    }
}

/// A text that fails within its first `count` lines fails as a whole, for
/// the same reason.
proof fn lemma_reading_fails(lines: Seq<Seq<u8>>, count: nat, all: nat)
    requires
        count <= all,
        Reading::upto(lines, count) is Err,
    ensures
        Reading::upto(lines, all) == Reading::upto(lines, count),
    decreases all - count,
{
    if count < all {
        lemma_reading_fails(lines, count + 1, all);
    }
}

/// Reads a tile map from text. Gives the map that the text describes, or the
/// reason why the first wrong line of the text is wrong.
pub fn load_tilemap(text: &[u8]) -> (outcome: Result<TileMap, TileMapError>)
    ensures
        match Reading::of(text@) {
            Err(e) => outcome == Err::<TileMap, TileMapError>(e),
            Ok(reading) => outcome is Ok && outcome->Ok_0.holds(reading)
                && outcome->Ok_0.well_formed(),
        },
{
    let all = lines(text);
    let ghost texts = views(all@);
    let palette_mark = tiles_marker_bytes();
    let grid_mark = map_marker_bytes();
    let solid_mark = solid_marker_bytes();
    let mut tilemap = TileMap {
        tile_textures: Vec::new(),
        map: Vec::new(),
        collision_map: Vec::new(),
        map_size: (0, 0),
    };
    let mut section = Section::Preamble;
    let ghost mut reading = Reading::start();
    let mut number: usize = 0;
    proof {
        assert(views(tilemap.tile_textures@) =~= reading.textures);
    }
    while number < all.len()
        invariant
            number <= all@.len(),
            texts == views(all@),
            texts == lines_of(text@),
            palette_mark@ == tiles_marker(),
            grid_mark@ == map_marker(),
            solid_mark@ == solid_marker(),
            Reading::upto(texts, number as nat) == Ok::<Reading, TileMapError>(reading),
            reading.section == section,
            tilemap.holds(reading),
            tilemap.well_formed(),
            reading.height <= number,
        decreases all@.len() - number,
    {
        let line = all[number].as_slice();
        assert(line@ == texts[number as int]);
        if contains(line, palette_mark.as_slice()) {
            section = Section::Palette;
            proof {
                reading = Reading { section: Section::Palette, ..reading };
            }
        } else if contains(line, grid_mark.as_slice()) {
            section = Section::Grid;
            proof {
                reading = Reading { section: Section::Grid, ..reading };
            }
        } else {
            match section {
                Section::Preamble => {},
                Section::Palette => {
                    let mut fields = split(line, COMMA);
                    if fields.len() < 3 {
                        proof {
                            lemma_reading_fails(texts, number as nat + 1, all@.len());
                        }
                        return Err(TileMapError::MissingField(number));
                    }
                    let solid = contains(fields[2].as_slice(), solid_mark.as_slice());
                    let ghost source = fields@[0]@;
                    let texture = fields.swap_remove(0);
                    let ghost textures = views(tilemap.tile_textures@);
                    tilemap.tile_textures.push(texture);
                    tilemap.collision_map.push(solid);
                    proof {
                        assert(views(tilemap.tile_textures@) =~= textures.push(source));
                        reading = Reading {
                            textures: reading.textures.push(source),
                            colliders: reading.colliders.push(solid),
                            ..reading
                        };
                    }
                },
                Section::Grid => {
                    let fields = split(line, COMMA);
                    let row = tilemap.map_size.1;
                    match read_row(&fields, &tilemap.collision_map, row, number, &mut tilemap.map) {
                        Err(e) => {
                            proof {
                                lemma_reading_fails(texts, number as nat + 1, all@.len());
                            }
                            return Err(e);
                        },
                        Ok(width) => {
                            tilemap.map_size = (width, row + 1);
                            proof {
                                let tiles = row_upto(
                                    views(fields@),
                                    reading.colliders,
                                    reading.height,
                                    number as nat,
                                    fields@.len(),
                                )->Ok_0;
                                reading = Reading {
                                    tiles: reading.tiles + tiles,
                                    width: tiles.len(),
                                    height: reading.height + 1,
                                    ..reading
                                };
                                    }
                        },
                    }
                },
            }
        }
        number = number + 1;
    }
    Ok(tilemap)
}

} // verus!
