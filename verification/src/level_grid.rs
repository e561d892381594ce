//! The tile grid of one stage file of MAA's `Arknights-Tile-Pos`: its identifiers, its
//! size and the tiles row by row. The camera views the file also holds are floating
//! point and stay with the projection.
use vstd::prelude::*;

use crate::geom::Point;
use crate::json::{self, default_i64, default_text, fit_i32, JsonError, JsonValue};
use crate::level::{buildable_from, tile_key_from, Buildable, LevelError, LevelKey, Tile, TileKey};
use crate::text;

verus! {

/// A tile object: `heightType`, `buildableType` and `tileKey`, each optional.
pub open spec fn tile_of(v: JsonValue) -> Option<Tile> {
    if !v.is_object_value() {
        None
    } else {
        match (default_i64(v, "heightType"@), default_i64(v, "buildableType"@), default_text(v, "tileKey"@)) {
            (Some(h), Some(b), Some(k)) => Some(
                Tile { height_type: h, buildable: buildable_from(b), key: tile_key_from(k) },
            ),
            _ => None,
        }
    }
}

/// Every element of `items` is a tile object.
pub open spec fn tiles_readable(items: Seq<JsonValue>) -> bool {
    forall|i: int| 0 <= i < items.len() ==> (#[trigger] tile_of(items[i])) is Some
}

/// The `tiles` member: an array of rows, each an array of tile objects.
pub open spec fn rows_readable(v: JsonValue) -> bool {
    v.items() matches Some(rows) && forall|i: int|
        0 <= i < rows.len() ==> ((#[trigger] rows[i]).items() matches Some(row) && tiles_readable(row))
}

/// An `i32` member that must be present.
pub open spec fn required_i32(v: JsonValue, key: Seq<char>) -> Option<i32> {
    match v.field(key) {
        Some(f) => fit_i32(f),
        None => None,
    }
}

/// Every field of a stage file that the grid needs has its type.
pub open spec fn grid_readable(doc: JsonValue) -> bool {
    &&& doc.is_object_value()
    &&& default_text(doc, "stageId"@) is Some
    &&& default_text(doc, "code"@) is Some
    &&& default_text(doc, "levelId"@) is Some
    &&& default_text(doc, "name"@) is Some
    &&& required_i32(doc, "width"@) is Some
    &&& required_i32(doc, "height"@) is Some
    &&& doc.field("tiles"@) matches Some(t) && rows_readable(t)
}

/// The rows of a readable stage file.
pub open spec fn doc_rows(doc: JsonValue) -> Seq<JsonValue> {
    doc.field("tiles"@).unwrap().items().unwrap()
}

/// The rows have the size the file declares.
pub open spec fn rows_fit(doc: JsonValue) -> bool {
    let rows = doc_rows(doc);
    &&& rows.len() == required_i32(doc, "height"@).unwrap() as int
    &&& forall|i: int|
        0 <= i < rows.len() ==> (#[trigger] rows[i]).items().unwrap().len() == required_i32(
            doc,
            "width"@,
        ).unwrap() as int
}

/// The message of a stage file with too few camera views.
pub open spec fn few_views_text(stage_id: Seq<char>, views: nat) -> Seq<char> {
    "关卡 "@ + stage_id + " 的 view 只有 "@ + text::decimal_nat(views) + " 项，至少需要 2 项（正常视角 + 侧视角）"@
}

/// The message of a stage file whose rows do not have the declared size.
pub open spec fn wrong_size_text(stage_id: Seq<char>, width: i32, height: i32) -> Seq<char> {
    "关卡 "@ + stage_id + " 的 tiles 尺寸与 "@ + text::decimal(width as int) + "×"@ + text::decimal(
        height as int,
    ) + " 不符"@
}

/// The message of a stage file whose fields do not have their types.
pub open spec fn unreadable_level_text() -> Seq<char> {
    "关卡文件缺少字段或字段类型不对"@
}

/// The points of row `y`, left to right (none when `width` is not positive).
pub open spec fn row_points(y: int, width: int) -> Seq<Point> {
    Seq::new(if width > 0 { width as nat } else { 0 }, |x: int| Point { x: x as i32, y: y as i32 })
}

/// The points of the first `rows` rows, row after row.
pub open spec fn grid_points(width: int, rows: int) -> Seq<Point>
    decreases rows,
{
    if rows <= 0 {
        Seq::empty()
    } else {
        grid_points(width, rows - 1) + row_points(rows - 1, width)
    }
}

/// One stage's tile grid.
#[derive(Clone, Debug)]
pub struct LevelGrid {
    key: LevelKey,
    width: i32,
    height: i32,
    tiles: Vec<Vec<Tile>>,
}

/// What reading the grid of the parsed stage file `doc`, whose `view` member holds
/// `view_count` camera views, gives: fields without their types come first, then too
/// few views (two are needed: the normal and the side view), then rows of the wrong size.
pub open spec fn grid_read(doc: JsonValue, view_count: nat, r: Result<LevelGrid, LevelError>) -> bool {
    let stage_id = default_text(doc, "stageId"@).unwrap();
    let width = required_i32(doc, "width"@).unwrap();
    let height = required_i32(doc, "height"@).unwrap();
    if !grid_readable(doc) {
        r matches Err(LevelError::Parse(e)) && e.message@ == unreadable_level_text()
    } else if view_count < 2 {
        r matches Err(LevelError::Malformed(m)) && m@ == few_views_text(stage_id, view_count)
    } else if !rows_fit(doc) {
        r matches Err(LevelError::Malformed(m)) && m@ == wrong_size_text(stage_id, width, height)
    } else {
        &&& r matches Ok(g)
        &&& g.wf()
        &&& g.level_key().stage_id@ == stage_id
        &&& g.level_key().code@ == default_text(doc, "code"@).unwrap()
        &&& g.level_key().level_id@ == default_text(doc, "levelId"@).unwrap()
        &&& g.level_key().name@ == default_text(doc, "name"@).unwrap()
        &&& g.grid_width() == width
        &&& g.grid_height() == height
        &&& g.cells().len() == doc_rows(doc).len()
        &&& forall|i: int, j: int|
            0 <= i < g.cells().len() && 0 <= j < g.cells()[i].len() ==> Some(#[trigger] g.cells()[i][j])
                == tile_of(doc_rows(doc)[i].items().unwrap()[j])
    }
}

impl LevelGrid {
    pub closed spec fn level_key(self) -> LevelKey {
        self.key
    }

    /// The stage's identifiers.
    pub fn key(&self) -> (k: &LevelKey)
        ensures
            *k == self.level_key(),
    {
        &self.key
    }

    pub closed spec fn grid_width(self) -> i32 {
        self.width
    }

    pub closed spec fn grid_height(self) -> i32 {
        self.height
    }

    /// The tiles, row by row.
    pub closed spec fn cells(self) -> Seq<Seq<Tile>> {
        self.tiles@.map_values(|row: Vec<Tile>| row@)
    }

    /// There are `height` rows of `width` tiles.
    pub open spec fn wf(self) -> bool {
        &&& self.cells().len() == self.grid_height() as int
        &&& forall|i: int| 0 <= i < self.cells().len() ==> (#[trigger] self.cells()[i]).len() == self.grid_width() as int
    }

    pub fn width(&self) -> (w: i32)
        ensures
            w == self.grid_width(),
    {
        self.width
    }

    pub fn height(&self) -> (h: i32)
        ensures
            h == self.grid_height(),
    {
        self.height
    }

    /// The tile at `loc`, when it lies in the grid.
    pub fn tile(&self, loc: Point) -> (r: Option<Tile>)
        requires
            self.wf(),
        ensures
            r == if 0 <= loc.x < self.grid_width() && 0 <= loc.y < self.grid_height() {
                Some(self.cells()[loc.y as int][loc.x as int])
            } else {
                None::<Tile>
            },
    {
        if loc.x < 0 || loc.y < 0 || loc.x >= self.width || loc.y >= self.height {
            return None;
        }
        let y = loc.y as usize;
        let x = loc.x as usize;
        assert(self.cells()[y as int] == self.tiles@[y as int]@);
        Some(self.tiles[y][x])
    }

    /// Every point of the grid, row after row.
    pub fn locations(&self) -> (r: Vec<Point>)
        ensures
            r@ == grid_points(self.grid_width() as int, self.grid_height() as int),
    {
        let mut r: Vec<Point> = Vec::new();
        let mut y: i32 = 0;
        while y < self.height
            invariant
                0 <= y,
                self.height >= 0 ==> y <= self.height,
                self.height < 0 ==> y == 0,
                r@ == grid_points(self.width as int, y as int),
            decreases self.height as int - y as int,
        {
            let mut x: i32 = 0;
            while x < self.width
                invariant
                    0 <= x,
                    0 <= y < self.height,
                    self.width >= 0 ==> x <= self.width,
                    self.width < 0 ==> x == 0,
                    r@ == grid_points(self.width as int, y as int) + row_points(y as int, self.width as int).take(x as int),
                decreases self.width as int - x as int,
            {
                let ghost before = r@;
                r.push(Point::new(x, y));
                assert(row_points(y as int, self.width as int).take(x + 1) =~= row_points(
                    y as int,
                    self.width as int,
                ).take(x as int).push(Point { x, y }));
                assert(r@ =~= grid_points(self.width as int, y as int) + row_points(y as int, self.width as int).take(x + 1));
                x = x + 1;
            }
            assert(row_points(y as int, self.width as int).take(x as int) =~= row_points(
                y as int,
                self.width as int,
            ));
            assert(grid_points(self.width as int, y + 1) == grid_points(self.width as int, y as int)
                + row_points(y as int, self.width as int));
            y = y + 1;
        }
        r
    }
}

/// Reads a tile object.
fn read_tile(v: &JsonValue) -> (r: Option<Tile>)
    ensures
        r == tile_of(*v),
{
    if !v.is_object() {
        return None;
    }
    let h = crate::json::read_default_i64(v, "heightType");
    let b = crate::json::read_default_i64(v, "buildableType");
    let k = crate::json::read_default_text(v, "tileKey");
    match (h, b, k) {
        (Some(h), Some(b), Some(k)) => Some(
            Tile { height_type: h, buildable: Buildable::from_i64(b), key: TileKey::parse(k.as_str()) },
        ),
        _ => None,
    }
}

/// Reads one row of tile objects.
fn read_row(v: &JsonValue) -> (r: Option<Vec<Tile>>)
    ensures
        match r {
            Some(row) => v.items() matches Some(items) && tiles_readable(items) && row@.len() == items.len()
                && forall|i: int| 0 <= i < items.len() ==> tile_of(#[trigger] items[i]) == Some(row@[i]),
            None => !(v.items() matches Some(items) && tiles_readable(items)),
        },
{
    let items = match v.as_array() {
        Some(items) => items,
        None => {
            return None;
        },
    };
    let mut row: Vec<Tile> = Vec::new();
    let mut i: usize = 0;
    while i < items.len()
        invariant
            v.items() == Some(items@),
            i <= items@.len(),
            row@.len() == i,
            forall|j: int| 0 <= j < i ==> tile_of(#[trigger] items@[j]) == Some(row@[j]),
        decreases items@.len() - i,
    {
        match read_tile(&items[i]) {
            Some(t) => row.push(t),
            None => {
                return None;
            },
        }
        i = i + 1;
    }
    Some(row)
}

fn read_required_i32(v: &JsonValue, key: &str) -> (r: Option<i32>)
    ensures
        r == required_i32(*v, key@),
{
    match v.get(key) {
        Some(f) => match f.as_i64() {
            Some(n) => if i32::MIN as i64 <= n && n <= i32::MAX as i64 {
                Some(n as i32)
            } else {
                None
            },
            None => None,
        },
        None => None,
    }
}

impl LevelGrid {
    /// Reads the grid of the stage file `json`, whose `view` member holds `view_count`
    /// camera views: text that is no JSON is a parse error, any other file reads as
    /// [`grid_read`] says.
    pub fn parse(json: &str, view_count: usize) -> (r: Result<Self, LevelError>)
        ensures
            match json::json_document(json@) {
                Err(e) => r matches Err(LevelError::Parse(pe)) && pe == e,
                Ok(doc) => grid_read(doc, view_count as nat, r),
            },
    {
        match json::parse_json(json) {
            Ok(doc) => LevelGrid::from_json(&doc, view_count),
            Err(e) => Err(LevelError::Parse(e)),
        }
    }

    /// Reads the grid of a parsed stage file whose `view` member holds `view_count`
    /// camera views (see [`grid_read`]).
    pub fn from_json(doc: &JsonValue, view_count: usize) -> (r: Result<Self, LevelError>)
        ensures
            grid_read(*doc, view_count as nat, r),
    {
        let unreadable = LevelError::Parse(JsonError { message: String::from_str("关卡文件缺少字段或字段类型不对") });
        if !doc.is_object() {
            return Err(unreadable);
        }
        let stage_id = match crate::json::read_default_text(doc, "stageId") {
            Some(s) => s,
            None => {
                return Err(unreadable);
            },
        };
        let code = match crate::json::read_default_text(doc, "code") {
            Some(s) => s,
            None => {
                return Err(unreadable);
            },
        };
        let level_id = match crate::json::read_default_text(doc, "levelId") {
            Some(s) => s,
            None => {
                return Err(unreadable);
            },
        };
        let name = match crate::json::read_default_text(doc, "name") {
            Some(s) => s,
            None => {
                return Err(unreadable);
            },
        };
        let width = match read_required_i32(doc, "width") {
            Some(w) => w,
            None => {
                return Err(unreadable);
            },
        };
        let height = match read_required_i32(doc, "height") {
            Some(h) => h,
            None => {
                return Err(unreadable);
            },
        };
        let rows = match doc.get("tiles") {
            Some(t) => match t.as_array() {
                Some(rows) => rows,
                None => {
                    return Err(unreadable);
                },
            },
            None => {
                return Err(unreadable);
            },
        };
        let mut tiles: Vec<Vec<Tile>> = Vec::new();
        let mut i: usize = 0;
        while i < rows.len()
            invariant
                unreadable matches LevelError::Parse(e) && e.message@ == unreadable_level_text(),
                doc.field("tiles"@) matches Some(t) && t.items() == Some(rows@),
                i <= rows@.len(),
                tiles@.len() == i,
                forall|j: int| 0 <= j < i ==> ((#[trigger] rows@[j]).items() matches Some(row) && tiles_readable(row)),
                forall|j: int| 0 <= j < i ==> (#[trigger] tiles@[j])@.len() == rows@[j].items().unwrap().len(),
                forall|j: int, k: int|
                    0 <= j < i && 0 <= k < tiles@[j]@.len() ==> Some(#[trigger] tiles@[j]@[k]) == tile_of(
                        rows@[j].items().unwrap()[k],
                    ),
            decreases rows@.len() - i,
        {
            match read_row(&rows[i]) {
                Some(row) => tiles.push(row),
                None => {
                    assert(!rows_readable(doc.field("tiles"@).unwrap()));
                    return Err(unreadable);
                },
            }
            i = i + 1;
        }
        assert(grid_readable(*doc));
        if view_count < 2 {
            let mut m = String::from_str("关卡 ");
            m.append(stage_id.as_str());
            m.append(" 的 view 只有 ");
            text::push_decimal_u64(&mut m, view_count as u64);
            m.append(" 项，至少需要 2 项（正常视角 + 侧视角）");
            return Err(LevelError::Malformed(m));
        }
        let count = tiles.len();
        let mut fits = height >= 0 && count == height as usize;
        let mut j: usize = 0;
        while j < tiles.len()
            invariant
                j <= tiles@.len(),
                fits ==> tiles@.len() == height as int,
                fits ==> forall|k: int| 0 <= k < j ==> (#[trigger] tiles@[k])@.len() == width as int,
                !fits ==> !(tiles@.len() == height as int && forall|k: int| 0 <= k < tiles@.len() ==> (#[trigger] tiles@[k])@.len() == width as int),
            decreases tiles@.len() - j,
        {
            if width < 0 || tiles[j].len() != width as usize {
                assert(tiles@[j as int]@.len() != width as int);
                fits = false;
            }
            j = j + 1;
        }
        proof {
            assert(doc_rows(*doc) == rows@);
            assert forall|k: int| 0 <= k < tiles@.len() implies (#[trigger] tiles@[k])@.len() == doc_rows(*doc)[k].items().unwrap().len() by {}
            if fits {
                assert forall|k: int| 0 <= k < doc_rows(*doc).len() implies (#[trigger] doc_rows(*doc)[k]).items().unwrap().len() == width as int by {
                    assert(tiles@[k]@.len() == width as int);
                }
                assert(rows_fit(*doc));
            } else if rows_fit(*doc) {
                assert forall|k: int| 0 <= k < tiles@.len() implies (#[trigger] tiles@[k])@.len() == width as int by {
                    assert(doc_rows(*doc)[k].items().unwrap().len() == width as int);
                }
            }
        }
        if !fits {
            let mut m = String::from_str("关卡 ");
            m.append(stage_id.as_str());
            m.append(" 的 tiles 尺寸与 ");
            text::push_decimal_i64(&mut m, width as i64);
            m.append("×");
            text::push_decimal_i64(&mut m, height as i64);
            m.append(" 不符");
            return Err(LevelError::Malformed(m));
        }
        let g = LevelGrid { key: LevelKey { stage_id, code, level_id, name }, width, height, tiles };
        proof {
            assert(g.cells().len() == g.tiles@.len());
            assert forall|a: int| 0 <= a < g.cells().len() implies (#[trigger] g.cells()[a]).len() == g.grid_width() as int by {
                assert(g.cells()[a] == g.tiles@[a]@);
            }
            assert forall|a: int, b: int|
                0 <= a < g.cells().len() && 0 <= b < g.cells()[a].len() implies Some(#[trigger] g.cells()[a][b])
                    == tile_of(doc_rows(*doc)[a].items().unwrap()[b]) by {
                assert(g.cells()[a] == g.tiles@[a]@);
            }
        }
        Ok(g)
    }
}


/// Every point [`LevelGrid::locations`] lists lies in the grid, so the grid has a tile
/// there; and there are `width × height` of them.
pub proof fn lemma_locations_are_tiles(width: int, height: int)
    requires
        i32::MIN <= width <= i32::MAX,
        0 <= height <= i32::MAX,
    ensures
        forall|i: int|
            0 <= i < grid_points(width, height).len() ==> 0 <= (#[trigger] grid_points(width, height)[i]).x
                < width && 0 <= grid_points(width, height)[i].y < height,
        grid_points(width, height).len() == height * if width > 0 { width } else { 0 },
    decreases height,
{
    if height > 0 {
        lemma_locations_are_tiles(width, height - 1);
        let before = grid_points(width, height - 1);
        let row = row_points(height - 1, width);
        assert forall|i: int| 0 <= i < grid_points(width, height).len() implies 0 <= (#[trigger] grid_points(width, height)[i]).x
            < width && 0 <= grid_points(width, height)[i].y < height by {
            if i < before.len() {
                assert(grid_points(width, height)[i] == before[i]);
            } else {
                assert(grid_points(width, height)[i] == row[i - before.len()]);
            }
        }
        assert(grid_points(width, height).len() == before.len() + row.len());
        assert((height - 1) * (if width > 0 { width } else { 0 }) + (if width > 0 { width } else { 0 }) == height * (if width > 0 { width } else { 0 })) by (nonlinear_arith);
    }
}

} // verus!
