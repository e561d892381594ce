//! Stage map data (`Arknights-Tile-Pos`).
//!
//! `overview.json` indexes the stages; each stage's map is a JSON file of its own. The
//! index is small and read whole at start-up; stage files are read when needed. The
//! map files hold camera positions in floating point and are read by the application;
//! this module holds the tile vocabulary and the index.
use vstd::prelude::*;
use std::path::PathBuf;

use crate::json::{self, JsonError, JsonValue};
use crate::names::{self, NameMap};
use crate::text;

verus! {

#[verifier::external_type_specification]
#[verifier::external_body]
pub struct ExPathBuf(PathBuf);

/// Tile kind; values as in MAA's `TilePack::TileKey`.
#[derive(Clone, Copy, Debug, Default, PartialEq, Eq, Structural)]
pub enum TileKey {
    #[default]
    Invalid,
    /// No operator may stand here and no enemy walks here.
    Forbidden,
    /// High ground.
    Wall,
    /// Ground that enemies walk.
    Road,
    /// Blue gate.
    Home,
    /// Red gate.
    EnemyHome,
    /// Green gate.
    Green,
    /// Drone start.
    Airport,
    /// No operator may stand here, but enemies walk here.
    Floor,
    /// Airborne drop point.
    Hole,
    Telin,
    Telout,
    Grass,
    DeepSea,
    Volcano,
    Healing,
    Fence,
    Infection,
}

/// The kind named by a map file's `tileKey`.
pub open spec fn tile_key_from(raw: Seq<char>) -> TileKey {
    if raw == "tile_forbidden"@ {
        TileKey::Forbidden
    } else if raw == "tile_wall"@ {
        TileKey::Wall
    } else if raw == "tile_road"@ {
        TileKey::Road
    } else if raw == "tile_end"@ {
        TileKey::Home
    } else if raw == "tile_start"@ {
        TileKey::EnemyHome
    } else if raw == "tile_green"@ {
        TileKey::Green
    } else if raw == "tile_flystart"@ {
        TileKey::Airport
    } else if raw == "tile_floor"@ {
        TileKey::Floor
    } else if raw == "tile_hole"@ {
        TileKey::Hole
    } else if raw == "tile_telin"@ {
        TileKey::Telin
    } else if raw == "tile_telout"@ {
        TileKey::Telout
    } else if raw == "tile_grass"@ {
        TileKey::Grass
    } else if raw == "tile_deepsea"@ || raw == "tile_deepwater"@ {
        TileKey::DeepSea
    } else if raw == "tile_volcano"@ {
        TileKey::Volcano
    } else if raw == "tile_healing"@ {
        TileKey::Healing
    } else if raw == "tile_fence"@ || raw == "tile_fence_bound"@ {
        TileKey::Fence
    } else if raw == "tile_infection"@ {
        TileKey::Infection
    } else {
        TileKey::Invalid
    }
}

impl TileKey {
    /// Reads a `tileKey`; an unknown one is `Invalid`.
    pub fn parse(raw: &str) -> (k: Self)
        ensures
            k == tile_key_from(raw@),
    {
        if text::str_eq(raw, "tile_forbidden") {
            TileKey::Forbidden
        } else if text::str_eq(raw, "tile_wall") {
            TileKey::Wall
        } else if text::str_eq(raw, "tile_road") {
            TileKey::Road
        } else if text::str_eq(raw, "tile_end") {
            TileKey::Home
        } else if text::str_eq(raw, "tile_start") {
            TileKey::EnemyHome
        } else if text::str_eq(raw, "tile_green") {
            TileKey::Green
        } else if text::str_eq(raw, "tile_flystart") {
            TileKey::Airport
        } else if text::str_eq(raw, "tile_floor") {
            TileKey::Floor
        } else if text::str_eq(raw, "tile_hole") {
            TileKey::Hole
        } else if text::str_eq(raw, "tile_telin") {
            TileKey::Telin
        } else if text::str_eq(raw, "tile_telout") {
            TileKey::Telout
        } else if text::str_eq(raw, "tile_grass") {
            TileKey::Grass
        } else if text::str_eq(raw, "tile_deepsea") || text::str_eq(raw, "tile_deepwater") {
            TileKey::DeepSea
        } else if text::str_eq(raw, "tile_volcano") {
            TileKey::Volcano
        } else if text::str_eq(raw, "tile_healing") {
            TileKey::Healing
        } else if text::str_eq(raw, "tile_fence") || text::str_eq(raw, "tile_fence_bound") {
            TileKey::Fence
        } else if text::str_eq(raw, "tile_infection") {
            TileKey::Infection
        } else {
            TileKey::Invalid
        }
    }

    /// Blue or red gate: a gate projected off the screen marks a multi-stage map.
    pub fn is_gate(self) -> (b: bool)
        ensures
            b == (self == TileKey::Home || self == TileKey::EnemyHome),
    {
        match self {
            TileKey::Home | TileKey::EnemyHome => true,
            _ => false,
        }
    }
}

/// Deploy slot kind; the numbers of MAA's `battle::LocationType` are given per variant.
#[derive(Clone, Copy, Debug, Default, PartialEq, Eq, Structural)]
pub enum Buildable {
    /// -1
    Invalid,
    /// 0: no operator may be deployed here.
    #[default]
    Unbuildable,
    /// 1: melee (ground) operators only.
    Melee,
    /// 2: ranged (high ground) operators only.
    Ranged,
    /// 3
    All,
}

/// The slot kind numbered `v`.
pub open spec fn buildable_from(v: i64) -> Buildable {
    if v == 0 {
        Buildable::Unbuildable
    } else if v == 1 {
        Buildable::Melee
    } else if v == 2 {
        Buildable::Ranged
    } else if v == 3 {
        Buildable::All
    } else {
        Buildable::Invalid
    }
}

impl Buildable {
    pub fn from_i64(v: i64) -> (b: Self)
        ensures
            b == buildable_from(v),
    {
        if v == 0 {
            Buildable::Unbuildable
        } else if v == 1 {
            Buildable::Melee
        } else if v == 2 {
            Buildable::Ranged
        } else if v == 3 {
            Buildable::All
        } else {
            Buildable::Invalid
        }
    }
}

/// One map tile.
#[derive(Clone, Copy, Debug, PartialEq, Eq, Structural)]
pub struct Tile {
    /// Height kind, used as is for the world z: `z = height_type * -0.4`. Measured:
    /// 0 is ground (`tile_road`), 1 is high ground (`tile_wall`); MAA's enum names have
    /// them the other way round, which is why the raw number is kept.
    pub height_type: i64,
    pub buildable: Buildable,
    pub key: TileKey,
}

/// A stage's identifiers; any one of them names the stage (MAA's `LevelKey::match`).
#[derive(Clone, Debug, Default, PartialEq, Eq)]
pub struct LevelKey {
    pub stage_id: String,
    pub code: String,
    pub level_id: String,
    pub name: String,
}

/// Whether `key` is one of the stage's identifiers (the empty text names nothing).
pub open spec fn key_matches(k: LevelKey, key: Seq<char>) -> bool {
    key.len() > 0 && (k.stage_id@ == key || k.code@ == key || k.level_id@ == key || k.name@
        == key)
}

impl LevelKey {
    /// See [`key_matches`].
    pub fn matches(&self, key: &str) -> (b: bool)
        ensures
            b == key_matches(*self, key@),
    {
        key.unicode_len() > 0 && (text::str_eq(self.stage_id.as_str(), key) || text::str_eq(
            self.code.as_str(),
            key,
        ) || text::str_eq(self.level_id.as_str(), key) || text::str_eq(self.name.as_str(), key))
    }
}

/// One entry of `overview.json`.
#[derive(Clone, Debug, PartialEq)]
pub struct LevelSummary {
    pub key: LevelKey,
    pub filename: String,
    pub width: i32,
    pub height: i32,
}

/// Why stage data could not be had.
#[derive(Debug)]
pub enum LevelError {
    /// Reading a file failed: the path and the reason.
    Io(String, String),
    /// The JSON could not be read.
    Parse(JsonError),
    /// The data does not have the expected shape.
    Malformed(String),
    /// No index entry names the stage.
    UnknownStage(String),
}

/// The user-facing explanation of a stage data error.
pub open spec fn level_error_message(e: LevelError) -> Seq<char> {
    match e {
        LevelError::Io(path, reason) => "读取 "@ + path@ + " 失败："@ + reason@,
        LevelError::Parse(j) => "解析关卡 JSON 失败："@ + j.message@,
        LevelError::Malformed(m) => "关卡数据格式不对："@ + m@,
        LevelError::UnknownStage(k) => "在 Arknights-Tile-Pos 索引里找不到关卡「"@ + k@ + "」"@,
    }
}

impl LevelError {
    /// See [`level_error_message`].
    pub fn message(&self) -> (s: String)
        ensures
            s@ == level_error_message(*self),
    {
        match self {
            LevelError::Io(path, reason) => {
                let mut s = String::from_str("读取 ");
                s.append(path.as_str());
                s.append(" 失败：");
                s.append(reason.as_str());
                s
            },
            LevelError::Parse(j) => {
                let mut s = String::from_str("解析关卡 JSON 失败：");
                s.append(j.message.as_str());
                s
            },
            LevelError::Malformed(m) => {
                let mut s = String::from_str("关卡数据格式不对：");
                s.append(m.as_str());
                s
            },
            LevelError::UnknownStage(k) => {
                let mut s = String::from_str("在 Arknights-Tile-Pos 索引里找不到关卡「");
                s.append(k.as_str());
                s.append("」");
                s
            },
        }
    }
}

// ---------------------------------------------------------------------------
// Reading the index.
// ---------------------------------------------------------------------------

/// Whether `v` is an index entry: an object with a string `filename`, optional string
/// identifiers and optional integer `width` / `height`.
pub open spec fn summary_readable(v: JsonValue) -> bool {
    &&& v is Object
    &&& json::default_text(v, "stageId"@) is Some
    &&& json::default_text(v, "code"@) is Some
    &&& json::default_text(v, "levelId"@) is Some
    &&& json::default_text(v, "name"@) is Some
    &&& v.field("filename"@) is Some && v.field("filename"@)->0.text() is Some
    &&& json::default_i32(v, "width"@) is Some
    &&& json::default_i32(v, "height"@) is Some
}

/// Whether `s` is the entry `v` describes.
pub open spec fn summary_matches(v: JsonValue, s: LevelSummary) -> bool {
    &&& json::default_text(v, "stageId"@) == Some(s.key.stage_id@)
    &&& json::default_text(v, "code"@) == Some(s.key.code@)
    &&& json::default_text(v, "levelId"@) == Some(s.key.level_id@)
    &&& json::default_text(v, "name"@) == Some(s.key.name@)
    &&& v.field("filename"@)->0.text() == Some(s.filename@)
    &&& json::default_i32(v, "width"@) == Some(s.width)
    &&& json::default_i32(v, "height"@) == Some(s.height)
}

/// The members of an object by name; a name given twice keeps its last value.
pub open spec fn members_by_name(members: Seq<(String, JsonValue)>) -> Map<Seq<char>, JsonValue>
    decreases members.len(),
{
    if members.len() == 0 {
        Map::empty()
    } else {
        members_by_name(members.drop_last()).insert(members.last().0@, members.last().1)
    }
}

/// Whether every member of `members` is an index entry.
pub open spec fn all_summaries_readable(members: Seq<(String, JsonValue)>) -> bool {
    forall|i: int| 0 <= i < members.len() ==> summary_readable(#[trigger] members[i].1)
}

/// Whether `entries` are the index `members` describe: one entry per name, in ascending
/// name order, each read from the name's (last) value.
pub open spec fn index_holds(entries: Seq<(String, LevelSummary)>, members: Seq<(String, JsonValue)>) -> bool {
    let by_name = members_by_name(members);
    &&& names::names_ascending(entries)
    &&& names::entry_map(entries).dom() == by_name.dom()
    &&& forall|i: int|
        0 <= i < entries.len() ==> summary_matches(by_name[(#[trigger] entries[i]).0@], entries[i].1)
}

fn read_summary(v: &JsonValue) -> (r: Option<LevelSummary>)
    ensures
        match r {
            Some(s) => summary_readable(*v) && summary_matches(*v, s),
            None => !summary_readable(*v),
        },
{
    if !v.is_object() {
        return None;
    }
    let stage_id = match json::read_default_text(v, "stageId") {
        Some(t) => t,
        None => return None,
    };
    let code = match json::read_default_text(v, "code") {
        Some(t) => t,
        None => return None,
    };
    let level_id = match json::read_default_text(v, "levelId") {
        Some(t) => t,
        None => return None,
    };
    let name = match json::read_default_text(v, "name") {
        Some(t) => t,
        None => return None,
    };
    let filename = match v.get("filename") {
        Some(f) => match f.as_str() {
            Some(t) => t.to_string(),
            None => return None,
        },
        None => return None,
    };
    let width = match json::read_default_i32(v, "width") {
        Some(x) => x,
        None => return None,
    };
    let height = match json::read_default_i32(v, "height") {
        Some(x) => x,
        None => return None,
    };
    Some(LevelSummary { key: LevelKey { stage_id, code, level_id, name }, filename, width, height })
}

/// The summaries held by `entries`, in order.
pub open spec fn summaries_of(entries: Seq<(String, LevelSummary)>) -> Seq<LevelSummary> {
    entries.map_values(|e: (String, LevelSummary)| e.1)
}

/// The index entries that `key` names, in order.
pub open spec fn matching(sums: Seq<LevelSummary>, key: Seq<char>) -> Seq<LevelSummary>
    decreases sums.len(),
{
    if sums.len() == 0 {
        Seq::empty()
    } else {
        let before = matching(sums.drop_last(), key);
        if key_matches(sums.last().key, key) {
            before.push(sums.last())
        } else {
            before
        }
    }
}

/// Whether a search for the lower-cased `needle` finds `s`: it occurs in the lower-cased
/// stage id, code or name.
pub open spec fn search_finds(s: LevelSummary, needle: Seq<char>) -> bool {
    text::occurs_in(needle, text::lowercase(s.key.stage_id@)) || text::occurs_in(
        needle,
        text::lowercase(s.key.code@),
    ) || text::occurs_in(needle, text::lowercase(s.key.name@))
}

/// The index entries a search for the lower-cased `needle` finds, in order.
pub open spec fn search_hits(sums: Seq<LevelSummary>, needle: Seq<char>) -> Seq<LevelSummary>
    decreases sums.len(),
{
    if sums.len() == 0 {
        Seq::empty()
    } else {
        let before = search_hits(sums.drop_last(), needle);
        if search_finds(sums.last(), needle) {
            before.push(sums.last())
        } else {
            before
        }
    }
}

/// A search finds exactly the entries whose stage id, code or name contains the
/// (lower-cased) needle once lower-cased, and keeps their index order.
pub proof fn lemma_search_hits_are_the_matching_entries(sums: Seq<LevelSummary>, needle: Seq<char>)
    ensures
        forall|s: LevelSummary|
            #[trigger] search_hits(sums, needle).contains(s) <==> (sums.contains(s) && (text::occurs_in(
                needle,
                text::lowercase(s.key.stage_id@),
            ) || text::occurs_in(needle, text::lowercase(s.key.code@)) || text::occurs_in(
                needle,
                text::lowercase(s.key.name@),
            ))),
        search_hits(sums, needle).len() <= sums.len(),
    decreases sums.len(),
{
    if sums.len() > 0 {
        let d = sums.drop_last();
        lemma_search_hits_are_the_matching_entries(d, needle);
        assert forall|s: LevelSummary| #[trigger] search_hits(sums, needle).contains(s) <==> (
        sums.contains(s) && search_finds(s, needle)) by {
            assert(sums =~= d.push(sums.last()));
            if sums.contains(s) {
                let i = choose|i: int| 0 <= i < sums.len() && sums[i] == s;
                if i < d.len() {
                    assert(d[i] == s);
                }
            }
            if d.contains(s) {
                let i = choose|i: int| 0 <= i < d.len() && d[i] == s;
                assert(sums[i] == s);
            }
            if search_finds(sums.last(), needle) {
                let h = search_hits(d, needle);
                if h.push(sums.last()).contains(s) {
                    let i = choose|i: int| 0 <= i < h.len() + 1 && h.push(sums.last())[i] == s;
                    if i < h.len() {
                        assert(h[i] == s);
                    }
                }
                if h.contains(s) {
                    let i = choose|i: int| 0 <= i < h.len() && h[i] == s;
                    assert(h.push(sums.last())[i] == s);
                }
                assert(h.push(sums.last())[h.len() as int] == sums.last());
            }
        }
    }
}

/// The index of the first entry that `key` names, among entries `i..`.
pub open spec fn first_match(sums: Seq<LevelSummary>, key: Seq<char>, i: int) -> Option<int>
    decreases sums.len() - i,
{
    if i < 0 || i >= sums.len() {
        None
    } else if key_matches(sums[i].key, key) {
        Some(i)
    } else {
        first_match(sums, key, i + 1)
    }
}

proof fn lemma_first_match_range(sums: Seq<LevelSummary>, key: Seq<char>, j: int)
    ensures
        first_match(sums, key, j) matches Some(i) ==> 0 <= j <= i < sums.len() && key_matches(
            sums[i].key,
            key,
        ),
    decreases sums.len() - j,
{
    if 0 <= j < sums.len() && !key_matches(sums[j].key, key) {
        lemma_first_match_range(sums, key, j + 1);
    }
}

proof fn lemma_first_match_drop_last(sums: Seq<LevelSummary>, key: Seq<char>, j: int)
    requires
        sums.len() > 0,
        0 <= j <= sums.len(),
    ensures
        first_match(sums, key, j) == match first_match(sums.drop_last(), key, j) {
            Some(i) => Some(i),
            None => if j <= sums.len() - 1 && key_matches(sums.last().key, key) {
                Some(sums.len() - 1)
            } else {
                None
            },
        },
    decreases sums.len() - j,
{
    let d = sums.drop_last();
    if j < sums.len() - 1 {
        assert(d[j] == sums[j]);
        lemma_first_match_drop_last(sums, key, j + 1);
        if key_matches(sums[j].key, key) {
            assert(first_match(sums, key, j) == Some(j));
            assert(first_match(d, key, j) == Some(j));
        } else {
            assert(first_match(sums, key, j) == first_match(sums, key, j + 1));
            assert(first_match(d, key, j) == first_match(d, key, j + 1));
        }
    } else if j == sums.len() - 1 {
        assert(first_match(d, key, j) is None);
        assert(sums.last() == sums[j]);
        if !key_matches(sums[j].key, key) {
            assert(first_match(sums, key, j) == first_match(sums, key, j + 1));
        }
    } else {
        assert(first_match(d, key, j) is None);
    }
}

/// [`LevelPack::find`] gives the first of what [`LevelPack::find_all`] gives, and
/// nothing exactly when that is empty.
pub proof fn lemma_find_is_first_of_find_all(sums: Seq<LevelSummary>, key: Seq<char>)
    ensures
        match first_match(sums, key, 0) {
            Some(i) => matching(sums, key).len() > 0 && matching(sums, key)[0] == sums[i],
            None => matching(sums, key).len() == 0,
        },
    decreases sums.len(),
{
    if sums.len() > 0 {
        let d = sums.drop_last();
        lemma_find_is_first_of_find_all(d, key);
        lemma_first_match_drop_last(sums, key, 0);
        let before = matching(d, key);
        assert(matching(sums, key) == if key_matches(sums.last().key, key) {
            before.push(sums.last())
        } else {
            before
        });
        match first_match(d, key, 0) {
            Some(i) => {
                lemma_first_match_range(d, key, 0);
                assert(d[i] == sums[i]);
                assert(matching(sums, key)[0] == before[0]);
            },
            None => {
                assert(sums.last() == sums[sums.len() - 1]);
            },
        }
    }
}

/// The stage index, with the directory the stage files are read from.
#[derive(Debug)]
pub struct LevelPack {
    dir: PathBuf,
    entries: Vec<(String, LevelSummary)>,
}

impl LevelPack {
    /// The index entries, in ascending order of their index names.
    pub closed spec fn summaries(&self) -> Seq<LevelSummary> {
        summaries_of(self.entries@)
    }

    /// The directory the index was read from.
    pub closed spec fn directory(&self) -> PathBuf {
        self.dir
    }

    /// The directory that holds the index and the stage files.
    pub fn dir(&self) -> (d: &PathBuf)
        ensures
            *d == self.directory(),
    {
        &self.dir
    }

    /// Reads the index out of a parsed `overview.json`: an object from index names to
    /// entries. The entries are kept in ascending name order; a document that is not
    /// such an object is a parse error, one without entries is malformed.
    pub fn from_overview(dir: PathBuf, doc: &JsonValue) -> (r: Result<Self, LevelError>)
        ensures
            match doc {
                JsonValue::Object(members) => if !all_summaries_readable(members@) {
                    r matches Err(LevelError::Parse(_))
                } else if members@.len() == 0 {
                    r matches Err(LevelError::Malformed(m)) && m@ == "overview.json 里没有任何关卡"@
                } else {
                    r matches Ok(pack) && pack.directory() == dir && exists|e: Seq<(String, LevelSummary)>|
                        index_holds(e, members@) && pack.summaries() == summaries_of(e)
                },
                _ => r matches Err(LevelError::Parse(_)),
            },
    {
        let members = match doc {
            JsonValue::Object(members) => members,
            _ => {
                return Err(
                    LevelError::Parse(
                        JsonError { message: String::from_str("overview.json 不是 JSON 对象") },
                    ),
                );
            },
        };
        let mut index: NameMap<LevelSummary> = NameMap::new();
        let mut i: usize = 0;
        assert(members@.subrange(0, 0) =~= Seq::<(String, JsonValue)>::empty());
        while i < members.len()
            invariant
                *doc == JsonValue::Object(*members),
                i <= members@.len(),
                index.wf(),
                all_summaries_readable(members@.subrange(0, i as int)),
                index@.dom() == members_by_name(members@.subrange(0, i as int)).dom(),
                forall|k: Seq<char>|
                    #[trigger] index@.dom().contains(k) ==> summary_matches(
                        members_by_name(members@.subrange(0, i as int))[k],
                        index@[k],
                    ),
            decreases members@.len() - i,
        {
            let ghost prefix = members@.subrange(0, i as int);
            let ghost next = members@.subrange(0, i + 1);
            assert(next.drop_last() =~= prefix);
            match read_summary(&members[i].1) {
                Some(s) => {
                    let ghost before = index@;
                    index.insert(members[i].0.clone(), s);
                    assert(all_summaries_readable(next)) by {
                        assert forall|j: int| 0 <= j < next.len() implies summary_readable(
                            #[trigger] next[j].1,
                        ) by {
                            if j < i {
                                assert(next[j] == prefix[j]);
                            }
                        }
                    }
                    assert(index@.dom() =~= members_by_name(next).dom());
                    assert forall|k: Seq<char>| #[trigger] index@.dom().contains(k) implies summary_matches(
                        members_by_name(next)[k],
                        index@[k],
                    ) by {
                        if k != members@[i as int].0@ {
                            assert(before.dom().contains(k));
                        }
                    }
                },
                None => {
                    assert(!all_summaries_readable(members@)) by {
                        assert(!summary_readable(members@[i as int].1));
                    }
                    return Err(
                        LevelError::Parse(
                            JsonError {
                                message: String::from_str("overview.json 里有字段类型不对的关卡条目"),
                            },
                        ),
                    );
                },
            }
            i = i + 1;
        }
        assert(members@.subrange(0, i as int) =~= members@);
        if members.len() == 0 {
            return Err(LevelError::Malformed(String::from_str("overview.json 里没有任何关卡")));
        }
        let entries = index.into_entries();
        let ghost e = entries@;
        assert(index_holds(e, members@)) by {
            assert forall|j: int| 0 <= j < e.len() implies summary_matches(
                members_by_name(members@)[(#[trigger] e[j]).0@],
                e[j].1,
            ) by {
                names::lemma_entry_at(e, j);
            }
        }
        let pack = LevelPack { dir, entries };
        assert(pack.summaries() == summaries_of(e));
        Ok(pack)
    }

    /// Parses `overview.json` text and reads the index; see [`LevelPack::from_overview`].
    pub fn from_overview_json(dir: PathBuf, text: &str) -> (r: Result<Self, LevelError>)
        ensures
            match json::json_document(text@) {
                Err(e) => r == Err::<Self, LevelError>(LevelError::Parse(e)),
                Ok(JsonValue::Object(members)) => if !all_summaries_readable(members@) {
                    r matches Err(LevelError::Parse(_))
                } else if members@.len() == 0 {
                    r matches Err(LevelError::Malformed(_))
                } else {
                    r matches Ok(pack) && pack.directory() == dir && exists|e: Seq<(String, LevelSummary)>|
                        index_holds(e, members@) && pack.summaries() == summaries_of(e)
                },
                Ok(_) => r matches Err(LevelError::Parse(_)),
            },
    {
        match json::parse_json(text) {
            Ok(doc) => LevelPack::from_overview(dir, &doc),
            Err(e) => Err(LevelError::Parse(e)),
        }
    }

    /// The number of index entries.
    pub fn len(&self) -> (n: usize)
        ensures
            n == self.summaries().len(),
    {
        self.entries.len()
    }

    pub fn is_empty(&self) -> (b: bool)
        ensures
            b == (self.summaries().len() == 0),
    {
        self.entries.len() == 0
    }

    /// The first entry that `key` names by stage id, code, level id or name.
    pub fn find(&self, key: &str) -> (r: Option<&LevelSummary>)
        ensures
            match first_match(self.summaries(), key@, 0) {
                Some(i) => r matches Some(s) && *s == self.summaries()[i],
                None => r is None,
            },
    {
        let ghost sums = self.summaries();
        let mut i: usize = 0;
        while i < self.entries.len()
            invariant
                sums == summaries_of(self.entries@),
                i <= self.entries@.len(),
                first_match(sums, key@, 0) == first_match(sums, key@, i as int),
            decreases self.entries@.len() - i,
        {
            if self.entries[i].1.key.matches(key) {
                return Some(&self.entries[i].1);
            }
            i = i + 1;
        }
        None
    }

    /// Every entry that `key` names, in order. A stage number often names several
    /// stage ids (main stages have a `#f#` variant with the same code); listing all of
    /// them lets the caller warn about the ambiguity.
    pub fn find_all(&self, key: &str) -> (r: Vec<&LevelSummary>)
        ensures
            r@.map_values(|s: &LevelSummary| *s) == matching(self.summaries(), key@),
    {
        let ghost sums = self.summaries();
        let mut out: Vec<&LevelSummary> = Vec::new();
        let mut i: usize = 0;
        assert(sums.subrange(0, 0) =~= Seq::<LevelSummary>::empty());
        while i < self.entries.len()
            invariant
                sums == summaries_of(self.entries@),
                i <= self.entries@.len(),
                out@.map_values(|s: &LevelSummary| *s) == matching(sums.subrange(0, i as int), key@),
            decreases self.entries@.len() - i,
        {
            let ghost before = out@.map_values(|s: &LevelSummary| *s);
            assert(sums.subrange(0, i + 1).drop_last() =~= sums.subrange(0, i as int));
            let s = &self.entries[i].1;
            if s.key.matches(key) {
                out.push(s);
                assert(out@.map_values(|s: &LevelSummary| *s) =~= before.push(*s));
            }
            i = i + 1;
        }
        assert(sums.subrange(0, i as int) =~= sums);
        out
    }

    /// The first `limit` entries whose stage id, code or name contains `needle`,
    /// ignoring case (for the stage picker).
    pub fn search(&self, needle: &str, limit: usize) -> (r: Vec<&LevelSummary>)
        ensures
            ({
                let hits = search_hits(self.summaries(), text::lowercase(needle@));
                r@.map_values(|s: &LevelSummary| *s) == hits.take(
                    if limit < hits.len() {
                        limit as int
                    } else {
                        hits.len() as int
                    },
                )
            }),
    {
        let needle = text::to_lowercase(needle);
        let ghost sums = self.summaries();
        let mut out: Vec<&LevelSummary> = Vec::new();
        let mut i: usize = 0;
        assert(sums.subrange(0, 0) =~= Seq::<LevelSummary>::empty());
        while i < self.entries.len() && out.len() < limit
            invariant
                sums == summaries_of(self.entries@),
                i <= self.entries@.len(),
                out@.len() <= limit,
                out@.map_values(|s: &LevelSummary| *s) == search_hits(
                    sums.subrange(0, i as int),
                    needle@,
                ),
            decreases self.entries@.len() - i,
        {
            let ghost before = out@.map_values(|s: &LevelSummary| *s);
            assert(sums.subrange(0, i + 1).drop_last() =~= sums.subrange(0, i as int));
            let s = &self.entries[i].1;
            let id = text::to_lowercase(s.key.stage_id.as_str());
            let code = text::to_lowercase(s.key.code.as_str());
            let name = text::to_lowercase(s.key.name.as_str());
            if text::contains(id.as_str(), needle.as_str()) || text::contains(
                code.as_str(),
                needle.as_str(),
            ) || text::contains(name.as_str(), needle.as_str()) {
                out.push(s);
                assert(out@.map_values(|s: &LevelSummary| *s) =~= before.push(*s));
            }
            i = i + 1;
        }
        proof {
            lemma_search_hits_prefix(sums, needle@, i as int);
            let all = search_hits(sums, needle@);
            if out@.len() < limit {
                assert(sums.subrange(0, i as int) =~= sums);
            }
        }
        out
    }
}

/// Hits among a prefix are a prefix of all hits; once the prefix holds `n` hits, the
/// first `n` hits are those.
proof fn lemma_search_hits_prefix(sums: Seq<LevelSummary>, needle: Seq<char>, i: int)
    requires
        0 <= i <= sums.len(),
    ensures
        search_hits(sums.subrange(0, i), needle).len() <= search_hits(sums, needle).len(),
        search_hits(sums.subrange(0, i), needle) == search_hits(sums, needle).take(
            search_hits(sums.subrange(0, i), needle).len() as int,
        ),
    decreases sums.len() - i,
{
    if i == sums.len() {
        assert(sums.subrange(0, i) =~= sums);
        assert(search_hits(sums, needle).take(search_hits(sums, needle).len() as int) =~= search_hits(
            sums,
            needle,
        ));
    } else {
        lemma_search_hits_prefix(sums, needle, i + 1);
        let short = search_hits(sums.subrange(0, i), needle);
        let long = search_hits(sums.subrange(0, i + 1), needle);
        assert(sums.subrange(0, i + 1).drop_last() =~= sums.subrange(0, i));
        let all = search_hits(sums, needle);
        if long.len() == short.len() + 1 {
            assert(short =~= long.take(short.len() as int));
        }
        assert(all.take(short.len() as int) =~= all.take(long.len() as int).take(short.len() as int));
    }
}

} // verus!
