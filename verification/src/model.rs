//! The tile data model: one decoded map record, its derived world-space
//! geometry, and its rendering through a palette.

use crate::error::Error;
use crate::error::ErrorKind;
use crate::nbt::NbtValue;
use crate::nbt::field;
use crate::nbt::spec_field;
use crate::strutil::find_char;
use crate::strutil::lemma_find_found;
use crate::strutil::lemma_find_none;
use crate::strutil::replace_char;
use crate::strutil::spec_contains;
use crate::strutil::spec_find;
use crate::strutil::spec_replace;
use crate::strutil::str_contains;
use crate::strutil::str_eq;
use crate::palette::Palette;
use crate::palette::Rgba;
use crate::raster::Raster;
use vstd::arithmetic::div_mod::lemma_div_is_ordered;
use vstd::arithmetic::div_mod::lemma_mod_bound;
use vstd::arithmetic::power2::lemma2_to64;
use vstd::arithmetic::power2::pow2;
use vstd::prelude::*;
use vstd::string::StrSliceExecFns;

verus! {

/// The sixteen dye colors a banner marker can have.
#[derive(Clone, Copy, Debug, PartialEq, Eq, Structural)]
pub enum BannerColor {
    Black,
    Blue,
    Brown,
    Cyan,
    Gray,
    Green,
    LightBlue,
    LightGray,
    Lime,
    Magenta,
    Orange,
    Pink,
    Purple,
    Red,
    White,
    Yellow,
}

/// A block position in the world.
#[derive(Clone, Copy, Debug, PartialEq, Eq, Structural)]
pub struct Pos {
    pub x: i32,
    pub y: i32,
    pub z: i32,
}

/// A banner marker: a color, an optional JSON-encoded display name, and a
/// world position.
#[derive(Debug)]
pub struct Banner {
    pub color: BannerColor,
    pub name: Option<String>,
    pub pos: Pos,
}

/// A picture-frame marker: an entity id, a rotation in degrees, and a
/// world position.
#[derive(Clone, Copy, Debug, PartialEq, Eq, Structural)]
pub struct Marker {
    pub entity_id: i32,
    pub rotation: i32,
    pub pos: Pos,
}

/// The payload of one map record.
#[derive(Debug)]
pub struct MapData {
    /// Zoom exponent, `0..=4`: one pixel covers `2^scale` blocks per axis.
    pub scale: i8,
    /// The world partition the map belongs to, as a canonical string: a
    /// namespaced identifier in modern saves, or the decimal legacy code.
    pub dimension: String,
    /// Nonzero: show a position arrow when the player is near the center.
    pub tracking_position: i8,
    /// Nonzero: keep showing an edge dot however far the player is.
    pub unlimited_tracking: i8,
    /// Nonzero: the map was locked in a cartography table.
    pub locked: i8,
    /// World X coordinate of the map center.
    pub x_center: i32,
    /// World Z coordinate of the map center.
    pub z_center: i32,
    /// Banner markers; may be empty.
    pub banners: Vec<Banner>,
    /// Frame markers; may be empty.
    pub frames: Vec<Marker>,
    /// Stored palette indices, row-major, top to bottom and left to right;
    /// a full map holds exactly `128 * 128 == 16384` of them.
    pub colors: Vec<u8>,
}

/// One whole record: the payload, the save-format version, and the file it
/// came from (provenance only, not part of the persisted record).
#[derive(Debug)]
pub struct MapItem {
    pub file: String,
    pub data: MapData,
    pub data_version: i32,
}

/// The world distance one pixel covers at `scale`: `2^scale` blocks.
pub open spec fn spec_scale_factor(scale: int) -> int
    recommends
        0 <= scale <= 4,
{
    pow2(scale as nat) as int
}

pub(crate) fn scale_factor(scale: i8) -> (s: i64)
    requires
        0 <= scale <= 4,
    ensures
        s == spec_scale_factor(scale as int),
        1 <= s <= 16,
{
    proof {
        lemma2_to64();
    }
    if scale == 0 {
        1
    } else if scale == 1 {
        2
    } else if scale == 2 {
        4
    } else if scale == 3 {
        8
    } else {
        16
    }
}

/// World X of the leftmost pixel column.
pub open spec fn spec_left(m: MapData) -> int {
    m.x_center - 64 * spec_scale_factor(m.scale as int)
}

/// World Z of the topmost pixel row.
pub open spec fn spec_top(m: MapData) -> int {
    m.z_center - 64 * spec_scale_factor(m.scale as int)
}

/// World X of the rightmost pixel column.
pub open spec fn spec_right(m: MapData) -> int {
    m.x_center + 64 * spec_scale_factor(m.scale as int) - 1
}

/// World Z of the bottommost pixel row.
pub open spec fn spec_bottom(m: MapData) -> int {
    m.z_center + 64 * spec_scale_factor(m.scale as int) - 1
}

impl MapData {
    /// X coordinate for pixels on the left edge of the map.
    pub fn left(&self) -> (r: i64)
        requires
            0 <= self.scale <= 4,
        ensures
            r == spec_left(*self),
    {
        self.x_center as i64 - 64 * scale_factor(self.scale)
    }

    /// Z coordinate for pixels on the top edge of the map.
    pub fn top(&self) -> (r: i64)
        requires
            0 <= self.scale <= 4,
        ensures
            r == spec_top(*self),
    {
        self.z_center as i64 - 64 * scale_factor(self.scale)
    }

    /// X coordinate for pixels on the right edge of the map.
    pub fn right(&self) -> (r: i64)
        requires
            0 <= self.scale <= 4,
        ensures
            r == spec_right(*self),
    {
        self.x_center as i64 + 64 * scale_factor(self.scale) - 1
    }

    /// Z coordinate for pixels on the bottom edge of the map.
    pub fn bottom(&self) -> (r: i64)
        requires
            0 <= self.scale <= 4,
        ensures
            r == spec_bottom(*self),
    {
        self.z_center as i64 + 64 * scale_factor(self.scale) - 1
    }

    /// Scale description in the format `1:1`, `1:2`, and so on.
    pub fn scale_description(&self) -> (r: String)
        requires
            0 <= self.scale <= 4,
        ensures
            r@ == spec_scale_description(self.scale as int),
    {
        if self.scale == 0 {
            "1:1".to_owned()
        } else if self.scale == 1 {
            "1:2".to_owned()
        } else if self.scale == 2 {
            "1:4".to_owned()
        } else if self.scale == 3 {
            "1:8".to_owned()
        } else {
            "1:16".to_owned()
        }
    }

    /// Maps each stored index (read as unsigned) through the palette in
    /// row-major order into a fixed 128x128 raster.  Fails only when the
    /// stored buffer holds fewer than one full map of entries; entries past
    /// the full map are ignored.
    pub fn render(&self, palette: &Palette) -> (r: Result<Raster, Error>)
        requires
            palette.wf(),
        ensures
            r is Ok <==> self.colors@.len() >= 16384,
            r matches Err(e) ==> e.spec_kind() == ErrorKind::IncompleteBufferError,
            r matches Ok(img) ==> img.wf() && img.width == 128 && img.height == 128
                && img.pixels@ == spec_render(self.colors@, palette.entries@),
    {
        if self.colors.len() < 16384 {
            return Err(Error::new(ErrorKind::IncompleteBufferError));
        }
        let mut pixels: Vec<Rgba> = Vec::new();
        let mut k: usize = 0;
        while k < 16384
            invariant
                k <= 16384,
                self.colors@.len() >= 16384,
                palette.entries@.len() == 256,
                pixels@.len() == k,
                forall|j: int|
                    0 <= j < k ==> pixels@[j] == palette.entries@[self.colors@[j] as int],
            decreases 16384 - k,
        {
            let c = self.colors[k];
            pixels.push(*palette.get(c));
            k = k + 1;
        }
        proof {
            assert(pixels@ =~= spec_render(self.colors@, palette.entries@));
        }
        Ok(Raster { width: 128, height: 128, pixels })
    }
}

/// The raster a full color buffer renders to: entry `k` of the result is
/// the palette entry selected by stored index `k`.
pub open spec fn spec_render(colors: Seq<u8>, pal: Seq<Rgba>) -> Seq<Rgba> {
    Seq::new(16384, |k: int| pal[colors[k] as int])
}

/// What `scale_description` prints for each scale.
pub open spec fn spec_scale_description(scale: int) -> Seq<char> {
    if scale == 0 {
        "1:1"@
    } else if scale == 1 {
        "1:2"@
    } else if scale == 2 {
        "1:4"@
    } else if scale == 3 {
        "1:8"@
    } else {
        "1:16"@
    }
}

/// What a title-cased string holds; named, not written out, because the
/// word segmentation it performs is a property of the outside crate.
pub uninterp spec fn title_case_of(s: Seq<char>) -> Seq<char>;

/// Relies on heck's `ToTitleCase::to_title_case`: the result is a function
/// of the input characters alone.
#[verifier::external_body]
fn title_case(s: &str) -> (r: String)
    ensures
        r@ == title_case_of(s@),
{
    heck::ToTitleCase::to_title_case(s)
}

/// The string stored under `field` when `s` parses as a JSON object with a
/// string there; a function of the two arguments alone.
pub uninterp spec fn json_object_str_field_of(s: Seq<char>, field: Seq<char>) -> Option<Seq<char>>;

/// The decoded string when `s` parses as one bare JSON string; a function
/// of the argument alone.
pub uninterp spec fn json_bare_str_of(s: Seq<char>) -> Option<Seq<char>>;

/// Relies on serde_json's `from_str` and the `Value` accessors: parsing is
/// deterministic in the input text, and this projection returns the string
/// under `field` exactly when `s` is a JSON object holding a string there.
#[verifier::external_body]
fn json_object_str_field(s: &str, field: &str) -> (r: Option<String>)
    ensures
        match r {
            Some(t) => json_object_str_field_of(s@, field@) == Some(t@),
            None => json_object_str_field_of(s@, field@) is None,
        },
{
    match serde_json::from_str::<serde_json::Value>(s) {
        Ok(serde_json::Value::Object(map)) => match map.get(field) {
            Some(serde_json::Value::String(t)) => Some(t.clone()),
            _ => None,
        },
        _ => None,
    }
}

/// Relies on serde_json's `from_str`: parsing is deterministic in the input
/// text, and this projection returns the decoded string exactly when `s` is
/// one bare JSON string.
#[verifier::external_body]
fn json_bare_str(s: &str) -> (r: Option<String>)
    ensures
        match r {
            Some(t) => json_bare_str_of(s@) == Some(t@),
            None => json_bare_str_of(s@) is None,
        },
{
    match serde_json::from_str::<serde_json::Value>(s) {
        Ok(serde_json::Value::String(t)) => Some(t),
        _ => None,
    }
}

/// The canonical human-readable dimension name.  A namespaced identifier
/// keeps what follows the first colon, with underscores as spaces, title
/// cased.  A legacy code maps to the three built-in dimensions, with the
/// overworld as the default for unrecognized values.
pub open spec fn spec_pretty_dimension(d: Seq<char>) -> Seq<char> {
    match spec_find(d, ':') {
        Some(i) => title_case_of(spec_replace(d.skip(i + 1), '_', ' ')),
        None => if d == "-1"@ {
            "The Nether"@
        } else if d == "1"@ {
            "The End"@
        } else {
            "Overworld"@
        },
    }
}

/// The view of an optional string.
pub open spec fn spec_opt_str(o: Option<String>) -> Option<Seq<char>> {
    match o {
        Some(s) => Some(s@),
        None => None,
    }
}

/// What `extract_name` resolves a stored banner name to: the `text` field
/// of a JSON object, else a bare JSON string, else the stored text itself;
/// a fixed placeholder when no name is stored.
pub open spec fn spec_extract_name(name: Option<Seq<char>>) -> Seq<char> {
    match name {
        None => "[nameless]"@,
        Some(s) => match json_object_str_field_of(s, "text"@) {
            Some(t) => t,
            None => match json_bare_str_of(s) {
                Some(t) => t,
                None => s,
            },
        },
    }
}

impl Banner {
    /// Returns the display name stored with the banner.
    ///
    /// Names are stored as JSON text: an object with a `text` field, a bare
    /// JSON string, or plain text.  Tried in that order; unparseable text
    /// is returned unchanged, and a nameless banner yields `[nameless]`.
    pub fn extract_name(&self) -> (r: String)
        ensures
            r@ == spec_extract_name(spec_opt_str(self.name)),
    {
        match &self.name {
            None => "[nameless]".to_owned(),
            Some(json) => match json_object_str_field(json.as_str(), "text") {
                Some(t) => t,
                None => match json_bare_str(json.as_str()) {
                    Some(t) => t,
                    None => json.clone(),
                },
            },
        }
    }
}

impl MapData {
    /// Pretty dimension: `Overworld` instead of `minecraft:overworld`.
    pub fn pretty_dimension(&self) -> (r: String)
        ensures
            r@ == spec_pretty_dimension(self.dimension@),
    {
        let d = self.dimension.as_str();
        match find_char(d, ':') {
            Some(i) => {
                proof {
                    lemma_find_found(d@, ':', i as int);
                }
                let n = d.unicode_len();
                let after = d.substring_char(i + 1, n);
                proof {
                    assert(after@ =~= d@.skip(i + 1));
                }
                let replaced = replace_char(after, '_', ' ');
                title_case(replaced.as_str())
            },
            None => {
                proof {
                    lemma_find_none(d@, ':');
                }
                if str_eq(d, "-1") {
                    "The Nether".to_owned()
                } else if str_eq(d, "1") {
                    "The End".to_owned()
                } else {
                    "Overworld".to_owned()
                }
            },
        }
    }
}

/// What `pretty_dimension_from_path` returns: a path mentioning the nether
/// or end dimension directories overrides the record's own field.
pub open spec fn spec_pretty_dimension_from_path(item: MapItem) -> Seq<char> {
    if spec_contains(item.file@, "_nether"@) {
        "The Nether"@
    } else if spec_contains(item.file@, "_the_end"@) {
        "The End"@
    } else {
        spec_pretty_dimension(item.data.dimension@)
    }
}

impl MapItem {
    /// Pretty dimension inferred from the file path, for saves whose
    /// records predate the dimension field: a path containing `_nether`
    /// or `_the_end` names the dimension; otherwise the record's own
    /// field decides.
    pub fn pretty_dimension_from_path(&self) -> (r: String)
        ensures
            r@ == spec_pretty_dimension_from_path(*self),
    {
        if str_contains(self.file.as_str(), "_nether") {
            "The Nether".to_owned()
        } else if str_contains(self.file.as_str(), "_the_end") {
            "The End".to_owned()
        } else {
            self.data.pretty_dimension()
        }
    }

    /// Renders the record's color buffer through `palette`; see
    /// [`MapData::render`].
    pub fn make_image(&self, palette: &Palette) -> (r: Result<Raster, Error>)
        requires
            palette.wf(),
        ensures
            r is Ok <==> self.data.colors@.len() >= 16384,
            r matches Err(e) ==> e.spec_kind() == ErrorKind::IncompleteBufferError,
            r matches Ok(img) ==> img.wf() && img.width == 128 && img.height == 128
                && img.pixels@ == spec_render(self.data.colors@, palette.entries@),
    {
        self.data.render(palette)
    }
}

/// The mathematical shape of a decoded banner: the stored name as a plain
/// character sequence.
pub struct BannerView {
    pub color: BannerColor,
    pub name: Option<Seq<char>>,
    pub pos: Pos,
}

impl View for Banner {
    type V = BannerView;

    open spec fn view(&self) -> BannerView {
        BannerView { color: self.color, name: spec_opt_str(self.name), pos: self.pos }
    }
}

/// The mathematical shape of a decoded record payload.
pub struct MapDataView {
    pub scale: i8,
    pub dimension: Seq<char>,
    pub tracking_position: i8,
    pub unlimited_tracking: i8,
    pub locked: i8,
    pub x_center: i32,
    pub z_center: i32,
    pub banners: Seq<BannerView>,
    pub frames: Seq<Marker>,
    pub colors: Seq<u8>,
}

impl View for MapData {
    type V = MapDataView;

    open spec fn view(&self) -> MapDataView {
        MapDataView {
            scale: self.scale,
            dimension: self.dimension@,
            tracking_position: self.tracking_position,
            unlimited_tracking: self.unlimited_tracking,
            locked: self.locked,
            x_center: self.x_center,
            z_center: self.z_center,
            banners: self.banners@.map_values(|b: Banner| b@),
            frames: self.frames@,
            colors: self.colors@,
        }
    }
}

/// The dye color a stored color name selects.
pub open spec fn spec_color_of(s: Seq<char>) -> Option<BannerColor> {
    if s == "black"@ {
        Some(BannerColor::Black)
    } else if s == "blue"@ {
        Some(BannerColor::Blue)
    } else if s == "brown"@ {
        Some(BannerColor::Brown)
    } else if s == "cyan"@ {
        Some(BannerColor::Cyan)
    } else if s == "gray"@ {
        Some(BannerColor::Gray)
    } else if s == "green"@ {
        Some(BannerColor::Green)
    } else if s == "light_blue"@ {
        Some(BannerColor::LightBlue)
    } else if s == "light_gray"@ {
        Some(BannerColor::LightGray)
    } else if s == "lime"@ {
        Some(BannerColor::Lime)
    } else if s == "magenta"@ {
        Some(BannerColor::Magenta)
    } else if s == "orange"@ {
        Some(BannerColor::Orange)
    } else if s == "pink"@ {
        Some(BannerColor::Pink)
    } else if s == "purple"@ {
        Some(BannerColor::Purple)
    } else if s == "red"@ {
        Some(BannerColor::Red)
    } else if s == "white"@ {
        Some(BannerColor::White)
    } else if s == "yellow"@ {
        Some(BannerColor::Yellow)
    } else {
        None
    }
}

fn color_of(s: &str) -> (r: Option<BannerColor>)
    ensures
        r == spec_color_of(s@),
{
    if str_eq(s, "black") {
        Some(BannerColor::Black)
    } else if str_eq(s, "blue") {
        Some(BannerColor::Blue)
    } else if str_eq(s, "brown") {
        Some(BannerColor::Brown)
    } else if str_eq(s, "cyan") {
        Some(BannerColor::Cyan)
    } else if str_eq(s, "gray") {
        Some(BannerColor::Gray)
    } else if str_eq(s, "green") {
        Some(BannerColor::Green)
    } else if str_eq(s, "light_blue") {
        Some(BannerColor::LightBlue)
    } else if str_eq(s, "light_gray") {
        Some(BannerColor::LightGray)
    } else if str_eq(s, "lime") {
        Some(BannerColor::Lime)
    } else if str_eq(s, "magenta") {
        Some(BannerColor::Magenta)
    } else if str_eq(s, "orange") {
        Some(BannerColor::Orange)
    } else if str_eq(s, "pink") {
        Some(BannerColor::Pink)
    } else if str_eq(s, "purple") {
        Some(BannerColor::Purple)
    } else if str_eq(s, "red") {
        Some(BannerColor::Red)
    } else if str_eq(s, "white") {
        Some(BannerColor::White)
    } else if str_eq(s, "yellow") {
        Some(BannerColor::Yellow)
    } else {
        None
    }
}

impl BannerColor {
    /// The color's display name.
    pub fn name(&self) -> (r: String)
        ensures
            r@ == spec_color_name(*self),
    {
        match self {
            BannerColor::Black => "Black".to_owned(),
            BannerColor::Blue => "Blue".to_owned(),
            BannerColor::Brown => "Brown".to_owned(),
            BannerColor::Cyan => "Cyan".to_owned(),
            BannerColor::Gray => "Gray".to_owned(),
            BannerColor::Green => "Green".to_owned(),
            BannerColor::LightBlue => "LightBlue".to_owned(),
            BannerColor::LightGray => "LightGray".to_owned(),
            BannerColor::Lime => "Lime".to_owned(),
            BannerColor::Magenta => "Magenta".to_owned(),
            BannerColor::Orange => "Orange".to_owned(),
            BannerColor::Pink => "Pink".to_owned(),
            BannerColor::Purple => "Purple".to_owned(),
            BannerColor::Red => "Red".to_owned(),
            BannerColor::White => "White".to_owned(),
            BannerColor::Yellow => "Yellow".to_owned(),
        }
    }
}

/// What `BannerColor::name` prints.
pub open spec fn spec_color_name(c: BannerColor) -> Seq<char> {
    match c {
        BannerColor::Black => "Black"@,
        BannerColor::Blue => "Blue"@,
        BannerColor::Brown => "Brown"@,
        BannerColor::Cyan => "Cyan"@,
        BannerColor::Gray => "Gray"@,
        BannerColor::Green => "Green"@,
        BannerColor::LightBlue => "LightBlue"@,
        BannerColor::LightGray => "LightGray"@,
        BannerColor::Lime => "Lime"@,
        BannerColor::Magenta => "Magenta"@,
        BannerColor::Orange => "Orange"@,
        BannerColor::Pink => "Pink"@,
        BannerColor::Purple => "Purple"@,
        BannerColor::Red => "Red"@,
        BannerColor::White => "White"@,
        BannerColor::Yellow => "Yellow"@,
    }
}

/// A position decodes from either a three-field compound `X`, `Y`, `Z` of
/// ints or a 3-element int array; both normalize to the same shape.
pub open spec fn spec_decode_pos(v: NbtValue) -> Option<Pos> {
    match v {
        NbtValue::Compound(f) => match (
            spec_field(f@, "X"@),
            spec_field(f@, "Y"@),
            spec_field(f@, "Z"@),
        ) {
            (Some(NbtValue::Int(x)), Some(NbtValue::Int(y)), Some(NbtValue::Int(z))) => Some(
                Pos { x, y, z },
            ),
            _ => None,
        },
        NbtValue::IntArray(a) => if a@.len() == 3 {
            Some(Pos { x: a@[0], y: a@[1], z: a@[2] })
        } else {
            None
        },
        _ => None,
    }
}

fn decode_pos(v: &NbtValue) -> (r: Option<Pos>)
    ensures
        r == spec_decode_pos(*v),
{
    match v {
        NbtValue::Compound(f) => {
            let x = match field(f, "X") {
                Some(NbtValue::Int(x)) => *x,
                _ => {
                    return None;
                },
            };
            let y = match field(f, "Y") {
                Some(NbtValue::Int(y)) => *y,
                _ => {
                    return None;
                },
            };
            let z = match field(f, "Z") {
                Some(NbtValue::Int(z)) => *z,
                _ => {
                    return None;
                },
            };
            Some(Pos { x, y, z })
        },
        NbtValue::IntArray(a) => {
            if a.len() == 3 {
                Some(Pos { x: a[0], y: a[1], z: a[2] })
            } else {
                None
            }
        },
        _ => None,
    }
}

/// A banner decodes from a compound with a valid `Color` name, an optional
/// text `Name`, and a `Pos`.
pub open spec fn spec_decode_banner(v: NbtValue) -> Option<BannerView> {
    match v {
        NbtValue::Compound(f) => match spec_field(f@, "Color"@) {
            Some(NbtValue::Text(cs)) => match spec_color_of(cs@) {
                Some(color) => {
                    let name_field = spec_field(f@, "Name"@);
                    if name_field is None || name_field matches Some(NbtValue::Text(_)) {
                        let name = match name_field {
                            Some(NbtValue::Text(s)) => Some(s@),
                            _ => None,
                        };
                        match spec_field(f@, "Pos"@) {
                            Some(pv) => match spec_decode_pos(pv) {
                                Some(pos) => Some(BannerView { color, name, pos }),
                                None => None,
                            },
                            None => None,
                        }
                    } else {
                        None
                    }
                },
                None => None,
            },
            _ => None,
        },
        _ => None,
    }
}

fn decode_banner(v: &NbtValue) -> (r: Option<Banner>)
    ensures
        match r {
            Some(b) => spec_decode_banner(*v) == Some(b@),
            None => spec_decode_banner(*v) is None,
        },
{
    match v {
        NbtValue::Compound(f) => {
            let color = match field(f, "Color") {
                Some(NbtValue::Text(cs)) => match color_of(cs.as_str()) {
                    Some(c) => c,
                    None => {
                        return None;
                    },
                },
                _ => {
                    return None;
                },
            };
            let name = match field(f, "Name") {
                None => None,
                Some(NbtValue::Text(s)) => Some(s.clone()),
                Some(_) => {
                    return None;
                },
            };
            let pos = match field(f, "Pos") {
                Some(pv) => match decode_pos(pv) {
                    Some(p) => p,
                    None => {
                        return None;
                    },
                },
                None => {
                    return None;
                },
            };
            Some(Banner { color, name, pos })
        },
        _ => None,
    }
}

/// A frame marker decodes from a compound with `EntityId`, `Rotation` and
/// `Pos`.
pub open spec fn spec_decode_marker(v: NbtValue) -> Option<Marker> {
    match v {
        NbtValue::Compound(f) => match (
            spec_field(f@, "EntityId"@),
            spec_field(f@, "Rotation"@),
        ) {
            (Some(NbtValue::Int(entity_id)), Some(NbtValue::Int(rotation))) => match spec_field(
                f@,
                "Pos"@,
            ) {
                Some(pv) => match spec_decode_pos(pv) {
                    Some(pos) => Some(Marker { entity_id, rotation, pos }),
                    None => None,
                },
                None => None,
            },
            _ => None,
        },
        _ => None,
    }
}

fn decode_marker(v: &NbtValue) -> (r: Option<Marker>)
    ensures
        r == spec_decode_marker(*v),
{
    match v {
        NbtValue::Compound(f) => {
            let entity_id = match field(f, "EntityId") {
                Some(NbtValue::Int(x)) => *x,
                _ => {
                    return None;
                },
            };
            let rotation = match field(f, "Rotation") {
                Some(NbtValue::Int(x)) => *x,
                _ => {
                    return None;
                },
            };
            let pos = match field(f, "Pos") {
                Some(pv) => match decode_pos(pv) {
                    Some(p) => p,
                    None => {
                        return None;
                    },
                },
                None => {
                    return None;
                },
            };
            Some(Marker { entity_id, rotation, pos })
        },
        _ => None,
    }
}

/// Every element of a banner list must decode; one bad element fails the
/// whole list.
pub open spec fn spec_decode_banners(items: Seq<NbtValue>) -> Option<Seq<BannerView>>
    decreases items.len(),
{
    if items.len() == 0 {
        Some(Seq::empty())
    } else {
        match spec_decode_banner(items[0]) {
            None => None,
            Some(b) => match spec_decode_banners(items.drop_first()) {
                None => None,
                Some(rest) => Some(seq![b] + rest),
            },
        }
    }
}

proof fn lemma_decode_banners_ok(items: Seq<NbtValue>)
    requires
        forall|j: int| 0 <= j < items.len() ==> (#[trigger] spec_decode_banner(items[j])) is Some,
    ensures
        spec_decode_banners(items) == Some(
            Seq::new(items.len(), |j: int| spec_decode_banner(items[j])->Some_0),
        ),
    decreases items.len(),
{
    if items.len() > 0 {
        lemma_decode_banners_ok(items.drop_first());
        let whole = Seq::new(items.len(), |j: int| spec_decode_banner(items[j])->Some_0);
        let rest = Seq::new(
            items.drop_first().len(),
            |j: int| spec_decode_banner(items.drop_first()[j])->Some_0,
        );
        assert(seq![spec_decode_banner(items[0])->Some_0] + rest =~= whole);
    }
}

proof fn lemma_decode_banners_fail(items: Seq<NbtValue>, k: int)
    requires
        0 <= k < items.len(),
        spec_decode_banner(items[k]) is None,
    ensures
        spec_decode_banners(items) is None,
    decreases items.len(),
{
    if k > 0 {
        lemma_decode_banners_fail(items.drop_first(), k - 1);
    }
}

fn decode_banner_list(items: &Vec<NbtValue>) -> (r: Option<Vec<Banner>>)
    ensures
        match r {
            Some(v) => spec_decode_banners(items@) == Some(v@.map_values(|b: Banner| b@)),
            None => spec_decode_banners(items@) is None,
        },
{
    let mut out: Vec<Banner> = Vec::new();
    let mut k: usize = 0;
    while k < items.len()
        invariant
            k <= items@.len(),
            out@.len() == k,
            forall|j: int|
                0 <= j < k ==> ((#[trigger] spec_decode_banner(items@[j])) matches Some(b)
                    && out@[j]@ == b),
        decreases items@.len() - k,
    {
        match decode_banner(&items[k]) {
            Some(b) => {
                out.push(b);
            },
            None => {
                proof {
                    lemma_decode_banners_fail(items@, k as int);
                }
                return None;
            },
        }
        k = k + 1;
    }
    proof {
        lemma_decode_banners_ok(items@);
        assert(out@.map_values(|b: Banner| b@) =~= Seq::new(
            items@.len(),
            |j: int| spec_decode_banner(items@[j])->Some_0,
        ));
    }
    Some(out)
}

/// Every element of a frame list must decode; one bad element fails the
/// whole list.
pub open spec fn spec_decode_markers(items: Seq<NbtValue>) -> Option<Seq<Marker>>
    decreases items.len(),
{
    if items.len() == 0 {
        Some(Seq::empty())
    } else {
        match spec_decode_marker(items[0]) {
            None => None,
            Some(m) => match spec_decode_markers(items.drop_first()) {
                None => None,
                Some(rest) => Some(seq![m] + rest),
            },
        }
    }
}

proof fn lemma_decode_markers_ok(items: Seq<NbtValue>)
    requires
        forall|j: int| 0 <= j < items.len() ==> (#[trigger] spec_decode_marker(items[j])) is Some,
    ensures
        spec_decode_markers(items) == Some(
            Seq::new(items.len(), |j: int| spec_decode_marker(items[j])->Some_0),
        ),
    decreases items.len(),
{
    if items.len() > 0 {
        lemma_decode_markers_ok(items.drop_first());
        let whole = Seq::new(items.len(), |j: int| spec_decode_marker(items[j])->Some_0);
        let rest = Seq::new(
            items.drop_first().len(),
            |j: int| spec_decode_marker(items.drop_first()[j])->Some_0,
        );
        assert(seq![spec_decode_marker(items[0])->Some_0] + rest =~= whole);
    }
}

proof fn lemma_decode_markers_fail(items: Seq<NbtValue>, k: int)
    requires
        0 <= k < items.len(),
        spec_decode_marker(items[k]) is None,
    ensures
        spec_decode_markers(items) is None,
    decreases items.len(),
{
    if k > 0 {
        lemma_decode_markers_fail(items.drop_first(), k - 1);
    }
}

fn decode_marker_list(items: &Vec<NbtValue>) -> (r: Option<Vec<Marker>>)
    ensures
        match r {
            Some(v) => spec_decode_markers(items@) == Some(v@),
            None => spec_decode_markers(items@) is None,
        },
{
    let mut out: Vec<Marker> = Vec::new();
    let mut k: usize = 0;
    while k < items.len()
        invariant
            k <= items@.len(),
            out@.len() == k,
            forall|j: int|
                0 <= j < k ==> (#[trigger] spec_decode_marker(items@[j])) == Some(out@[j]),
        decreases items@.len() - k,
    {
        match decode_marker(&items[k]) {
            Some(m) => {
                out.push(m);
            },
            None => {
                proof {
                    lemma_decode_markers_fail(items@, k as int);
                }
                return None;
            },
        }
        k = k + 1;
    }
    proof {
        lemma_decode_markers_ok(items@);
        assert(out@ =~= Seq::new(items@.len(), |j: int| spec_decode_marker(items@[j])->Some_0));
    }
    Some(out)
}

/// The canonical dimension string: a text field verbatim, or the legacy
/// byte resolved to one of the three built-in codes (the overworld code
/// for anything unrecognized).
pub open spec fn spec_decode_dimension(v: NbtValue) -> Option<Seq<char>> {
    match v {
        NbtValue::Text(s) => Some(s@),
        NbtValue::Byte(b) => Some(
            if b == -1 {
                "-1"@
            } else if b == 1 {
                "1"@
            } else {
                "0"@
            },
        ),
        _ => None,
    }
}

fn decode_dimension(v: &NbtValue) -> (r: Option<String>)
    ensures
        match r {
            Some(s) => spec_decode_dimension(*v) == Some(s@),
            None => spec_decode_dimension(*v) is None,
        },
{
    match v {
        NbtValue::Text(s) => Some(s.clone()),
        NbtValue::Byte(b) => Some(
            if *b == -1 {
                "-1".to_owned()
            } else if *b == 1 {
                "1".to_owned()
            } else {
                "0".to_owned()
            },
        ),
        _ => None,
    }
}

/// The byte stored under `name`, when present with the right tag.
pub open spec fn spec_byte_of(f: Seq<(String, NbtValue)>, name: Seq<char>) -> Option<i8> {
    match spec_field(f, name) {
        Some(NbtValue::Byte(b)) => Some(b),
        _ => None,
    }
}

/// The int stored under `name`, when present with the right tag.
pub open spec fn spec_int_of(f: Seq<(String, NbtValue)>, name: Seq<char>) -> Option<i32> {
    match spec_field(f, name) {
        Some(NbtValue::Int(x)) => Some(x),
        _ => None,
    }
}

fn byte_of(f: &Vec<(String, NbtValue)>, name: &str) -> (r: Option<i8>)
    ensures
        r == spec_byte_of(f@, name@),
{
    match field(f, name) {
        Some(NbtValue::Byte(b)) => Some(*b),
        _ => None,
    }
}

fn int_of(f: &Vec<(String, NbtValue)>, name: &str) -> (r: Option<i32>)
    ensures
        r == spec_int_of(f@, name@),
{
    match field(f, name) {
        Some(NbtValue::Int(x)) => Some(*x),
        _ => None,
    }
}

/// The canonical dimension under the `dimension` field.
pub open spec fn spec_dimension_of(f: Seq<(String, NbtValue)>) -> Option<Seq<char>> {
    match spec_field(f, "dimension"@) {
        Some(dv) => spec_decode_dimension(dv),
        None => None,
    }
}

/// The decoded banner list under the `banners` field.
pub open spec fn spec_banners_of(f: Seq<(String, NbtValue)>) -> Option<Seq<BannerView>> {
    match spec_field(f, "banners"@) {
        Some(NbtValue::List(items)) => spec_decode_banners(items@),
        _ => None,
    }
}

/// The decoded frame list under the `frames` field.
pub open spec fn spec_markers_of(f: Seq<(String, NbtValue)>) -> Option<Seq<Marker>> {
    match spec_field(f, "frames"@) {
        Some(NbtValue::List(items)) => spec_decode_markers(items@),
        _ => None,
    }
}

/// The unsigned color buffer under the `colors` field: a byte array of
/// exactly `16384` entries, each read as unsigned.
pub open spec fn spec_colors_of(f: Seq<(String, NbtValue)>) -> Option<Seq<u8>> {
    match spec_field(f, "colors"@) {
        Some(NbtValue::ByteArray(cs)) => if cs@.len() == 16384 {
            Some(cs@.map_values(|x: i8| x as u8))
        } else {
            None
        },
        _ => None,
    }
}

/// The payload decoded from the children of the `data` compound: every
/// required field present with its required tag, the color buffer exactly
/// one full map long.
pub open spec fn spec_decode_fields(f: Seq<(String, NbtValue)>) -> Option<MapDataView> {
    if {
        &&& spec_byte_of(f, "scale"@) is Some
        &&& spec_dimension_of(f) is Some
        &&& spec_byte_of(f, "trackingPosition"@) is Some
        &&& spec_byte_of(f, "unlimitedTracking"@) is Some
        &&& spec_byte_of(f, "locked"@) is Some
        &&& spec_int_of(f, "xCenter"@) is Some
        &&& spec_int_of(f, "zCenter"@) is Some
        &&& spec_banners_of(f) is Some
        &&& spec_markers_of(f) is Some
        &&& spec_colors_of(f) is Some
    } {
        Some(
            MapDataView {
                scale: spec_byte_of(f, "scale"@)->Some_0,
                dimension: spec_dimension_of(f)->Some_0,
                tracking_position: spec_byte_of(f, "trackingPosition"@)->Some_0,
                unlimited_tracking: spec_byte_of(f, "unlimitedTracking"@)->Some_0,
                locked: spec_byte_of(f, "locked"@)->Some_0,
                x_center: spec_int_of(f, "xCenter"@)->Some_0,
                z_center: spec_int_of(f, "zCenter"@)->Some_0,
                banners: spec_banners_of(f)->Some_0,
                frames: spec_markers_of(f)->Some_0,
                colors: spec_colors_of(f)->Some_0,
            },
        )
    } else {
        None
    }
}

/// The payload decoded from the `data` node, which must be a compound.
pub open spec fn spec_decode_data(v: NbtValue) -> Option<MapDataView> {
    match v {
        NbtValue::Compound(fields) => spec_decode_fields(fields@),
        _ => None,
    }
}

/// The record decoded from the root node: a compound holding the `data`
/// payload and its sibling `DataVersion` int.
pub open spec fn spec_decode_item(v: NbtValue) -> Option<(MapDataView, i32)> {
    match v {
        NbtValue::Compound(fields) => {
            if spec_int_of(fields@, "DataVersion"@) is Some && (match spec_field(
                fields@,
                "data"@,
            ) {
                Some(dv) => spec_decode_data(dv) is Some,
                None => false,
            }) {
                Some(
                    (
                        spec_decode_data(spec_field(fields@, "data"@)->Some_0)->Some_0,
                        spec_int_of(fields@, "DataVersion"@)->Some_0,
                    ),
                )
            } else {
                None
            }
        },
        _ => None,
    }
}

fn decode_colors(cs: &Vec<i8>) -> (r: Vec<u8>)
    ensures
        r@ == cs@.map_values(|x: i8| x as u8),
{
    let mut out: Vec<u8> = Vec::new();
    let mut k: usize = 0;
    while k < cs.len()
        invariant
            k <= cs@.len(),
            out@.len() == k,
            forall|j: int| 0 <= j < k ==> out@[j] == cs@[j] as u8,
        decreases cs@.len() - k,
    {
        out.push(#[verifier::truncate] (cs[k] as u8));
        k = k + 1;
    }
    proof {
        assert(out@ =~= cs@.map_values(|x: i8| x as u8));
    }
    out
}

fn decode_data(v: &NbtValue) -> (r: Result<MapData, Error>)
    ensures
        r is Ok <==> spec_decode_data(*v) is Some,
        r matches Ok(d) ==> spec_decode_data(*v) == Some(d@),
        r matches Err(e) ==> e.spec_kind() matches ErrorKind::DecodeError(_),
{
    let fields = match v {
        NbtValue::Compound(fields) => fields,
        _ => {
            return Err(Error::map_item_error("data is not a compound"));
        },
    };
    let scale = match byte_of(fields, "scale") {
        Some(b) => b,
        None => {
            return Err(Error::map_item_error("missing or mistyped scale"));
        },
    };
    let dimension = match field(fields, "dimension") {
        Some(dv) => match decode_dimension(dv) {
            Some(s) => s,
            None => {
                return Err(Error::map_item_error("missing or mistyped dimension"));
            },
        },
        None => {
            return Err(Error::map_item_error("missing or mistyped dimension"));
        },
    };
    let tracking_position = match byte_of(fields, "trackingPosition") {
        Some(b) => b,
        None => {
            return Err(Error::map_item_error("missing or mistyped trackingPosition"));
        },
    };
    let unlimited_tracking = match byte_of(fields, "unlimitedTracking") {
        Some(b) => b,
        None => {
            return Err(Error::map_item_error("missing or mistyped unlimitedTracking"));
        },
    };
    let locked = match byte_of(fields, "locked") {
        Some(b) => b,
        None => {
            return Err(Error::map_item_error("missing or mistyped locked"));
        },
    };
    let x_center = match int_of(fields, "xCenter") {
        Some(x) => x,
        None => {
            return Err(Error::map_item_error("missing or mistyped xCenter"));
        },
    };
    let z_center = match int_of(fields, "zCenter") {
        Some(x) => x,
        None => {
            return Err(Error::map_item_error("missing or mistyped zCenter"));
        },
    };
    let banners = match field(fields, "banners") {
        Some(NbtValue::List(items)) => match decode_banner_list(items) {
            Some(bs) => bs,
            None => {
                return Err(Error::map_item_error("malformed banner entry"));
            },
        },
        _ => {
            return Err(Error::map_item_error("missing or mistyped banners"));
        },
    };
    let frames = match field(fields, "frames") {
        Some(NbtValue::List(items)) => match decode_marker_list(items) {
            Some(ms) => ms,
            None => {
                return Err(Error::map_item_error("malformed frame entry"));
            },
        },
        _ => {
            return Err(Error::map_item_error("missing or mistyped frames"));
        },
    };
    let colors = match field(fields, "colors") {
        Some(NbtValue::ByteArray(cs)) => {
            if cs.len() != 16384 {
                return Err(Error::map_item_error("colors must hold exactly 16384 entries"));
            }
            decode_colors(cs)
        },
        _ => {
            return Err(Error::map_item_error("missing or mistyped colors"));
        },
    };
    let data = MapData {
        scale,
        dimension,
        tracking_position,
        unlimited_tracking,
        locked,
        x_center,
        z_center,
        banners,
        frames,
        colors,
    };
    Ok(data)
}

impl MapItem {
    /// Decodes one record from the tag tree the external codec produced.
    /// Fails with a decode error when a required field is absent, has the
    /// wrong tag, or the color buffer is not exactly one full map long;
    /// unknown extra fields are ignored.
    pub fn decode(tree: &NbtValue, file: &str) -> (r: Result<MapItem, Error>)
        ensures
            r is Ok <==> spec_decode_item(*tree) is Some,
            r matches Ok(item) ==> spec_decode_item(*tree) == Some((item.data@, item.data_version))
                && item.file@ == file@,
            r matches Err(e) ==> e.spec_kind() matches ErrorKind::DecodeError(_),
    {
        let fields = match tree {
            NbtValue::Compound(fields) => fields,
            _ => {
                return Err(Error::map_item_error("root is not a compound"));
            },
        };
        let data_version = match int_of(fields, "DataVersion") {
            Some(x) => x,
            None => {
                return Err(Error::map_item_error("missing or mistyped DataVersion"));
            },
        };
        let data = match field(fields, "data") {
            Some(dv) => match decode_data(dv) {
                Ok(d) => d,
                Err(e) => {
                    return Err(e);
                },
            },
            None => {
                return Err(Error::map_item_error("missing data compound"));
            },
        };
        Ok(MapItem { file: file.to_owned(), data, data_version })
    }
}

/// The color byte of the all-colors demonstration buffer at flat index
/// `k`: the 128x128 grid splits into 16x16 blocks of 8x8 pixels, colored
/// `0..=255` in row-major block order.
pub open spec fn spec_color_pattern(k: int) -> u8 {
    (((k / 128) / 8) * 16 + (k % 128) / 8) as u8
}

/// Builds a full color buffer showing every palette entry: one 8x8 block
/// per color, blocks in row-major order.
pub fn all_colors_pattern() -> (r: Vec<u8>)
    ensures
        r@.len() == 16384,
        forall|k: int| 0 <= k < 16384 ==> r@[k] == spec_color_pattern(k),
{
    let mut out: Vec<u8> = Vec::new();
    let mut k: usize = 0;
    while k < 16384
        invariant
            k <= 16384,
            out@.len() == k,
            forall|j: int| 0 <= j < k ==> out@[j] == spec_color_pattern(j),
        decreases 16384 - k,
    {
        proof {
            lemma_div_is_ordered(k as int, 16383, 128);
            lemma_div_is_ordered(k as int / 128, 127, 8);
            lemma_mod_bound(k as int, 128);
            lemma_div_is_ordered(k as int % 128, 127, 8);
        }
        let color = ((k / 128) / 8) * 16 + (k % 128) / 8;
        out.push(color as u8);
        k = k + 1;
    }
    out
}

/// Decoding and rendering are pure: the same tree decoded and rendered
/// through the same palette always reproduces the same raster.
pub proof fn lemma_decode_render_deterministic(
    t1: NbtValue,
    t2: NbtValue,
    p1: Seq<Rgba>,
    p2: Seq<Rgba>,
)
    requires
        t1 == t2,
        p1 == p2,
    ensures
        spec_decode_item(t1) == spec_decode_item(t2),
        spec_decode_item(t1) matches Some(d) ==> spec_render(d.0.colors, p1) == spec_render(
            spec_decode_item(t2)->Some_0.0.colors,
            p2,
        ),
{
}

/// A map always covers a square of exactly `128 * 2^scale` world units per
/// axis, whatever the scale: the bounding box is never empty and its sides
/// are equal.
pub proof fn lemma_bounding_box_square(m: MapData)
    requires
        0 <= m.scale <= 4,
    ensures
        spec_right(m) - spec_left(m) + 1 == 128 * spec_scale_factor(m.scale as int),
        spec_bottom(m) - spec_top(m) + 1 == 128 * spec_scale_factor(m.scale as int),
        spec_left(m) <= spec_right(m),
        spec_top(m) <= spec_bottom(m),
{
    lemma2_to64();
    let s = m.scale as int;
    assert(spec_scale_factor(s) >= 1) by {
        if s == 0 {
        } else if s == 1 {
        } else if s == 2 {
        } else if s == 3 {
        } else {
            assert(s == 4);
        }
    }
}

} // verus!
