use vstd::arithmetic::div_mod::{lemma_mod_pos_bound, lemma_multiply_divide_lt};
use vstd::prelude::*;

use crate::block::BlockId;

verus! {

/// Relies on std::io::ErrorKind, the kind of an I/O failure, which is only
/// carried inside `AtlasError`: nothing here reads it.
#[verifier::external_type_specification]
#[verifier::external_body]
pub struct ExErrorKind(std::io::ErrorKind);

/// Why an atlas could not be built.
#[derive(Clone, Copy, Debug, PartialEq, Eq)]
pub enum AtlasError {
    /// The source directory could not be listed or opened.
    Io(std::io::ErrorKind),
}

/// Tile id reserved for the synthesized placeholder texture.
pub const DEFAULT_TILE: u32 = 0;

/// Tile ids of a block's six faces, in the order north, south, east, west,
/// top, bottom.
pub struct BlockTexture {
    pub values: [u32; 6],
}

/// An RGBA image: four bytes per pixel, rows from the top.
pub struct Image {
    pub width: u32,
    pub height: u32,
    pub pixels: Vec<u8>,
}

impl Image {
    /// Whether the pixel buffer holds exactly `width * height` RGBA pixels.
    pub open spec fn valid(&self) -> bool {
        self.pixels@.len() == self.width * self.height * 4
    }
}

/// One candidate tile: its name and its decoded image, or nothing where the
/// file could not be read.
pub struct TileSource {
    pub name: String,
    pub image: Option<Image>,
}

/// What an atlas holds, as mathematical values.
pub struct AtlasView {
    /// Pixels per side of one tile.
    pub tile_width: nat,
    pub tile_height: nat,
    /// Tiles per row and per column of the sheet.
    pub tile_count: nat,
    /// The packed RGBA sheet, `tile_width * tile_count` pixels wide.
    pub pixels: Seq<u8>,
    /// The name registered for each tile id, in id order.
    pub names: Seq<Seq<char>>,
}

/// A packed sheet of equal-sized square textures, addressed by tile id.
pub struct Atlas {
    image: Image,
    tile_width: usize,
    tile_height: usize,
    tile_count: usize,
    names: Vec<String>,
}

/// The tile id registered under `key`: the last id with that name, or the
/// placeholder where none has it.
pub open spec fn lookup(names: Seq<Seq<char>>, key: Seq<char>) -> int
    decreases names.len(),
{
    if names.len() == 0 {
        DEFAULT_TILE as int
    } else if names.last() == key {
        names.len() - 1
    } else {
        lookup(names.drop_last(), key)
    }
}

pub proof fn lemma_lookup_bound(names: Seq<Seq<char>>, key: Seq<char>)
    ensures
        0 <= lookup(names, key),
        names.len() > 0 ==> lookup(names, key) < names.len(),
    decreases names.len(),
{
    if names.len() > 0 && names.last() != key {
        lemma_lookup_bound(names.drop_last(), key);
    }
}

/// Face tile ids of block `b`, by texture name.
pub open spec fn face_textures(names: Seq<Seq<char>>, b: BlockId) -> Seq<u32> {
    match b {
        BlockId::Dirt => {
            let id = lookup(names, "dirt"@) as u32;
            seq![id, id, id, id, id, id]
        },
        BlockId::Grass => {
            let side = lookup(names, "grass_side"@) as u32;
            let top = lookup(names, "grass_top"@) as u32;
            let bottom = lookup(names, "dirt"@) as u32;
            seq![side, side, side, side, top, bottom]
        },
        BlockId::Stone => {
            let id = lookup(names, "stone"@) as u32;
            seq![id, id, id, id, id, id]
        },
        BlockId::Air => {
            let id = lookup(names, "default"@) as u32;
            seq![id, id, id, id, id, id]
        },
    }
}

/// Whether `src` holds a readable image.
pub open spec fn readable(src: TileSource) -> bool {
    match src.image {
        Some(img) => img.valid(),
        None => false,
    }
}

/// Whether `src` holds a readable image of `w` by `h` pixels.
pub open spec fn accepts(src: TileSource, w: int, h: int) -> bool {
    match src.image {
        Some(img) => img.valid() && img.width == w && img.height == h,
        None => false,
    }
}

/// Position of the first readable source at or after `i`, or the length.
pub open spec fn first_readable_from(s: Seq<TileSource>, i: nat) -> nat
    decreases s.len() - i,
{
    if i >= s.len() {
        s.len()
    } else if readable(s[i as int]) {
        i
    } else {
        first_readable_from(s, i + 1)
    }
}

/// The first readable source: its size fixes the size of every tile.
pub open spec fn first_readable(s: Seq<TileSource>) -> nat {
    first_readable_from(s, 0)
}

pub open spec fn reference_width(s: Seq<TileSource>) -> int {
    match s[first_readable(s) as int].image {
        Some(img) => img.width as int,
        None => 0,
    }
}

pub open spec fn reference_height(s: Seq<TileSource>) -> int {
    match s[first_readable(s) as int].image {
        Some(img) => img.height as int,
        None => 0,
    }
}

/// Positions, in order, of the first `n` sources that hold a readable `w` by
/// `h` image.
pub open spec fn accepted(s: Seq<TileSource>, w: int, h: int, n: int) -> Seq<usize>
    decreases n,
{
    if n <= 0 {
        seq![]
    } else if accepts(s[n - 1], w, h) {
        accepted(s, w, h, n - 1).push((n - 1) as usize)
    } else {
        accepted(s, w, h, n - 1)
    }
}

/// The smallest `r` with `r * r >= n`.
pub open spec fn spec_ceil_sqrt(n: int) -> int {
    if n <= 0 {
        0
    } else {
        choose|r: int| 1 <= r && (r - 1) * (r - 1) < n <= #[trigger] (r * r)
    }
}

/// Channel `c` of the placeholder texture at `(x, y)`: black and white
/// squares of 8 by 8 pixels, opaque.
pub open spec fn placeholder_byte(x: int, y: int, c: int) -> u8 {
    if c == 3 {
        255
    } else if (x / 8 + y / 8) % 2 == 0 {
        0
    } else {
        255
    }
}

/// Byte `i` of a sheet of `tc` by `tc` tiles of `tw` by `th` pixels: tile 0
/// is the placeholder, tile `k` holds source `ids[k - 1]`, the rest is zero.
/// Tile `k` sits in column `k % tc` and row `k / tc`.
pub open spec fn sheet_byte(s: Seq<TileSource>, ids: Seq<usize>, tw: int, th: int, tc: int, i: int) -> u8 {
    let p = i / 4;
    let c = i % 4;
    let px = p % (tw * tc);
    let py = p / (tw * tc);
    let slot = (py / th) * tc + px / tw;
    let x = px % tw;
    let y = py % th;
    if slot == 0 {
        placeholder_byte(x, y, c)
    } else if slot <= ids.len() {
        match s[ids[slot - 1] as int].image {
            Some(img) => img.pixels@[(y * tw + x) * 4 + c],
            None => 0,
        }
    } else {
        0
    }
}

/// Whether the sources can be packed: one image is readable and the sheet
/// fits the machine's integers.
pub open spec fn packable(s: Seq<TileSource>) -> bool {
    let tw = reference_width(s);
    let th = reference_height(s);
    let tc = spec_ceil_sqrt(s.len() + 1int);
    &&& first_readable(s) < s.len()
    &&& s.len() < u32::MAX
    &&& tw * tc <= u32::MAX
    &&& th * tc <= u32::MAX
    &&& tw * tc * (th * tc) * 4 <= usize::MAX
}

/// The atlas packed from `s`.
pub open spec fn packed(s: Seq<TileSource>) -> AtlasView {
    let tw = reference_width(s);
    let th = reference_height(s);
    let tc = spec_ceil_sqrt(s.len() + 1int);
    let ids = accepted(s, tw, th, s.len() as int);
    AtlasView {
        tile_width: tw as nat,
        tile_height: th as nat,
        tile_count: tc as nat,
        pixels: Seq::new((tw * tc * (th * tc) * 4) as nat, |i: int| sheet_byte(s, ids, tw, th, tc, i)),
        names: seq!["default"@] + Seq::new(ids.len(), |k: int| s[ids[k] as int].name@),
    }
}

proof fn lemma_ceil_sqrt_unique(n: int, r: int)
    requires
        1 <= r,
        (r - 1) * (r - 1) < n <= r * r,
    ensures
        spec_ceil_sqrt(n) == r,
{
    let q = spec_ceil_sqrt(n);
    assert(1 <= q && (q - 1) * (q - 1) < n <= q * q);
    if q < r {
        assert(q * q <= (r - 1) * (r - 1)) by (nonlinear_arith)
            requires
                1 <= q <= r - 1,
        ;
    } else if r < q {
        assert(r * r <= (q - 1) * (q - 1)) by (nonlinear_arith)
            requires
                1 <= r <= q - 1,
        ;
    }
}

/// The smallest `r` with `r * r >= n`: the side, in tiles, of a square sheet
/// with room for `n` tiles.
pub fn ceil_sqrt(n: usize) -> (r: usize)
    ensures
        r == spec_ceil_sqrt(n as int),
        r * r >= n,
        n > 0 ==> 1 <= r && (r - 1) * (r - 1) < n,
{
    let mut t: usize = 0;
    while (t as u128) * (t as u128) < n as u128
        invariant
            t <= n,
            t == 0 || (t - 1) * (t - 1) < n,
            t * t <= u128::MAX,
        decreases n - t,
    {
        assert(t < n) by (nonlinear_arith)
            requires
                t * t < n,
                t >= 0,
        ;
        t += 1;
        assert(t * t <= u128::MAX) by (nonlinear_arith)
            requires
                t <= u64::MAX,
        ;
    }
    if n > 0 {
        proof {
            assert(t != 0);
            lemma_ceil_sqrt_unique(n as int, t as int);
        }
    }
    t
}

/// Where byte `i` of a sheet of `tc` by `tc` tiles of `tw` by `th` pixels
/// falls: its pixel, tile slot and position inside the tile are all in range.
proof fn lemma_sheet_index(i: int, tw: int, th: int, tc: int)
    requires
        0 <= tw,
        0 <= th,
        0 <= tc,
        0 <= i < tw * tc * (th * tc) * 4,
    ensures
        ({
            let aw = tw * tc;
            let p = i / 4;
            let px = p % aw;
            let py = p / aw;
            &&& 0 < tw && 0 < th && 0 < tc
            &&& 0 <= px < aw
            &&& 0 <= py < th * tc
            &&& 0 <= px / tw < tc
            &&& 0 <= py / th < tc
            &&& 0 <= (py / th) * tc + px / tw < tc * tc
            &&& tc * tc <= tw * tc * (th * tc)
            &&& 0 <= px % tw < tw
            &&& 0 <= py % th < th
            &&& aw <= tw * tc * (th * tc) * 4
            &&& 0 <= (py % th) * tw <= (py % th) * tw + px % tw < tw * th
            &&& 0 <= ((py % th) * tw + px % tw) * 4 + i % 4 < tw * th * 4
        }),
{
    let aw = tw * tc;
    let ah = th * tc;
    assert(0 <= aw && 0 <= ah) by (nonlinear_arith)
        requires
            aw == tw * tc,
            ah == th * tc,
            0 <= tw,
            0 <= th,
            0 <= tc,
    ;
    assert(0 < aw && 0 < ah) by (nonlinear_arith)
        requires
            0 <= aw,
            0 <= ah,
            0 <= i < aw * ah * 4,
    ;
    assert(0 < tw && 0 < th && 0 < tc) by (nonlinear_arith)
        requires
            aw == tw * tc,
            ah == th * tc,
            0 < aw,
            0 < ah,
            0 <= tw,
            0 <= th,
            0 <= tc,
    ;
    let p = i / 4;
    assert(i < 4 * (aw * ah)) by (nonlinear_arith)
        requires
            i < aw * ah * 4,
    ;
    lemma_multiply_divide_lt(i, 4, aw * ah);
    let px = p % aw;
    let py = p / aw;
    lemma_mod_pos_bound(p, aw);
    lemma_multiply_divide_lt(p, aw, ah);
    lemma_multiply_divide_lt(px, tw, tc);
    lemma_multiply_divide_lt(py, th, tc);
    lemma_mod_pos_bound(px, tw);
    lemma_mod_pos_bound(py, th);
    lemma_mod_pos_bound(i, 4);
    let a = py / th;
    let b = px / tw;
    assert(0 <= a * tc + b < tc * tc) by (nonlinear_arith)
        requires
            0 <= a < tc,
            0 <= b < tc,
    ;
    assert(tc * tc <= aw * ah) by (nonlinear_arith)
        requires
            aw == tw * tc,
            ah == th * tc,
            1 <= tw,
            1 <= th,
            0 <= tc,
    ;
    let x = px % tw;
    let y = py % th;
    let c = i % 4;
    assert(0 <= (y * tw + x) * 4 + c < tw * th * 4) by (nonlinear_arith)
        requires
            0 <= x < tw,
            0 <= y < th,
            0 <= c < 4,
    ;
    assert(0 <= y * tw <= y * tw + x < tw * th) by (nonlinear_arith)
        requires
            0 <= x < tw,
            0 <= y < th,
    ;
    assert(aw <= aw * ah * 4) by (nonlinear_arith)
        requires
            0 < aw,
            0 < ah,
    ;
}

/// Channel `c` of the placeholder texture at `(x, y)`.
fn default_texture_byte(x: usize, y: usize, c: usize) -> (r: u8)
    ensures
        r == placeholder_byte(x as int, y as int, c as int),
{
    if c == 3 {
        255
    } else if (x / 8 + y / 8) % 2 == 0 {
        0
    } else {
        255
    }
}

/// Byte `i` of the packed sheet.
fn atlas_byte(sources: &Vec<TileSource>, ids: &Vec<usize>, tw: usize, th: usize, tc: usize, i: usize) -> (r: u8)
    requires
        i < tw * tc * (th * tc) * 4,
        tw * tc * (th * tc) * 4 <= usize::MAX,
        forall|k: int|
            0 <= k < ids@.len() ==> #[trigger] ids@[k] < sources@.len() && accepts(
                sources@[ids@[k] as int],
                tw as int,
                th as int,
            ),
    ensures
        r == sheet_byte(sources@, ids@, tw as int, th as int, tc as int, i as int),
{
    proof {
        lemma_sheet_index(i as int, tw as int, th as int, tc as int);
    }
    let aw = tw * tc;
    let p = i / 4;
    let c = i % 4;
    let px = p % aw;
    let py = p / aw;
    let slot = (py / th) * tc + px / tw;
    let x = px % tw;
    let y = py % th;
    if slot == 0 {
        default_texture_byte(x, y, c)
    } else if slot <= ids.len() {
        match &sources[ids[slot - 1]].image {
            Some(img) => {
                let len = img.pixels.len();
                assert(len == tw * th * 4);
                img.pixels[(y * tw + x) * 4 + c]
            },
            None => 0,
        }
    } else {
        0
    }
}

/// Whether `src` holds a readable image.
fn is_readable(src: &TileSource) -> (r: bool)
    ensures
        r == readable(*src),
{
    match &src.image {
        Some(img) => {
            assert((img.width as int) * (img.height as int) <= u64::MAX) by (nonlinear_arith)
                requires
                    img.width <= u32::MAX,
                    img.height <= u32::MAX,
            ;
            (img.width as u128) * (img.height as u128) * 4 == img.pixels.len() as u128
        },
        None => false,
    }
}

/// Whether `src` holds a readable `w` by `h` image.
fn accepts_tile(src: &TileSource, w: u32, h: u32) -> (r: bool)
    ensures
        r == accepts(*src, w as int, h as int),
{
    match &src.image {
        Some(img) => is_readable(src) && img.width == w && img.height == h,
        None => false,
    }
}

impl View for Atlas {
    type V = AtlasView;

    closed spec fn view(&self) -> AtlasView {
        AtlasView {
            tile_width: self.tile_width as nat,
            tile_height: self.tile_height as nat,
            tile_count: self.tile_count as nat,
            pixels: self.image.pixels@,
            names: self.names@.map_values(|s: String| s@),
        }
    }
}

impl Atlas {
    #[verifier::type_invariant]
    spec fn wf(self) -> bool {
        &&& 1 <= self.names@.len() <= u32::MAX
        &&& self.names@.len() <= self.tile_count * self.tile_count
        &&& self.image.width == self.tile_width * self.tile_count
        &&& self.image.height == self.tile_height * self.tile_count
        &&& self.image.valid()
    }

    /// Packs the sources into one square sheet of `ceil_sqrt(n + 1)` by
    /// `ceil_sqrt(n + 1)` tiles, `n` being the number of sources.
    ///
    /// The first readable image fixes the tile size. Tile 0 is a black and white
    /// placeholder named "default"; every later source with a readable image
    /// of that size takes the next id, under its name, and the others are
    /// left out. Nothing is returned where no image is readable or the sheet
    /// would not fit the machine's integers.
    pub fn pack(sources: &Vec<TileSource>) -> (r: Option<Atlas>)
        ensures
            r is Some <==> packable(sources@),
            r matches Some(a) ==> a@ == packed(sources@),
    {
        let n = sources.len();
        let mut first: usize = 0;
        while first < n
            invariant
                first <= n,
                n == sources@.len(),
                first_readable(sources@) == first_readable_from(sources@, first as nat),
            ensures
                first == first_readable(sources@),
                first < n ==> readable(sources@[first as int]),
            decreases n - first,
        {
            if is_readable(&sources[first]) {
                break;
            }
            first += 1;
        }
        if first == n || n >= u32::MAX as usize {
            return None;
        }
        let (tw, th) = match &sources[first].image {
            Some(img) => (img.width, img.height),
            None => return None,
        };
        let tc = ceil_sqrt(n + 1);
        let aw = match (tw as usize).checked_mul(tc) {
            Some(v) => v,
            None => return None,
        };
        let ah = match (th as usize).checked_mul(tc) {
            Some(v) => v,
            None => return None,
        };
        if aw > u32::MAX as usize || ah > u32::MAX as usize {
            return None;
        }
        let len = match aw.checked_mul(ah) {
            Some(v) => match v.checked_mul(4) {
                Some(w) => w,
                None => return None,
            },
            None => return None,
        };
        let ghost s = sources@;
        let mut ids: Vec<usize> = Vec::new();
        let mut names: Vec<String> = Vec::new();
        names.push("default".to_owned());
        let mut i: usize = 0;
        while i < n
            invariant
                i <= n,
                n == s.len(),
                s == sources@,
                ids@ == accepted(s, tw as int, th as int, i as int),
                ids@.len() <= i,
                forall|k: int|
                    0 <= k < ids@.len() ==> #[trigger] ids@[k] < i && accepts(
                        s[ids@[k] as int],
                        tw as int,
                        th as int,
                    ),
                names@.len() == ids@.len() + 1,
                names@[0]@ == "default"@,
                forall|k: int| 0 <= k < ids@.len() ==> #[trigger] names@[k + 1]@ == s[ids@[k] as int].name@,
            decreases n - i,
        {
            if accepts_tile(&sources[i], tw, th) {
                ids.push(i);
                names.push(sources[i].name.clone());
            }
            i += 1;
        }
        let mut pixels: Vec<u8> = Vec::with_capacity(len);
        let mut j: usize = 0;
        while j < len
            invariant
                j <= len,
                len == aw * ah * 4,
                aw == tw * tc,
                ah == th * tc,
                aw * ah * 4 <= usize::MAX,
                pixels@.len() == j,
                forall|k: int|
                    0 <= k < ids@.len() ==> #[trigger] ids@[k] < sources@.len() && accepts(
                        sources@[ids@[k] as int],
                        tw as int,
                        th as int,
                    ),
                forall|q: int|
                    0 <= q < j ==> #[trigger] pixels@[q] == sheet_byte(
                        sources@,
                        ids@,
                        tw as int,
                        th as int,
                        tc as int,
                        q,
                    ),
            decreases len - j,
        {
            pixels.push(atlas_byte(sources, &ids, tw as usize, th as usize, tc, j));
            j += 1;
        }
        let ghost view = packed(s);
        assert(pixels@ =~= view.pixels);
        let ghost mapped = names@.map_values(|t: String| t@);
        assert forall|k: int| 0 <= k < names@.len() implies #[trigger] mapped[k] == view.names[k] by {
            if k > 0 {
                assert(names@[(k - 1) + 1]@ == s[ids@[k - 1] as int].name@);
            }
        }
        assert(mapped =~= view.names);
        Some(
            Atlas {
                image: Image { width: aw as u32, height: ah as u32, pixels },
                tile_width: tw as usize,
                tile_height: th as usize,
                tile_count: tc,
                names,
            },
        )
    }

    /// The packed RGBA sheet.
    pub fn image(&self) -> (r: &Image)
        ensures
            r.pixels@ == self@.pixels,
            r.width == self@.tile_width * self@.tile_count,
            r.height == self@.tile_height * self@.tile_count,
            r.valid(),
    {
        proof {
            use_type_invariant(self);
        }
        &self.image
    }

    /// Pixels per side of one tile.
    pub fn tile_size(&self) -> (r: usize)
        ensures
            r == self@.tile_width,
    {
        self.tile_width
    }

    /// Tiles per row and per column of the sheet.
    pub fn tile_count(&self) -> (r: usize)
        ensures
            r == self@.tile_count,
    {
        self.tile_count
    }

    /// The tile id registered under `name`, or the placeholder id where no
    /// tile has that name.
    pub fn get(&self, name: &str) -> (r: u32)
        ensures
            r == lookup(self@.names, name@),
            r < self@.names.len(),
            r < self@.tile_count * self@.tile_count,
    {
        proof {
            use_type_invariant(self);
            lemma_lookup_bound(self@.names, name@);
        }
        let key = name.to_owned();
        let ghost names = self@.names;
        let mut i: usize = self.names.len();
        assert(names.subrange(0, i as int) =~= names);
        while i > 0
            invariant
                i <= self.names@.len(),
                self.names@.len() <= u32::MAX,
                self.names@.len() <= self.tile_count * self.tile_count,
                names == self@.names,
                names.len() == self.names@.len(),
                key@ == name@,
                lookup(names, key@) == lookup(names.subrange(0, i as int), key@),
            decreases i,
        {
            let ghost prefix = names.subrange(0, i as int);
            assert(prefix.drop_last() =~= names.subrange(0, i - 1));
            assert(names[i - 1] == self.names@[i - 1]@);
            if self.names[i - 1] == key {
                return (i - 1) as u32;
            }
            i -= 1;
        }
        DEFAULT_TILE
    }

    /// The tile ids of a block's six faces.
    pub fn block_texture(&self, id: BlockId) -> (r: BlockTexture)
        ensures
            r.values@ == face_textures(self@.names, id),
            forall|i: int| 0 <= i < 6 ==> #[trigger] r.values@[i] < self@.tile_count * self@.tile_count,
    {
        match id {
            BlockId::Dirt => {
                let id = self.get("dirt");
                let r = BlockTexture { values: [id, id, id, id, id, id] };
                assert(r.values@ =~= face_textures(self@.names, BlockId::Dirt));
                r
            },
            BlockId::Grass => {
                let top = self.get("grass_top");
                let side = self.get("grass_side");
                let bottom = self.get("dirt");
                let r = BlockTexture { values: [side, side, side, side, top, bottom] };
                assert(r.values@ =~= face_textures(self@.names, BlockId::Grass));
                r
            },
            BlockId::Stone => {
                let id = self.get("stone");
                let r = BlockTexture { values: [id, id, id, id, id, id] };
                assert(r.values@ =~= face_textures(self@.names, BlockId::Stone));
                r
            },
            BlockId::Air => {
                let id = self.get("default");
                let r = BlockTexture { values: [id, id, id, id, id, id] };
                assert(r.values@ =~= face_textures(self@.names, BlockId::Air));
                r
            },
        }
    }
}

} // verus!
