//! Where glyphs go in the atlas texture: shelves from top to bottom, each
//! filled from left to right.

use std::collections::HashMap;

use vstd::prelude::*;

use crate::draw::GlyphKey;
use crate::screen::model::max;

verus! {

/// The largest width and height of an atlas.
pub const MAX_ATLAS_SIDE: u32 = 0x4000_0000;

/// Where a glyph goes, and whether the atlas has to be emptied before.
#[derive(Clone, Copy, Debug, PartialEq, Eq, Structural)]
pub struct Placement {
    pub x: u32,
    pub y: u32,
    pub cleared: bool,
}

/// A rectangle of the atlas that holds a glyph.
pub struct GlyphRect {
    pub x: int,
    pub y: int,
    pub width: int,
    pub height: int,
}

impl GlyphRect {
    /// Whether two rectangles have no pixel in common.
    pub open spec fn apart(self, other: GlyphRect) -> bool {
        ||| self.x + self.width <= other.x
        ||| other.x + other.width <= self.x
        ||| self.y + self.height <= other.y
        ||| other.y + other.height <= self.y
    }

    /// Whether a rectangle lies within an atlas, clear of the white pixel in
    /// its corner.
    pub open spec fn inside(self, width: int, height: int) -> bool {
        &&& 1 <= self.x
        &&& 1 <= self.y
        &&& self.x + self.width <= width
        &&& self.y + self.height <= height
    }
}

/// The free part of an atlas. The pixel in the top left corner is white and
/// kept for plain rectangles.
#[derive(Clone, Copy, Debug, PartialEq, Eq, Structural)]
pub struct AtlasPacker {
    pub width: u32,
    pub height: u32,
    pub next_x: u32,
    pub next_y: u32,
    pub row_height: u32,
}

impl AtlasPacker {
    pub open spec fn wf(self) -> bool {
        &&& 2 <= self.width <= MAX_ATLAS_SIDE
        &&& 2 <= self.height <= MAX_ATLAS_SIDE
        &&& 1 <= self.next_x <= self.width + 1
        &&& 1 <= self.next_y < self.height
        &&& self.row_height < self.height
    }

    /// The atlas with nothing in it.
    pub open spec fn emptied(self) -> AtlasPacker {
        AtlasPacker { next_x: 1, next_y: 1, row_height: 0, ..self }
    }

    /// Whether a glyph is small enough for the atlas.
    pub open spec fn admits(self, glyph_width: int, glyph_height: int) -> bool {
        1 <= glyph_width < self.width && 1 <= glyph_height < self.height
    }

    /// Whether a glyph is too wide for the rest of the shelf.
    pub open spec fn shelf_is_full(self, glyph_width: int) -> bool {
        self.next_x + glyph_width + 1 >= self.width
    }

    /// The row where a glyph goes if the atlas does not have to be emptied.
    pub open spec fn shelf_top(self, glyph_width: int) -> int {
        if self.shelf_is_full(glyph_width) {
            self.next_y + self.row_height + 1
        } else {
            self.next_y as int
        }
    }

    /// Where a glyph goes.
    pub open spec fn placement(self, glyph_width: int, glyph_height: int) -> Placement {
        let top = self.shelf_top(glyph_width);
        if top + glyph_height + 1 >= self.height {
            Placement { x: 1, y: 1, cleared: true }
        } else if self.shelf_is_full(glyph_width) {
            Placement { x: 1, y: top as u32, cleared: false }
        } else {
            Placement { x: self.next_x, y: top as u32, cleared: false }
        }
    }

    /// The atlas with one more glyph in it.
    pub open spec fn with_glyph(self, glyph_width: int, glyph_height: int) -> AtlasPacker {
        let place = self.placement(glyph_width, glyph_height);
        let same_shelf = !place.cleared && !self.shelf_is_full(glyph_width);
        AtlasPacker {
            next_x: (place.x + glyph_width + 1) as u32,
            next_y: place.y,
            row_height: if same_shelf {
                max(self.row_height as int, glyph_height) as u32
            } else {
                glyph_height as u32
            },
            ..self
        }
    }

    /// Whether a rectangle lies in the part of the atlas that is in use.
    pub open spec fn covers(self, glyph: GlyphRect) -> bool {
        ||| glyph.y + glyph.height < self.next_y
        ||| glyph.y == self.next_y && glyph.x + glyph.width < self.next_x && glyph.height
            <= self.row_height
    }

    pub fn new(width: u32, height: u32) -> (packer: Self)
        requires
            2 <= width <= MAX_ATLAS_SIDE,
            2 <= height <= MAX_ATLAS_SIDE,
        ensures
            packer.wf(),
            packer == (AtlasPacker { width, height, next_x: 1, next_y: 1, row_height: 0 }),
    {
        AtlasPacker { width, height, next_x: 1, next_y: 1, row_height: 0 }
    }

    /// Forgets all glyphs.
    pub fn clear(&mut self)
        requires
            old(self).wf(),
        ensures
            final(self).wf(),
            *final(self) == old(self).emptied(),
    {
        self.next_x = 1;
        self.next_y = 1;
        self.row_height = 0;
    }

    /// Finds room for a glyph: on the current shelf, on a new one, or in the
    /// emptied atlas.
    pub fn place(&mut self, glyph_width: u32, glyph_height: u32) -> (placement: Placement)
        requires
            old(self).wf(),
            old(self).admits(glyph_width as int, glyph_height as int),
        ensures
            final(self).wf(),
            placement == old(self).placement(glyph_width as int, glyph_height as int),
            *final(self) == old(self).with_glyph(glyph_width as int, glyph_height as int),
    {
        if self.next_x + glyph_width + 1 >= self.width {
            self.next_x = 1;
            self.next_y = self.next_y.saturating_add(self.row_height + 1);
            self.row_height = 0;
        }
        let cleared: bool = self.next_y + glyph_height + 1 >= self.height;
        if cleared {
            self.next_x = 1;
            self.next_y = 1;
            self.row_height = 0;
        }
        let x: u32 = self.next_x;
        let y: u32 = self.next_y;
        self.next_x = self.next_x.saturating_add(glyph_width + 1);
        self.row_height = self.row_height.max(glyph_height);
        Placement { x, y, cleared }
    }
}

/// The pixels that a glyph is uploaded with.
pub open spec fn upload_of(width: int, height: int, bitmap: Seq<u8>) -> Seq<u8> {
    if width == 0 || height == 0 || bitmap.len() == 0 {
        seq![0u8]
    } else {
        bitmap
    }
}

/// The pixels to upload for a glyph: its bitmap, or a single transparent pixel
/// if it has none.
pub fn glyph_upload(width: usize, height: usize, bitmap: Vec<u8>) -> (pixels: Vec<u8>)
    ensures
        pixels@ == (if width == 0 || height == 0 || bitmap@.len() == 0 {
            seq![0u8]
        } else {
            bitmap@
        }),
        pixels@ == upload_of(width as int, height as int, bitmap@),
{
    if width == 0 || height == 0 || bitmap.len() == 0 {
        let pixels: Vec<u8> = vec![0];
        assert(pixels@ =~= seq![0u8]);
        pixels
    } else {
        bitmap
    }
}

/// The rectangle that a glyph gets.
pub open spec fn placed_rect(packer: AtlasPacker, width: int, height: int) -> GlyphRect {
    let place = packer.placement(width, height);
    GlyphRect { x: place.x as int, y: place.y as int, width: width, height: height }
}

/// A new glyph lies within the atlas and has no pixel in common with a glyph that
/// is still there. Both lie in the part of the atlas that is then in use.
pub proof fn law_glyphs_do_not_overlap(
    packer: AtlasPacker,
    glyph: GlyphRect,
    width: int,
    height: int,
)
    requires
        packer.wf(),
        packer.admits(width, height),
        packer.covers(glyph),
    ensures
        placed_rect(packer, width, height).inside(packer.width as int, packer.height as int),
        packer.with_glyph(width, height).covers(placed_rect(packer, width, height)),
        !packer.placement(width, height).cleared ==> {
            &&& placed_rect(packer, width, height).apart(glyph)
            &&& packer.with_glyph(width, height).covers(glyph)
        },
{
}

/// A glyph as the font draws it: the size of its bitmap, how it lies relative to
/// its cell, and the bits of its advance.
#[derive(Clone, Copy, Debug, PartialEq, Eq, Structural)]
pub struct DrawnGlyph {
    pub width: usize,
    pub height: usize,
    pub xmin: i32,
    pub ymin: i32,
    pub advance_bits: u32,
}

impl DrawnGlyph {
    /// The width that the glyph takes in the atlas.
    pub open spec fn atlas_width(self) -> int {
        max(self.width as int, 1)
    }

    /// The height that the glyph takes in the atlas.
    pub open spec fn atlas_height(self) -> int {
        max(self.height as int, 1)
    }
}

/// A glyph in the atlas: its rectangle, how it lies relative to its cell, and the
/// bits of its advance.
#[derive(Clone, Copy, Debug, PartialEq, Eq, Structural)]
pub struct CachedGlyph {
    pub x: u32,
    pub y: u32,
    pub width: u32,
    pub height: u32,
    pub xmin: i32,
    pub ymin: i32,
    pub advance_bits: u32,
}

impl CachedGlyph {
    pub open spec fn rect(self) -> GlyphRect {
        GlyphRect {
            x: self.x as int,
            y: self.y as int,
            width: self.width as int,
            height: self.height as int,
        }
    }
}

/// The number that stands for a glyph image.
pub open spec fn glyph_code(key: GlyphKey) -> int {
    key.ch as int + (if key.bold {
        0x20_0000int
    } else {
        0
    }) + (if key.italic {
        0x40_0000int
    } else {
        0
    })
}

fn code_of(key: GlyphKey) -> (code: u64)
    ensures
        code == glyph_code(key),
{
    let bold: u64 = if key.bold {
        0x20_0000
    } else {
        0
    };
    let italic: u64 = if key.italic {
        0x40_0000
    } else {
        0
    };
    key.ch as u64 + bold + italic
}

/// Different glyph images have different numbers.
pub proof fn law_glyph_codes_differ(a: GlyphKey, b: GlyphKey)
    requires
        glyph_code(a) == glyph_code(b),
    ensures
        a == b,
{
}

/// The glyphs in the atlas, by their numbers, and the room that is left.
#[verifier::ext_equal]
pub struct CacheModel {
    pub packer: AtlasPacker,
    pub glyphs: Map<u64, CachedGlyph>,
}

impl CacheModel {
    /// The glyphs lie within the atlas, and no two of them overlap.
    pub open spec fn wf(self) -> bool {
        &&& self.packer.wf()
        &&& forall|code: u64| #[trigger]
            self.glyphs.dom().contains(code) ==> {
                let glyph = self.glyphs[code];
                &&& glyph.rect().inside(self.packer.width as int, self.packer.height as int)
                &&& self.packer.covers(glyph.rect())
            }
        &&& forall|a: u64, b: u64|
            #![trigger self.glyphs.dom().contains(a), self.glyphs.dom().contains(b)]
            self.glyphs.dom().contains(a) && self.glyphs.dom().contains(b) && a != b
                ==> self.glyphs[a].rect().apart(self.glyphs[b].rect())
    }

    /// The place of a glyph, if it is in the atlas.
    pub open spec fn found(self, key: GlyphKey) -> Option<CachedGlyph> {
        if self.glyphs.dom().contains(glyph_code(key) as u64) {
            Some(self.glyphs[glyph_code(key) as u64])
        } else {
            None
        }
    }

    /// Whether a glyph is small enough for the atlas.
    pub open spec fn admits(self, drawn: DrawnGlyph) -> bool {
        self.packer.admits(drawn.atlas_width(), drawn.atlas_height())
    }

    /// Where a new glyph goes.
    pub open spec fn placement(self, drawn: DrawnGlyph) -> Placement {
        self.packer.placement(drawn.atlas_width(), drawn.atlas_height())
    }

    /// The glyphs that stay when another one comes.
    pub open spec fn kept(self, drawn: DrawnGlyph) -> Map<u64, CachedGlyph> {
        if self.placement(drawn).cleared {
            Map::empty()
        } else {
            self.glyphs
        }
    }

    /// The entry that a new glyph gets.
    pub open spec fn new_glyph(self, drawn: DrawnGlyph) -> CachedGlyph {
        CachedGlyph {
            x: self.placement(drawn).x,
            y: self.placement(drawn).y,
            width: drawn.atlas_width() as u32,
            height: drawn.atlas_height() as u32,
            xmin: drawn.xmin,
            ymin: drawn.ymin,
            advance_bits: drawn.advance_bits,
        }
    }

    /// The atlas with one more glyph in it.
    pub open spec fn with_glyph(self, key: GlyphKey, drawn: DrawnGlyph) -> CacheModel {
        CacheModel {
            packer: self.packer.with_glyph(drawn.atlas_width(), drawn.atlas_height()),
            glyphs: self.kept(drawn).insert(glyph_code(key) as u64, self.new_glyph(drawn)),
        }
    }

    /// The atlas after a glyph was asked for, which is drawn if it is not there.
    pub open spec fn requested(self, key: GlyphKey, drawn: DrawnGlyph) -> CacheModel {
        if self.found(key) is Some {
            self
        } else {
            self.with_glyph(key, drawn)
        }
    }

    /// The entry that is given to who asks for a glyph.
    pub open spec fn answer(self, key: GlyphKey, drawn: DrawnGlyph) -> CachedGlyph {
        match self.found(key) {
            Some(glyph) => glyph,
            None => self.new_glyph(drawn),
        }
    }

    /// The atlas with nothing in it.
    pub open spec fn emptied(self) -> CacheModel {
        CacheModel { packer: self.packer.emptied(), glyphs: Map::empty() }
    }
}

/// Adding a glyph keeps the others apart.
proof fn lemma_with_glyph(cache: CacheModel, key: GlyphKey, drawn: DrawnGlyph)
    requires
        cache.wf(),
        cache.admits(drawn),
    ensures
        cache.with_glyph(key, drawn).wf(),
{
    let width = drawn.atlas_width();
    let height = drawn.atlas_height();
    let after = cache.with_glyph(key, drawn);
    let kept = cache.kept(drawn);
    let own = glyph_code(key) as u64;
    assert(after.glyphs.dom() =~= kept.dom().insert(own));
    assert(after.glyphs[own].rect() == placed_rect(cache.packer, width, height));
    assert(after.glyphs[own].rect().inside(
        cache.packer.width as int,
        cache.packer.height as int,
    ));
    assert(after.packer.covers(after.glyphs[own].rect()));
    assert forall|code: u64| kept.dom().contains(code) implies after.packer.covers(
        #[trigger] kept[code].rect(),
    ) && after.glyphs[own].rect().apart(kept[code].rect()) by {
        assert(cache.glyphs.dom().contains(code));
        law_glyphs_do_not_overlap(cache.packer, kept[code].rect(), width, height);
    }
    assert forall|a: u64, b: u64|
        #![trigger after.glyphs.dom().contains(a), after.glyphs.dom().contains(b)]
        after.glyphs.dom().contains(a) && after.glyphs.dom().contains(b) && a
            != b implies after.glyphs[a].rect().apart(after.glyphs[b].rect()) by {
        if a == own {
            assert(kept.dom().contains(b));
            assert(after.glyphs[b] == kept[b]);
        } else if b == own {
            assert(kept.dom().contains(a));
            assert(after.glyphs[a] == kept[a]);
        } else {
            assert(cache.glyphs.dom().contains(a) && cache.glyphs.dom().contains(b));
        }
    }
}

/// The glyphs that have been drawn into the atlas. A glyph has to be drawn only
/// when it is not found here.
pub struct GlyphCache {
    packer: AtlasPacker,
    glyphs: HashMap<u64, CachedGlyph>,
}

impl View for GlyphCache {
    type V = CacheModel;

    closed spec fn view(&self) -> CacheModel {
        CacheModel { packer: self.packer, glyphs: self.glyphs@ }
    }
}

/// A glyph that has to be drawn, and whether the atlas has to be emptied before.
#[derive(Clone, Copy, Debug, PartialEq, Eq, Structural)]
pub struct NewGlyph {
    pub glyph: CachedGlyph,
    pub cleared: bool,
}

impl GlyphCache {
    pub fn new(width: u32, height: u32) -> (cache: Self)
        requires
            2 <= width <= MAX_ATLAS_SIDE,
            2 <= height <= MAX_ATLAS_SIDE,
        ensures
            cache@.wf(),
            cache@ == (CacheModel {
                packer: AtlasPacker { width, height, next_x: 1, next_y: 1, row_height: 0 },
                glyphs: Map::empty(),
            }),
    {
        GlyphCache { packer: AtlasPacker::new(width, height), glyphs: HashMap::new() }
    }

    pub fn width(&self) -> (width: u32)
        ensures
            width == self@.packer.width,
    {
        self.packer.width
    }

    pub fn height(&self) -> (height: u32)
        ensures
            height == self@.packer.height,
    {
        self.packer.height
    }

    /// Whether a glyph is small enough for the atlas.
    pub fn admits(&self, drawn: &DrawnGlyph) -> (admitted: bool)
        requires
            self@.wf(),
        ensures
            admitted == self@.admits(*drawn),
    {
        drawn.width < self.packer.width as usize && drawn.height < self.packer.height as usize
    }

    pub fn find(&self, key: GlyphKey) -> (glyph: Option<CachedGlyph>)
        ensures
            glyph == self@.found(key),
    {
        broadcast use vstd::std_specs::hash::group_hash_axioms;

        match self.glyphs.get(&code_of(key)) {
            Some(glyph) => Some(*glyph),
            None => None,
        }
    }

    /// Finds room for a glyph that is not in the atlas yet.
    pub fn add_glyph(&mut self, key: GlyphKey, drawn: &DrawnGlyph) -> (added: NewGlyph)
        requires
            old(self)@.wf(),
            old(self)@.admits(*drawn),
            old(self)@.found(key) is None,
        ensures
            final(self)@.wf(),
            final(self)@ == old(self)@.with_glyph(key, *drawn),
            added.glyph == old(self)@.new_glyph(*drawn),
            added.cleared == old(self)@.placement(*drawn).cleared,
    {
        broadcast use vstd::std_specs::hash::group_hash_axioms;

        proof {
            lemma_with_glyph(self@, key, *drawn);
        }
        let width: u32 = drawn.width.max(1) as u32;
        let height: u32 = drawn.height.max(1) as u32;
        let place: Placement = self.packer.place(width, height);
        if place.cleared {
            self.glyphs.clear();
        }
        let glyph = CachedGlyph {
            x: place.x,
            y: place.y,
            width,
            height,
            xmin: drawn.xmin,
            ymin: drawn.ymin,
            advance_bits: drawn.advance_bits,
        };
        self.glyphs.insert(code_of(key), glyph);
        assert(self@ =~= old(self)@.with_glyph(key, *drawn));
        NewGlyph { glyph, cleared: place.cleared }
    }

    /// Forgets all glyphs.
    pub fn clear(&mut self)
        requires
            old(self)@.wf(),
        ensures
            final(self)@.wf(),
            final(self)@ == old(self)@.emptied(),
    {
        self.packer.clear();
        self.glyphs.clear();
        assert(self@.glyphs =~= Map::empty());
    }
}

/// A glyph that was added is found again without being drawn, and as long as the
/// atlas was not emptied every other glyph is found where it was.
pub proof fn law_cached_glyphs_are_found(
    cache: CacheModel,
    key: GlyphKey,
    other: GlyphKey,
    drawn: DrawnGlyph,
)
    requires
        cache.wf(),
        key != other,
    ensures
        cache.with_glyph(key, drawn).found(key) == Some(cache.new_glyph(drawn)),
        !cache.placement(drawn).cleared ==> cache.with_glyph(key, drawn).found(other)
            == cache.found(other),
        cache.emptied().found(other) is None,
{
}

/// Who asks for a glyph gets the entry that is then in the atlas. Asking for it
/// again gives the same entry in every field and leaves the atlas as it is,
/// whatever the font would draw this time.
pub proof fn law_asking_again_gives_the_same_glyph(
    cache: CacheModel,
    key: GlyphKey,
    drawn: DrawnGlyph,
    again: DrawnGlyph,
)
    requires
        cache.wf(),
    ensures
        cache.requested(key, drawn).found(key) == Some(cache.answer(key, drawn)),
        cache.requested(key, drawn).answer(key, again) == cache.answer(key, drawn),
        cache.requested(key, drawn).requested(key, again) == cache.requested(key, drawn),
{
}

} // verus!
