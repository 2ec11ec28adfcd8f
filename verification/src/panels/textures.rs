//! The textures of a material: its slots and their files, the thumbnails, and
//! the cache of which files are there.

use vstd::hash_map::StringHashMap;
use vstd::prelude::*;

use super::materials::TexAction;
use crate::pick::{
    as_places, lemma_places, lemma_places_rise, lemma_places_same, marked_places, places,
};
use crate::text::{cat2, cat3, str_eq};

verus! {

// ---- the slots -------------------------------------------------------------

/// A texture that a material names.
pub struct TextureSlot {
    pub material: String,
    /// The slot, such as `base_color`.
    pub slot: String,
    /// The file as the source names it.
    pub path: String,
}

/// A slot that a path can be written to.
#[derive(Clone, Copy, Debug)]
pub struct SlotRow {
    pub slot: &'static str,
    pub attr: &'static str,
}

/// The slots that a path can be written to, in order.
pub open spec fn slot_rows() -> Seq<SlotRow> {
    seq![
        SlotRow { slot: "base_color", attr: "base_color_texture" },
        SlotRow { slot: "metallic_roughness", attr: "metallic_roughness_texture" },
        SlotRow { slot: "normal", attr: "normal_texture" },
        SlotRow { slot: "occlusion", attr: "occlusion_texture" },
        SlotRow { slot: "emissive", attr: "emissive_texture" },
    ]
}

/// The slots that a path can be written to, in order.
pub fn all_slot_rows() -> (r: Vec<SlotRow>)
    ensures
        r@ == slot_rows(),
{
    let mut r: Vec<SlotRow> = Vec::new();
    r.push(SlotRow { slot: "base_color", attr: "base_color_texture" });
    r.push(SlotRow { slot: "metallic_roughness", attr: "metallic_roughness_texture" });
    r.push(SlotRow { slot: "normal", attr: "normal_texture" });
    r.push(SlotRow { slot: "occlusion", attr: "occlusion_texture" });
    r.push(SlotRow { slot: "emissive", attr: "emissive_texture" });
    assert(r@ =~= slot_rows());
    r
}

/// Whether a texture belongs to a material.
pub open spec fn belongs_to(slots: Seq<TextureSlot>, material: Seq<char>) -> spec_fn(int) -> bool {
    |i: int| slots[i].material@ == material
}

/// The textures of one material, in order.
pub fn slots_of(slots: &Vec<TextureSlot>, material: &str) -> (r: Vec<usize>)
    ensures
        as_places(r@) == places(belongs_to(slots@, material@), slots@.len()),
{
    let mut marks: Vec<bool> = Vec::new();
    let mut i: usize = 0;
    while i < slots.len()
        invariant
            i <= slots@.len(),
            marks@.len() == i,
            forall|j: int|
                0 <= j < i ==> #[trigger] marks@[j] == belongs_to(slots@, material@)(j),
        decreases slots.len() - i,
    {
        marks.push(str_eq(slots[i].material.as_str(), material));
        i = i + 1;
    }
    let r = marked_places(&marks);
    proof {
        lemma_places_same(
            |i: int| marks@[i],
            belongs_to(slots@, material@),
            slots@.len(),
        );
    }
    r
}

/// Whether a slot is written for a material.
pub open spec fn is_authored(slots: Seq<TextureSlot>, material: Seq<char>, slot: Seq<char>) -> bool {
    exists|i: int|
        0 <= i < slots.len() && (#[trigger] slots[i]).material@ == material && slots[i].slot@ == slot
}

/// The first texture of a material in a slot.
pub fn texture_in(slots: &Vec<TextureSlot>, material: &str, slot: &str) -> (r: Option<usize>)
    ensures
        r is Some == is_authored(slots@, material@, slot@),
        r matches Some(i) ==> {
            &&& i < slots@.len()
            &&& slots@[i as int].material@ == material@
            &&& slots@[i as int].slot@ == slot@
            &&& forall|j: int|
                0 <= j < i ==> !((#[trigger] slots@[j]).material@ == material@ && slots@[j].slot@
                    == slot@)
        },
{
    let mut i: usize = 0;
    while i < slots.len()
        invariant
            i <= slots@.len(),
            forall|j: int|
                0 <= j < i ==> !((#[trigger] slots@[j]).material@ == material@ && slots@[j].slot@
                    == slot@),
        decreases slots.len() - i,
    {
        if str_eq(slots[i].material.as_str(), material) && str_eq(slots[i].slot.as_str(), slot) {
            assert(slots@[i as int].material@ == material@);
            return Some(i);
        }
        i = i + 1;
    }
    None
}

/// Whether a slot is written for a material; then it can be cleared.
pub fn can_clear(slots: &Vec<TextureSlot>, material: &str, slot: &str) -> (r: bool)
    ensures
        r == is_authored(slots@, material@, slot@),
{
    texture_in(slots, material, slot).is_some()
}

// ---- the controls ----------------------------------------------------------

/// The label of the button that runs the texture pipeline, and what it says of
/// itself when it is enabled.
pub fn generate_button(albedo_exists: bool) -> (r: (&'static str, &'static str))
    ensures
        r.0@ == if albedo_exists {
            "Regenerate"@
        } else {
            "Generate"@
        },
        r.1@ == if albedo_exists {
            "Re-run the textures pipeline for this material (forces overwrite of existing PNGs)"@
        } else {
            "Run the textures pipeline for this material — writes a base_color PNG (plus derived normal/MR/AO) into ./textures/"@
        },
{
    if albedo_exists {
        (
            "Regenerate",
            "Re-run the textures pipeline for this material (forces overwrite of existing PNGs)",
        )
    } else {
        (
            "Generate",
            "Run the textures pipeline for this material — writes a base_color PNG (plus derived normal/MR/AO) into ./textures/",
        )
    }
}

/// Which of the controls of a material's textures was clicked.
pub enum TexClick {
    Generate,
    Delete,
    Reveal,
}

/// What a click does. Generating needs the pipeline; the other two need the
/// albedo's file. `albedo` is where that file is looked for.
pub fn texture_click(
    material: &str,
    albedo: &Option<String>,
    albedo_exists: bool,
    enabled: bool,
    click: TexClick,
) -> (r: Option<TexAction>)
    requires
        albedo_exists ==> albedo is Some,
    ensures
        match (click, r) {
            (TexClick::Generate, Some(TexAction::Regenerate(m))) => enabled && m@ == material@,
            (TexClick::Generate, None) => !enabled,
            (TexClick::Delete, Some(TexAction::Delete(m))) => albedo_exists && m@ == material@,
            (TexClick::Reveal, Some(TexAction::Reveal(p))) => albedo_exists && p@ == (albedo->0)@,
            (TexClick::Delete, None) => !albedo_exists,
            (TexClick::Reveal, None) => !albedo_exists,
            _ => false,
        },
{
    match click {
        TexClick::Generate => if enabled {
            Some(TexAction::Regenerate(material.to_owned()))
        } else {
            None
        },
        TexClick::Delete => if albedo_exists {
            Some(TexAction::Delete(material.to_owned()))
        } else {
            None
        },
        TexClick::Reveal => if albedo_exists {
            match albedo {
                Some(p) => Some(TexAction::Reveal(p.clone())),
                None => None,
            }
        } else {
            None
        },
    }
}

/// The mark in front of a texture, and what it says of itself. `resolved` is
/// where the file was looked for.
pub fn slot_mark(resolved: &str, found: bool) -> (r: (&'static str, String))
    ensures
        r.0@ == if found {
            "✓"@
        } else {
            "✗"@
        },
        r.1@ == if found {
            "Found at "@ + resolved@
        } else {
            "File not found at "@ + resolved@
                + "\nRegenerate or update the path attribute in the .mog source."@
        },
{
    if found {
        ("✓", cat2("Found at ", resolved))
    } else {
        (
            "✗",
            cat3(
                "File not found at ",
                resolved,
                "\nRegenerate or update the path attribute in the .mog source.",
            ),
        )
    }
}

// ---- which files are there -------------------------------------------------

/// What a look at the disk found, and when, in milliseconds.
#[derive(Clone, Copy, Debug)]
pub struct Sighting {
    pub found: bool,
    pub checked: u64,
}

/// Which files are there, as of the last look.
pub struct ExistsCache {
    seen: StringHashMap<Sighting>,
}

impl View for ExistsCache {
    type V = Map<Seq<char>, Sighting>;

    closed spec fn view(&self) -> Map<Seq<char>, Sighting> {
        self.seen@
    }
}

/// Whether a sighting still counts at `now`.
pub open spec fn is_fresh(s: Sighting, now: u64, ttl: u64) -> bool {
    ttl > 0 && now - s.checked < ttl
}

impl ExistsCache {
    pub fn new() -> (r: Self)
        ensures
            r@ == Map::<Seq<char>, Sighting>::empty(),
    {
        ExistsCache { seen: StringHashMap::new() }
    }

    /// Forgets everything.
    pub fn clear(&mut self)
        ensures
            final(self)@ == Map::<Seq<char>, Sighting>::empty(),
    {
        self.seen.clear()
    }

    /// Whether a file is there. A sighting counts for `ttl` milliseconds; only
    /// then `look` goes to the disk again.
    pub fn cached_exists<F: Fn(&str) -> bool>(&mut self, path: &str, now: u64, ttl: u64, look: F) -> (r:
        bool)
        requires
            call_requires(look, (path,)),
        ensures
            if old(self)@.contains_key(path@) && is_fresh(old(self)@[path@], now, ttl) {
                r == old(self)@[path@].found && final(self)@ == old(self)@
            } else {
                call_ensures(look, (path,), r) && final(self)@ == old(self)@.insert(
                    path@,
                    Sighting { found: r, checked: now },
                )
            },
    {
        if let Some(s) = self.seen.get(path) {
            if ttl > 0 && (now <= s.checked || now - s.checked < ttl) {
                return s.found;
            }
        }
        let found = look(path);
        self.seen.insert(path.to_owned(), Sighting { found, checked: now });
        found
    }
}

/// Whether a thumbnail that was made when its file was last written at `made`
/// can be shown for a file that was last written at `mtime`.
pub fn thumb_is_current(made: Option<u64>, mtime: Option<u64>) -> (r: bool)
    ensures
        r == (made == mtime),
{
    match (made, mtime) {
        (None, None) => true,
        (Some(a), Some(b)) => a == b,
        _ => false,
    }
}

// ---- thumbnails ------------------------------------------------------------

/// A picture: four bytes for each pixel, row by row.
#[derive(Debug)]
pub struct Raster {
    pub width: u32,
    pub height: u32,
    pub pixels: Vec<u8>,
}

/// A picture as plain values.
pub struct Pixels {
    pub width: u32,
    pub height: u32,
    pub bytes: Seq<u8>,
}

impl View for Raster {
    type V = Pixels;

    open spec fn view(&self) -> Pixels {
        Pixels { width: self.width, height: self.height, bytes: self.pixels@ }
    }
}

/// How many bytes a picture of a size takes.
pub open spec fn byte_count(width: u32, height: u32) -> int {
    4 * (width as int) * (height as int)
}

/// The width and height of a thumbnail that had to be made smaller.
pub const THUMB_SIDE: u32 = 128;

/// What `image::load_from_memory_with_format` reads from the bytes of a PNG
/// file: the width, the height, and four bytes for each pixel. None when the
/// bytes cannot be read.
pub uninterp spec fn png_pixels(bytes: Seq<u8>) -> Option<(u32, u32, Seq<u8>)>;

/// What `image::imageops::resize` makes of a picture, with its triangle filter,
/// in a square of a side.
pub uninterp spec fn resized(width: u32, height: u32, bytes: Seq<u8>, side: u32) -> Seq<u8>;

/// Calls `image::load_from_memory_with_format` for the PNG format and hands
/// the picture out, by `DynamicImage::to_rgba8`, as four bytes for each pixel.
/// What it reads is a function of the bytes, and a picture has four bytes for
/// each pixel. An error of the crate comes out as none; which bytes it can
/// read is left unsaid.
#[verifier::external_body]
fn decode_png(bytes: &Vec<u8>) -> (r: Option<Raster>)
    ensures
        match r {
            Some(p) => png_pixels(bytes@) == Some((p.width, p.height, p.pixels@)) && p.pixels@.len()
                == byte_count(p.width, p.height),
            None => png_pixels(bytes@) is None,
        },
{
    let read = image::load_from_memory_with_format(bytes, image::ImageFormat::Png);
    let img = read.ok()?.to_rgba8();
    let (width, height) = img.dimensions();
    Some(Raster { width, height, pixels: img.into_raw() })
}

/// Calls `image::imageops::resize` with its triangle filter. What it makes is
/// a function of the picture and the side, and has four bytes for each pixel
/// of the square. The crate first makes a copy of the picture, as high as the
/// square and with four numbers of four bytes for each pixel; the picture and
/// the square must be narrow enough for that.
#[verifier::external_body]
fn resize_to_square(p: &Raster, side: u32) -> (r: Vec<u8>)
    requires
        p.pixels@.len() == byte_count(p.width, p.height),
        side > 0,
        32 * (side as int) * (p.width as int) <= usize::MAX,
        32 * (side as int) * (side as int) <= usize::MAX,
    ensures
        r@ == resized(p.width, p.height, p.pixels@, side),
        r@.len() == byte_count(side, side),
{
    let img = image::RgbaImage::from_raw(p.width, p.height, p.pixels.clone());
    let filter = image::imageops::FilterType::Triangle;
    image::imageops::resize(&img.unwrap(), side, side, filter).into_raw()
}

/// Whether a picture has to be made smaller before it is shown.
pub open spec fn oversized(width: u32, height: u32) -> bool {
    width > THUMB_SIDE || height > THUMB_SIDE
}

/// The thumbnail of a picture: the picture itself, or a smaller one.
pub open spec fn thumb_of(p: Pixels) -> Pixels {
    if oversized(p.width, p.height) {
        Pixels {
            width: THUMB_SIDE,
            height: THUMB_SIDE,
            bytes: resized(p.width, p.height, p.bytes, THUMB_SIDE),
        }
    } else {
        p
    }
}

/// The thumbnail of a picture.
pub fn thumbnail(p: Raster) -> (r: Raster)
    requires
        p.pixels@.len() == byte_count(p.width, p.height),
        4096 * (p.width as int) <= usize::MAX,
    ensures
        r@ == thumb_of(p@),
        r.pixels@.len() == byte_count(r.width, r.height),
        !oversized(r.width, r.height),
{
    if p.width > THUMB_SIDE || p.height > THUMB_SIDE {
        let pixels = resize_to_square(&p, THUMB_SIDE);
        Raster { width: THUMB_SIDE, height: THUMB_SIDE, pixels }
    } else {
        p
    }
}

/// The thumbnail of the picture in the bytes of a PNG file. There is none when
/// they cannot be read, or when the picture is too wide for this machine.
pub fn thumbnail_from_png(bytes: &Vec<u8>) -> (r: Option<Raster>)
    ensures
        match png_pixels(bytes@) {
            None => r is None,
            Some((width, height, bytes)) => if 4096 * (width as int) <= usize::MAX {
                &&& r matches Some(t)
                &&& t@ == thumb_of(Pixels { width, height, bytes })
                &&& t.pixels@.len() == byte_count(t.width, t.height)
            } else {
                r is None
            },
        },
{
    match decode_png(bytes) {
        None => None,
        Some(p) => if p.width as u64 <= usize::MAX as u64 / 4096 {
            Some(thumbnail(p))
        } else {
            None
        },
    }
}

// ---- laws ------------------------------------------------------------------

/// A thumbnail is never wider or higher than 128 pixels, and making the
/// thumbnail of a thumbnail changes nothing.
pub proof fn law_thumbnails_are_small(p: Pixels)
    ensures
        thumb_of(p).width <= THUMB_SIDE,
        thumb_of(p).height <= THUMB_SIDE,
        thumb_of(thumb_of(p)) == thumb_of(p),
{
}

/// There are five slots, and each is written to the attribute of its own name.
pub proof fn law_slots_have_their_own_attribute(r: Vec<SlotRow>)
    requires
        call_ensures(all_slot_rows, (), r),
    ensures
        r@.len() == 5,
        r@[0].slot@ == "base_color"@ && r@[1].slot@ == "metallic_roughness"@ && r@[2].slot@
            == "normal"@ && r@[3].slot@ == "occlusion"@ && r@[4].slot@ == "emissive"@,
        forall|k: int| 0 <= k < 5 ==> (#[trigger] r@[k]).attr@ == r@[k].slot@ + "_texture"@,
{
    reveal_strlit("_texture");
    reveal_strlit("base_color");
    reveal_strlit("metallic_roughness");
    reveal_strlit("normal");
    reveal_strlit("occlusion");
    reveal_strlit("emissive");
    reveal_strlit("base_color_texture");
    reveal_strlit("metallic_roughness_texture");
    reveal_strlit("normal_texture");
    reveal_strlit("occlusion_texture");
    reveal_strlit("emissive_texture");
    assert("base_color_texture"@ =~= "base_color"@ + "_texture"@);
    assert("metallic_roughness_texture"@ =~= "metallic_roughness"@ + "_texture"@);
    assert("normal_texture"@ =~= "normal"@ + "_texture"@);
    assert("occlusion_texture"@ =~= "occlusion"@ + "_texture"@);
    assert("emissive_texture"@ =~= "emissive"@ + "_texture"@);
}

/// The textures of a material are those that name it, all of them, in order.
pub proof fn law_textures_belong_to_their_material(
    slots: &Vec<TextureSlot>,
    material: &str,
    r: Vec<usize>,
)
    requires
        call_ensures(slots_of, (slots, material), r),
    ensures
        forall|k: int|
            0 <= k < r@.len() ==> (#[trigger] r@[k]) < slots@.len() && slots@[r@[k] as int].material@
                == material@,
        forall|i: int|
            0 <= i < slots@.len() && (#[trigger] slots@[i]).material@ == material@ ==> exists|k: int|
                0 <= k < r@.len() && #[trigger] r@[k] == i,
        forall|a: int, b: int| 0 <= a < b < r@.len() ==> (#[trigger] r@[a]) < (#[trigger] r@[b]),
{
    let p = belongs_to(slots@, material@);
    let all = places(p, slots@.len());
    lemma_places(p, slots@.len());
    lemma_places_rise(p, slots@.len());
    assert(r@.len() == as_places(r@).len());
    assert forall|k: int| 0 <= k < r@.len() implies #[trigger] r@[k] as int == all[k] by {
        assert(as_places(r@)[k] == r@[k] as int);
    }
    assert forall|i: int|
        0 <= i < slots@.len() && (#[trigger] slots@[i]).material@ == material@ implies exists|k: int|
        0 <= k < r@.len() && #[trigger] r@[k] == i by {
        assert(p(i));
        assert(all.contains(i));
        let k = choose|k: int| 0 <= k < all.len() && all[k] == i;
        assert(r@[k] as int == all[k]);
    }
}

/// What can be cleared is found, and what is found is the first texture of the
/// material in that slot.
pub proof fn law_found_texture_is_the_first(
    slots: &Vec<TextureSlot>,
    material: &str,
    slot: &str,
    r: Option<usize>,
    clears: bool,
    j: int,
)
    requires
        call_ensures(texture_in, (slots, material, slot), r),
        call_ensures(can_clear, (slots, material, slot), clears),
        0 <= j < slots@.len(),
        slots@[j].material@ == material@,
        slots@[j].slot@ == slot@,
    ensures
        clears,
        r matches Some(i) && i <= j && slots@[i as int].material@ == material@
            && slots@[i as int].slot@ == slot@,
{
    assert(is_authored(slots@, material@, slot@));
}

/// What no texture fills is not found and cannot be cleared.
pub proof fn law_empty_slots_are_not_found(
    slots: &Vec<TextureSlot>,
    material: &str,
    slot: &str,
    r: Option<usize>,
    clears: bool,
)
    requires
        call_ensures(texture_in, (slots, material, slot), r),
        call_ensures(can_clear, (slots, material, slot), clears),
        forall|j: int|
            0 <= j < slots@.len() ==> (#[trigger] slots@[j]).material@ != material@ || slots@[j].slot@
                != slot@,
    ensures
        r is None,
        !clears,
{
}

/// The button generates what is not there and generates again what is.
pub proof fn law_button_names_what_it_does(albedo_exists: bool, r: (&'static str, &'static str))
    requires
        call_ensures(generate_button, (albedo_exists,), r),
    ensures
        albedo_exists ==> r.0@ == "Regenerate"@ && r.1@
            == "Re-run the textures pipeline for this material (forces overwrite of existing PNGs)"@,
        !albedo_exists ==> r.0@ == "Generate"@ && r.1@
            == "Run the textures pipeline for this material — writes a base_color PNG (plus derived normal/MR/AO) into ./textures/"@,
{
}

/// A click acts on the material, or on its file, and does what it says: it
/// generates when the pipeline can run, and deletes or reveals a file that is
/// there.
pub proof fn law_click_acts_on_its_material(
    material: &str,
    albedo: &Option<String>,
    albedo_exists: bool,
    enabled: bool,
    click: TexClick,
    r: Option<TexAction>,
)
    requires
        albedo_exists ==> *albedo is Some,
        call_ensures(texture_click, (material, albedo, albedo_exists, enabled, click), r),
    ensures
        click is Generate && enabled ==> (r matches Some(TexAction::Regenerate(m)) && m@
            == material@),
        click is Generate && !enabled ==> r is None,
        click is Delete && albedo_exists ==> (r matches Some(TexAction::Delete(m)) && m@
            == material@),
        click is Delete && !albedo_exists ==> r is None,
        click is Reveal && albedo_exists ==> (r matches Some(TexAction::Reveal(p)) && p@
            == (albedo->0)@),
        click is Reveal && !albedo_exists ==> r is None,
{
}

/// A texture is marked as there or not, and where it was looked for is told.
pub proof fn law_mark_tells_where_it_looked(resolved: &str, found: bool, r: (&'static str, String))
    requires
        call_ensures(slot_mark, (resolved, found), r),
    ensures
        found ==> r.0@ == "✓"@ && r.1@ == "Found at "@ + resolved@,
        !found ==> r.0@ == "✗"@ && r.1@ == "File not found at "@ + resolved@
            + "\nRegenerate or update the path attribute in the .mog source."@,
{
}

/// What was seen counts until its time is over: asked again before that, the
/// cache answers the same, and other paths keep their sightings.
pub proof fn law_sightings_count_for_their_time<F: Fn(&str) -> bool>(
    cache: &mut ExistsCache,
    path: &str,
    now: u64,
    ttl: u64,
    look: F,
    r: bool,
    later: &mut ExistsCache,
    then: u64,
    answer: bool,
)
    requires
        call_ensures(ExistsCache::cached_exists::<F>, (cache, path, now, ttl, look), r),
        !old(cache)@.contains_key(path@) || ttl == 0 || now - old(cache)@[path@].checked >= ttl,
        *old(later) == *final(cache),
        now <= then < now + ttl,
        call_ensures(ExistsCache::cached_exists::<F>, (later, path, then, ttl, look), answer),
    ensures
        call_ensures(look, (path,), r),
        answer == r,
        final(later)@ == final(cache)@,
        forall|other: Seq<char>|
            other != path@ && old(cache)@.contains_key(other) ==> #[trigger] final(cache)@.contains_key(other)
                && final(cache)@[other] == old(cache)@[other],
{
}

/// A sighting whose time is over is not believed: the cache looks again and
/// remembers what it saw and when.
pub proof fn law_stale_sightings_are_looked_up<F: Fn(&str) -> bool>(
    cache: &mut ExistsCache,
    path: &str,
    now: u64,
    ttl: u64,
    look: F,
    r: bool,
)
    requires
        call_ensures(ExistsCache::cached_exists::<F>, (cache, path, now, ttl, look), r),
        !old(cache)@.contains_key(path@) || ttl == 0 || now - old(cache)@[path@].checked >= ttl,
    ensures
        call_ensures(look, (path,), r),
        final(cache)@.contains_key(path@),
        final(cache)@[path@].found == r,
        final(cache)@[path@].checked == now,
{
}

/// A thumbnail is shown as long as its file was not written since.
pub proof fn law_thumbnail_goes_with_its_file(made: Option<u64>, mtime: Option<u64>, r: bool)
    requires
        call_ensures(thumb_is_current, (made, mtime), r),
    ensures
        r ==> made == mtime,
        made == mtime ==> r,
{
}

/// A picture that fits into a square of 128 pixels is its own thumbnail; any
/// other becomes that square, resized from all of its pixels.
pub proof fn law_small_pictures_are_kept(p: Raster, r: Raster)
    requires
        call_ensures(thumbnail, (p,), r),
    ensures
        p.width <= 128 && p.height <= 128 ==> r.width == p.width && r.height == p.height
            && r.pixels@ == p.pixels@,
        p.width > 128 || p.height > 128 ==> r.width == 128 && r.height == 128 && r.pixels@
            == resized(p.width, p.height, p.pixels@, 128),
{
}

} // verus!
