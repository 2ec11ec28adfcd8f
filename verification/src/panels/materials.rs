//! The panel of the materials: what it lists, and what its controls do to the
//! source.

use vstd::prelude::*;
use vstd::utf8::*;

use super::gradient::{
    all_ordered, default_gradient, edited_gradient, is_edited, new_gradient, Gradient,
};
use crate::edits::{
    collect, committed, edit_outcome, edit_taken, entries, front_committed, idle,
    lemma_named_edit_taken, lemma_no_entry, lemma_one_entry, named_edit, source_taken, with_source,
    SourceEdit, UndoStep,
};
use crate::inspector::geometry::{flag_text, quoted, triple_text};
use crate::inspector::selection::{import_badge, is_badge};
use crate::naming::{
    declared_name, is_word_char, largest_number, law_adding_counts_up,
    law_materials_are_named_like_clips, law_next_name_is_fresh, name_prefix, next_material,
    next_material_name, with_declaration,
};
use crate::pick::{as_places, lemma_places, places};
use crate::rewrite::{clipped, renamed, rewrite_material_decl_name};
use crate::scene::{import_in_view, listed_materials, material_listed, Material, SceneGraph};
use crate::span::Span;
use crate::studio::{MogenStudioApp, OpenFile};
use crate::text::{
    apart, blank, cat2, cat3, cat5, clash, decimal, decimal_digits, free_of, join, joined,
    lemma_replacing, opt_view, replace_all, replaced, str_eq, swapped, trim, trimmed, views,
};

verus! {

// ---- what the panel shows --------------------------------------------------

/// What the panel shows.
pub enum MaterialsView {
    NoBuild,
    NoScene,
    NoneDeclared,
    NoneInScope,
    /// The materials that are listed, in order.
    Listed(Vec<usize>),
}

/// What the panel shows of a scene.
pub open spec fn shows_materials(
    s: SceneGraph,
    selection: Option<u32>,
    v: MaterialsView,
) -> bool {
    let listed = places(
        |m: int| material_listed(s, import_in_view(s, selection), m),
        s.materials@.len(),
    );
    if s.materials@.len() == 0 {
        v is NoneDeclared
    } else if listed.len() == 0 {
        v is NoneInScope
    } else {
        v matches MaterialsView::Listed(ms) && as_places(ms@) == listed
    }
}

impl MogenStudioApp {
    /// What the panel of the materials shows.
    pub fn ui_materials(&self) -> (v: MaterialsView)
        requires
            self.wf(),
            self.front().last_result matches Some(result) ==> (result.scene matches Some(s)
                ==> s.materials@.len() <= u32::MAX),
        ensures
            match self.front().last_result {
                None => v is NoBuild,
                Some(result) => match result.scene {
                    None => v is NoScene,
                    Some(s) => shows_materials(s, self.primary(), v),
                },
            },
    {
        let selection = self.primary_selection();
        match &self.active().last_result {
            None => MaterialsView::NoBuild,
            Some(result) => match &result.scene {
                None => MaterialsView::NoScene,
                Some(s) => {
                    if s.materials.len() == 0 {
                        return MaterialsView::NoneDeclared;
                    }
                    let ms = listed_materials(s, selection);
                    if ms.len() == 0 {
                        assert(as_places(ms@).len() == 0);
                        MaterialsView::NoneInScope
                    } else {
                        assert(as_places(ms@).len() > 0);
                        MaterialsView::Listed(ms)
                    }
                },
            },
        }
    }
}

/// The header of a material: its name, and where it was imported from.
pub fn material_header(m: &Material) -> (r: String)
    ensures
        match m.origin {
            None => r@ == m.name@,
            Some(p) => exists|badge: Seq<char>| #[trigger]
                is_badge(p@, badge) && r@ == m.name@ + "  "@ + badge,
        },
{
    match &m.origin {
        None => m.name.clone(),
        Some(p) => {
            let badge = import_badge(p.as_str());
            assert(is_badge(p@, badge@));
            cat3(m.name.as_str(), "  ", badge.as_str())
        },
    }
}

// ---- when textures can be generated ----------------------------------------

/// What a run of the texture pipeline needs.
pub struct TextureNeeds {
    pub has_key: bool,
    /// Whether a model call is out for this tab.
    pub busy: bool,
    pub source_empty: bool,
    pub has_path: bool,
    /// The name of the provider, as it is shown.
    pub provider: String,
}

/// Whether textures can be generated.
pub open spec fn can_generate(n: TextureNeeds) -> bool {
    n.has_key && !n.busy && !n.source_empty && n.has_path
}

/// One line, or none.
pub open spec fn line_if(b: bool, line: Seq<char>) -> Seq<Seq<char>> {
    if b {
        seq![line]
    } else {
        Seq::empty()
    }
}

/// What stands in the way of generating textures.
pub open spec fn blockers(n: TextureNeeds) -> Seq<Seq<char>> {
    line_if(!n.has_key, "set a "@ + n.provider@ + " API key in Preferences"@) + line_if(
        n.busy,
        "another LLM call is in flight on this tab"@,
    ) + line_if(n.source_empty, "open or paste a .mog file first"@) + line_if(
        !n.has_path,
        "save the file first — textures writes PNGs next to it"@,
    )
}

/// Why textures cannot be generated: one reason on the same line, several as
/// a list.
pub open spec fn disabled_reason(n: TextureNeeds) -> Option<Seq<char>> {
    let all = blockers(n);
    if all.len() == 0 {
        None
    } else if all.len() == 1 {
        Some("Disabled — "@ + all[0])
    } else {
        Some("Disabled:\n  • "@ + joined(all, "\n  • "@))
    }
}

impl MogenStudioApp {
    /// What a run of the texture pipeline finds for the file in the
    /// foreground.
    pub fn texture_needs(&self, has_key: bool) -> (r: TextureNeeds)
        requires
            self.wf(),
        ensures
            r.has_key == has_key,
            r.busy == self.front().llm_in_flight,
            r.source_empty == (trimmed(self.front().source@).len() == 0),
            r.has_path == self.front().path is Some,
            r.provider@ == self.settings.provider.label@,
    {
        let f = self.active();
        TextureNeeds {
            has_key,
            busy: f.llm_in_flight,
            source_empty: trim(f.source.as_str()).is_empty(),
            has_path: f.path.is_some(),
            provider: self.settings.provider.label.clone(),
        }
    }
}

/// Why textures cannot be generated; none when they can.
pub fn tex_disabled_reason(n: &TextureNeeds) -> (r: Option<String>)
    ensures
        opt_view(r) == disabled_reason(*n),
        r is None == can_generate(*n),
{
    let mut all: Vec<String> = Vec::new();
    if !n.has_key {
        all.push(cat3("set a ", n.provider.as_str(), " API key in Preferences"));
    }
    if n.busy {
        all.push("another LLM call is in flight on this tab".to_owned());
    }
    if n.source_empty {
        all.push("open or paste a .mog file first".to_owned());
    }
    if !n.has_path {
        all.push("save the file first — textures writes PNGs next to it".to_owned());
    }
    assert(views(all@) =~= blockers(*n));
    assert(views(all@).len() == all@.len());
    if all.len() == 0 {
        None
    } else if all.len() == 1 {
        assert(views(all@)[0] == all@[0]@);
        Some(cat2("Disabled — ", all[0].as_str()))
    } else {
        let list = join(&all, "\n  • ");
        Some(cat2("Disabled:\n  • ", list.as_str()))
    }
}

// ---- edits of attributes ---------------------------------------------------

/// A value for an attribute of a material.
#[derive(Debug)]
pub struct MaterialEdit {
    pub material: String,
    pub attr: &'static str,
    pub value: String,
}

/// Whether an edit gives the attribute `attr` of `material` the text `value`.
pub open spec fn gives(
    e: MaterialEdit,
    material: Seq<char>,
    attr: Seq<char>,
    value: Seq<char>,
) -> bool {
    e.material@ == material && e.attr@ == attr && e.value@ == value
}

#[derive(Clone, Copy, Debug, PartialEq, Eq, Structural)]
pub enum AlphaMode {
    Opaque,
    Blend,
    Mask,
}

#[derive(Clone, Copy, Debug, PartialEq, Eq, Structural)]
pub enum UvMode {
    Tile,
    Fit,
}

/// What was changed on a material. Numbers are kept as they are written.
pub enum PbrChange {
    Color(String, String, String),
    Alpha(String),
    Metallic(String),
    Roughness(String),
    NormalStrength(String),
    OcclusionStrength(String),
    Emissive(String, String, String),
    EmissiveStrength(String),
    Transmission(String),
    AlphaMode(AlphaMode),
    AlphaCutoff(String),
    DoubleSided(bool),
    UvMode(UvMode),
    UvScale(String, String),
    Shader(String),
}

/// The word of an alpha mode.
pub open spec fn alpha_word(m: AlphaMode) -> Seq<char> {
    match m {
        AlphaMode::Opaque => "opaque"@,
        AlphaMode::Blend => "blend"@,
        AlphaMode::Mask => "mask"@,
    }
}

/// The word of a texture mapping.
pub open spec fn uv_word(m: UvMode) -> Seq<char> {
    match m {
        UvMode::Tile => "tile"@,
        UvMode::Fit => "fit"@,
    }
}

/// A word as a string literal.
pub open spec fn in_quotes(word: Seq<char>) -> Seq<char> {
    "\""@ + word + "\""@
}

/// Three numbers as a list.
pub open spec fn triple(x: Seq<char>, y: Seq<char>, z: Seq<char>) -> Seq<char> {
    "["@ + x + ", "@ + y + ", "@ + z + "]"@
}

/// The attribute that a change writes.
pub open spec fn changed_attr(c: PbrChange) -> Seq<char> {
    match c {
        PbrChange::Color(..) => "color"@,
        PbrChange::Alpha(_) => "alpha"@,
        PbrChange::Metallic(_) => "metallic"@,
        PbrChange::Roughness(_) => "roughness"@,
        PbrChange::NormalStrength(_) => "normal_strength"@,
        PbrChange::OcclusionStrength(_) => "occlusion_strength"@,
        PbrChange::Emissive(..) => "emissive"@,
        PbrChange::EmissiveStrength(_) => "emissive_strength"@,
        PbrChange::Transmission(_) => "transmission"@,
        PbrChange::AlphaMode(_) => "alpha_mode"@,
        PbrChange::AlphaCutoff(_) => "alpha_cutoff"@,
        PbrChange::DoubleSided(_) => "double_sided"@,
        PbrChange::UvMode(_) => "uv_mode"@,
        PbrChange::UvScale(..) => "uv_scale"@,
        PbrChange::Shader(_) => "shader"@,
    }
}

/// The value that a change writes.
pub open spec fn changed_value(c: PbrChange) -> Seq<char> {
    match c {
        PbrChange::Color(r, g, b) => triple(r@, g@, b@),
        PbrChange::Emissive(r, g, b) => triple(r@, g@, b@),
        PbrChange::Alpha(v) => v@,
        PbrChange::Metallic(v) => v@,
        PbrChange::Roughness(v) => v@,
        PbrChange::NormalStrength(v) => v@,
        PbrChange::OcclusionStrength(v) => v@,
        PbrChange::EmissiveStrength(v) => v@,
        PbrChange::Transmission(v) => v@,
        PbrChange::AlphaCutoff(v) => v@,
        PbrChange::AlphaMode(m) => in_quotes(alpha_word(m)),
        PbrChange::DoubleSided(on) => if on {
            "1"@
        } else {
            "0"@
        },
        PbrChange::UvMode(m) => in_quotes(uv_word(m)),
        PbrChange::UvScale(u, v) => "["@ + u@ + ", "@ + v@ + "]"@,
        PbrChange::Shader(name) => in_quotes(name@),
    }
}

/// The word of an alpha mode.
pub fn alpha_label(m: AlphaMode) -> (r: &'static str)
    ensures
        r@ == alpha_word(m),
{
    match m {
        AlphaMode::Opaque => "opaque",
        AlphaMode::Blend => "blend",
        AlphaMode::Mask => "mask",
    }
}

/// The word of a texture mapping.
pub fn uv_label(m: UvMode) -> (r: &'static str)
    ensures
        r@ == uv_word(m),
{
    match m {
        UvMode::Tile => "tile",
        UvMode::Fit => "fit",
    }
}

/// Whether the cutoff can be edited: only a mask has one.
pub fn shows_cutoff(m: AlphaMode) -> (r: bool)
    ensures
        r == (m is Mask),
{
    m == AlphaMode::Mask
}

/// How the shader of a material is shown; one without a name is the standard
/// one.
pub fn shader_label(name: &Option<String>) -> (r: String)
    ensures
        r@ == match opt_view(*name) {
            None => "standard (PBR)"@,
            Some(n) => if n == "standard"@ {
                "standard (PBR)"@
            } else {
                n
            },
        },
{
    match name {
        None => "standard (PBR)".to_owned(),
        Some(n) => if str_eq(n.as_str(), "standard") {
            "standard (PBR)".to_owned()
        } else {
            n.clone()
        },
    }
}

/// What picking a shader does; picking the one that is on does nothing.
pub fn pick_shader(material: &str, name: &Option<String>, to: &str) -> (r: Option<MaterialEdit>)
    ensures
        ({
            let now = match opt_view(*name) {
                None => "standard"@,
                Some(n) => n,
            };
            match r {
                None => to@ == now,
                Some(e) => to@ != now && gives(e, material@, "shader"@, in_quotes(to@)),
            }
        }),
{
    let same = match name {
        None => str_eq(to, "standard"),
        Some(n) => str_eq(to, n.as_str()),
    };
    if same {
        None
    } else {
        Some(pbr_edit(material, PbrChange::Shader(to.to_owned())))
    }
}

fn edit_of(material: &str, attr: &'static str, value: String) -> (e: MaterialEdit)
    ensures
        gives(e, material@, attr@, value@),
{
    MaterialEdit { material: material.to_owned(), attr, value }
}

/// The edit that a change on a material makes.
pub fn pbr_edit(material: &str, c: PbrChange) -> (e: MaterialEdit)
    ensures
        gives(e, material@, changed_attr(c), changed_value(c)),
{
    match c {
        PbrChange::Color(r, g, b) => edit_of(
            material,
            "color",
            triple_text(r.as_str(), g.as_str(), b.as_str()),
        ),
        PbrChange::Alpha(v) => edit_of(material, "alpha", v),
        PbrChange::Metallic(v) => edit_of(material, "metallic", v),
        PbrChange::Roughness(v) => edit_of(material, "roughness", v),
        PbrChange::NormalStrength(v) => edit_of(material, "normal_strength", v),
        PbrChange::OcclusionStrength(v) => edit_of(material, "occlusion_strength", v),
        PbrChange::Emissive(r, g, b) => edit_of(
            material,
            "emissive",
            triple_text(r.as_str(), g.as_str(), b.as_str()),
        ),
        PbrChange::EmissiveStrength(v) => edit_of(material, "emissive_strength", v),
        PbrChange::Transmission(v) => edit_of(material, "transmission", v),
        PbrChange::AlphaMode(m) => edit_of(material, "alpha_mode", quoted(alpha_label(m))),
        PbrChange::AlphaCutoff(v) => edit_of(material, "alpha_cutoff", v),
        PbrChange::DoubleSided(on) => edit_of(material, "double_sided", flag_text(on).to_owned()),
        PbrChange::UvMode(m) => edit_of(material, "uv_mode", quoted(uv_label(m))),
        PbrChange::UvScale(u, v) => edit_of(
            material,
            "uv_scale",
            cat5("[", u.as_str(), ", ", v.as_str(), "]"),
        ),
        PbrChange::Shader(name) => edit_of(material, "shader", quoted(name.as_str())),
    }
}

/// The edit that adds a gradient to a material.
pub fn add_gradient(material: &str) -> (e: MaterialEdit)
    ensures
        gives(e, material@, "gradient"@, new_gradient()),
{
    edit_of(material, "gradient", default_gradient())
}

/// The edit that writes a gradient after it was changed. `on_grid` judges
/// whether a stop, by its index, the number of stops and its place, stands
/// where an even spacing would put it.
pub fn gradient_edit<F: Fn(usize, usize, u32) -> bool>(
    material: &str,
    g: Gradient,
    on_grid: F,
) -> (e: MaterialEdit)
    requires
        all_ordered(g.stops@),
        forall|i: usize, n: usize, t: u32| call_requires(on_grid, (i, n, t)),
    ensures
        e.material@ == material@,
        e.attr@ == "gradient"@,
        is_edited(on_grid, g, e.value@),
{
    edit_of(material, "gradient", edited_gradient(g, on_grid))
}

// ---- applying a batch of edits ---------------------------------------------

/// The source after a batch: what the last edit gave that could be applied.
pub open spec fn source_after(start: String, outs: Seq<Option<String>>) -> String
    decreases outs.len(),
{
    if outs.len() == 0 {
        start
    } else {
        match outs.last() {
            Some(s) => s,
            None => source_after(start, outs.drop_last()),
        }
    }
}

/// The last edit of a batch that could be applied.
pub open spec fn last_applied(outs: Seq<Option<String>>) -> Option<int>
    decreases outs.len(),
{
    if outs.len() == 0 {
        None
    } else if outs.last() is Some {
        Some(outs.len() - 1)
    } else {
        last_applied(outs.drop_last())
    }
}

/// Whether `outs` is what splicing the edits of a batch gave, each into the
/// source that the ones before it left.
pub open spec fn is_batch<F: Fn(&String, &MaterialEdit) -> Option<String>>(
    splice: F,
    start: String,
    edits: Seq<MaterialEdit>,
    outs: Seq<Option<String>>,
) -> bool {
    &&& outs.len() == edits.len()
    &&& forall|i: int|
        0 <= i < edits.len() ==> call_ensures(
            splice,
            (&source_after(start, outs.take(i)), &#[trigger] edits[i]),
            outs[i],
        )
}

/// What a batch of edits does to the studio. Without one that could be
/// applied nothing happens.
pub open spec fn batch_applied(
    pre: MogenStudioApp,
    edits: Seq<MaterialEdit>,
    outs: Seq<Option<String>>,
    now: u64,
    post: MogenStudioApp,
    undo: Option<UndoStep>,
) -> bool {
    match last_applied(outs) {
        None => post == pre && undo is None,
        Some(k) => front_committed(
            pre,
            SourceEdit::MaterialAttr { material: edits[k].material, attr: edits[k].attr },
            source_after(pre.front().source, outs),
            now,
            post,
            undo,
        ),
    }
}

impl MogenStudioApp {
    /// Applies a batch of edits to the source in the foreground. `splice`
    /// gives the source with one edit in it, or none when the material is
    /// declared elsewhere; such an edit is left out. The scene is due for
    /// compiling when something is returned for the undo stack.
    pub fn apply_material_edits<F: Fn(&String, &MaterialEdit) -> Option<String>>(
        &mut self,
        edits: &Vec<MaterialEdit>,
        splice: F,
        now: u64,
    ) -> (undo: Option<UndoStep>)
        requires
            old(self).wf(),
            forall|s: &String, e: &MaterialEdit| call_requires(splice, (s, e)),
        ensures
            final(self).wf(),
            exists|outs: Seq<Option<String>>| #[trigger]
                is_batch(splice, old(self).front().source, edits@, outs) && batch_applied(
                    *old(self),
                    edits@,
                    outs,
                    now,
                    *final(self),
                    undo,
                ),
    {
        let mut source = self.active().source.clone();
        let ghost start = source;
        let ghost mut outs: Seq<Option<String>> = Seq::empty();
        let mut last: Option<usize> = None;
        let mut i: usize = 0;
        while i < edits.len()
            invariant
                i <= edits@.len(),
                forall|s: &String, e: &MaterialEdit| call_requires(splice, (s, e)),
                outs.len() == i,
                source == source_after(start, outs),
                last_applied(outs) == match last {
                    Some(k) => Some(k as int),
                    None => None,
                },
                last matches Some(k) ==> k < i,
                forall|j: int|
                    0 <= j < i ==> call_ensures(
                        splice,
                        (&source_after(start, outs.take(j)), &#[trigger] edits@[j]),
                        outs[j],
                    ),
            decreases edits.len() - i,
        {
            let ghost before = outs;
            let out = splice(&source, &edits[i]);
            proof {
                outs = outs.push(out);
                assert(outs.drop_last() =~= before);
                assert forall|j: int| 0 <= j < i + 1 implies call_ensures(
                    splice,
                    (&source_after(start, outs.take(j)), &#[trigger] edits@[j]),
                    outs[j],
                ) by {
                    if j < i {
                        assert(outs.take(j) =~= before.take(j));
                    } else {
                        assert(outs.take(j) =~= before);
                    }
                }
            }
            if let Some(s) = out {
                source = s;
                last = Some(i);
            }
            i = i + 1;
        }
        assert(is_batch(splice, start, edits@, outs));
        match last {
            None => None,
            Some(k) => {
                let e = SourceEdit::MaterialAttr {
                    material: edits[k].material.clone(),
                    attr: edits[k].attr,
                };
                self.commit_source(&e, source, now)
            },
        }
    }
}

// ---- adding, renaming and deleting -----------------------------------------

/// The declaration of a new material.
pub open spec fn new_material(name: Seq<char>) -> Seq<char> {
    "material \""@ + name + "\" {\n  color = [0.7, 0.7, 0.7]\n}"@
}

/// The source with a material renamed: its declaration, and every node that
/// names it.
pub open spec fn is_material_renamed(
    source: Seq<char>,
    span: Span,
    old_name: Seq<char>,
    new_name: Seq<char>,
    out: Seq<char>,
) -> bool {
    exists|declared: Seq<char>|
        #![trigger encode_utf8(declared)]
        {
            &&& encode_utf8(declared) == renamed(
                encode_utf8(source),
                clipped(span.start, encode_utf8(source).len()),
                clipped(span.end, encode_utf8(source).len()),
                encode_utf8(new_name),
            )
            &&& out == replaced(
                declared,
                "material=\""@ + old_name + "\""@,
                "material=\""@ + new_name + "\""@,
            )
        }
}

/// The source with a material renamed.
pub fn rename_in_source(source: &str, span: Span, old_name: &str, new_name: &str) -> (r: String)
    ensures
        is_material_renamed(source@, span, old_name@, new_name@, r@),
{
    let declared = rewrite_material_decl_name(source, span, new_name);
    let from = cat3("material=\"", old_name, "\"");
    let to = cat3("material=\"", new_name, "\"");
    proof {
        reveal_strlit("\"");
        assert(from@.len() > 0);
        assert(encode_utf8(declared@) == encode_utf8(declared@));
    }
    replace_all(declared.as_str(), from.as_str(), to.as_str())
}

/// The name that the rename field commits when it loses the focus: what was
/// typed, without the blanks around it, if that is a new name.
pub fn committed_name(typed: &str, name: &str, lost_focus: bool) -> (r: Option<String>)
    ensures
        opt_view(r) == if lost_focus && trimmed(typed@).len() > 0 && typed@ != name@ {
            Some(trimmed(typed@))
        } else {
            None
        },
{
    let t = trim(typed);
    if lost_focus && !t.is_empty() && !str_eq(typed, name) {
        Some(t.to_owned())
    } else {
        None
    }
}

/// What renaming a material does to the studio: the source is committed, and
/// the draft of the old name goes if anything changed.
pub open spec fn material_renamed(
    pre: MogenStudioApp,
    span: Option<Span>,
    old_name: Seq<char>,
    new_name: Seq<char>,
    now: u64,
    post: MogenStudioApp,
    undo: Option<UndoStep>,
) -> bool {
    match span {
        None => post == pre && undo is None,
        Some(s) => exists|source: String| #[trigger]
            is_material_renamed(pre.front().source@, s, old_name, new_name, source@) && {
                &&& committed(
                    pre.front(),
                    SourceEdit::RenameMaterial,
                    source,
                    now,
                    post.front(),
                    undo,
                )
                &&& post.files@ == pre.files@.update(pre.active as int, post.front())
                &&& post == (MogenStudioApp {
                    files: post.files,
                    material_name_drafts: post.material_name_drafts,
                    ..pre
                })
                &&& post.material_name_drafts@ == if undo is Some {
                    pre.material_name_drafts@.remove(old_name)
                } else {
                    pre.material_name_drafts@
                }
            },
    }
}

/// What adding a material does to the studio.
pub open spec fn material_added<F: Fn(&String, &String) -> String>(
    append: F,
    pre: MogenStudioApp,
    now: u64,
    post: MogenStudioApp,
    undo: Option<UndoStep>,
) -> bool {
    exists|declaration: String, source: String|
        #![trigger call_ensures(append, (&pre.front().source, &declaration), source)]
        {
            &&& call_ensures(append, (&pre.front().source, &declaration), source)
            &&& declaration@ == new_material(next_material(pre.front().source@))
            &&& front_committed(pre, SourceEdit::AddMaterial, source, now, post, undo)
        }
}

impl MogenStudioApp {
    /// Appends a new material to the scene in the foreground, under a name
    /// that is not in use. `append` puts a declaration into a source.
    pub fn add_material<F: Fn(&String, &String) -> String>(&mut self, append: F, now: u64) -> (undo:
        Option<UndoStep>)
        requires
            old(self).wf(),
            largest_number(old(self).front().source@, "material"@) < u32::MAX,
            forall|s: &String, d: &String| call_requires(append, (s, d)),
        ensures
            final(self).wf(),
            material_added(append, *old(self), now, *final(self), undo),
    {
        let name = next_material_name(self.active().source.as_str());
        let declaration = cat3(
            "material \"",
            name.as_str(),
            "\" {\n  color = [0.7, 0.7, 0.7]\n}",
        );
        let source = append(&self.active().source, &declaration);
        self.commit_source(&SourceEdit::AddMaterial, source, now)
    }

    /// Renames a material that is declared at `span` in the source in the
    /// foreground. The draft of its name goes with the old name.
    pub fn rename_material(
        &mut self,
        span: Option<Span>,
        old_name: &str,
        new_name: &str,
        now: u64,
    ) -> (undo: Option<UndoStep>)
        requires
            old(self).wf(),
        ensures
            final(self).wf(),
            material_renamed(*old(self), span, old_name@, new_name@, now, *final(self), undo),
    {
        match span {
            None => None,
            Some(s) => {
                let source = rename_in_source(self.active().source.as_str(), s, old_name, new_name);
                let undo = self.commit_source(&SourceEdit::RenameMaterial, source, now);
                if undo.is_some() {
                    self.material_name_drafts.remove(old_name);
                }
                undo
            },
        }
    }
}

// ---- texture files ---------------------------------------------------------

/// What is to be done with the textures of a material.
pub enum TexAction {
    Regenerate(String),
    Delete(String),
    Reveal(String),
}

/// The status after a file was shown in the file manager, or could not be.
pub fn reveal_status(path: &str, failure: &Option<String>) -> (r: String)
    ensures
        r@ == match opt_view(*failure) {
            None => "revealed "@ + path@,
            Some(e) => "reveal failed: "@ + path@ + " ("@ + e + ")"@,
        },
{
    match failure {
        None => cat2("revealed ", path),
        Some(e) => cat5("reveal failed: ", path, " (", e.as_str(), ")"),
    }
}

/// How many texture files no material uses.
pub fn unused_label(n: usize) -> (r: String)
    ensures
        r@ == "unused textures: "@ + decimal_digits(n as nat),
{
    let digits = decimal(n);
    cat2("unused textures: ", digits.as_str())
}

impl MogenStudioApp {
    /// Takes over the source after the textures of a material were deleted,
    /// and the status of the deletion. The files are gone, so this cannot be
    /// undone: says whether the source changed, after which later edits must
    /// not merge with earlier ones and the scene is due for compiling.
    pub fn apply_texture_cleanup(&mut self, source: String, status: String, now: u64) -> (changed:
        bool)
        requires
            old(self).wf(),
        ensures
            final(self).wf(),
            changed == (source@ != old(self).front().source@),
            *final(self) == (MogenStudioApp { files: final(self).files, ..*old(self) }),
            final(self).files@ == old(self).files@.update(
                old(self).active as int,
                if changed {
                    OpenFile { status, ..with_source(old(self).front(), source, now) }
                } else {
                    OpenFile { status, ..old(self).front() }
                },
            ),
    {
        let i = self.active;
        let changed = !str_eq(source.as_str(), self.files[i].source.as_str());
        if changed {
            self.files[i].dirty = !str_eq(
                source.as_str(),
                self.files[i].last_saved_source.as_str(),
            );
            self.files[i].source = source;
            self.files[i].needs_compile = true;
            self.files[i].last_edit_at = Some(now);
        }
        self.files[i].status = status;
        changed
    }
}

// ---- a frame of the panel --------------------------------------------------

/// A path for a texture slot of a material; none clears the slot.
pub struct TexturePath {
    pub material: String,
    pub attr: &'static str,
    pub value: Option<String>,
}

/// What was clicked and edited in the panel in one frame.
pub struct MaterialClicks {
    pub add: bool,
    /// The material to delete.
    pub delete: Option<String>,
    /// The material to rename, and its new name.
    pub rename: Option<(String, String)>,
    /// The material whose gradient is to go.
    pub drop_gradient: Option<String>,
    pub texture_path: Option<TexturePath>,
    pub edits: Vec<MaterialEdit>,
}

/// What is left to do after a frame.
pub struct MaterialOutcome {
    /// The entries for the undo stack, in order.
    pub undo: Vec<UndoStep>,
    /// A texture path changed: forget which files are there, and the
    /// thumbnails.
    pub forget_textures: bool,
    /// The scene is to be compiled at once.
    pub compile: bool,
}

/// What a rename does, if one was asked for. `find` looks the material up.
pub open spec fn rename_step<F: Fn(&String, &String) -> Option<Span>>(
    find: F,
    pre: MogenStudioApp,
    rename: Option<(String, String)>,
    now: u64,
    post: MogenStudioApp,
    undo: Option<UndoStep>,
) -> bool {
    match rename {
        None => idle(pre, post, undo),
        Some((from, to)) => exists|span: Option<Span>| #[trigger]
            call_ensures(find, (&pre.front().source, &from), span) && material_renamed(
                pre,
                span,
                from@,
                to@,
                now,
                post,
                undo,
            ),
    }
}

/// What writing a texture path does, if one was picked or cleared.
pub open spec fn texture_step<F: Fn(&String, &TexturePath) -> Option<String>>(
    write: F,
    pre: MogenStudioApp,
    path: Option<TexturePath>,
    now: u64,
    post: MogenStudioApp,
    undo: Option<UndoStep>,
) -> bool {
    match path {
        None => idle(pre, post, undo),
        Some(p) => exists|out: Option<String>| #[trigger]
            call_ensures(write, (&pre.front().source, &p), out) && edit_outcome(
                pre,
                SourceEdit::SetTexturePath(p.attr),
                out,
                now,
                post,
                undo,
            ),
    }
}

/// What a batch of edits does.
pub open spec fn batch_step<F: Fn(&String, &MaterialEdit) -> Option<String>>(
    splice: F,
    pre: MogenStudioApp,
    edits: Seq<MaterialEdit>,
    now: u64,
    post: MogenStudioApp,
    undo: Option<UndoStep>,
) -> bool {
    exists|outs: Seq<Option<String>>| #[trigger]
        is_batch(splice, pre.front().source, edits, outs) && batch_applied(
            pre,
            edits,
            outs,
            now,
            post,
            undo,
        )
}

/// Whether `s` holds the studio before and after each step of a frame, in
/// order, and `u` what each gave for the undo stack: adding, deleting,
/// renaming, dropping a gradient, writing a texture path, and the edits.
pub open spec fn is_material_frame<
    A: Fn(&String, &String) -> String,
    D: Fn(&String, &String) -> Option<String>,
    L: Fn(&String, &String) -> Option<Span>,
    G: Fn(&String, &String) -> Option<String>,
    T: Fn(&String, &TexturePath) -> Option<String>,
    E: Fn(&String, &MaterialEdit) -> Option<String>,
>(
    host: (A, D, L, G, T, E),
    c: MaterialClicks,
    now: u64,
    s: Seq<MogenStudioApp>,
    u: Seq<Option<UndoStep>>,
) -> bool {
    &&& s.len() == 7
    &&& u.len() == 6
    &&& if c.add {
        material_added(host.0, s[0], now, s[1], u[0])
    } else {
        idle(s[0], s[1], u[0])
    }
    &&& named_edit(host.1, s[1], SourceEdit::DeleteMaterial, c.delete, now, s[2], u[1])
    &&& rename_step(host.2, s[2], c.rename, now, s[3], u[2])
    &&& named_edit(host.3, s[3], SourceEdit::DeleteGradient, c.drop_gradient, now, s[4], u[3])
    &&& texture_step(host.4, s[4], c.texture_path, now, s[5], u[4])
    &&& batch_step(host.5, s[5], c.edits@, now, s[6], u[5])
}

/// Whether a frame of clicks leads from one studio to another, and leaves the
/// rest to do.
pub open spec fn material_frame_done<
    A: Fn(&String, &String) -> String,
    D: Fn(&String, &String) -> Option<String>,
    L: Fn(&String, &String) -> Option<Span>,
    G: Fn(&String, &String) -> Option<String>,
    T: Fn(&String, &TexturePath) -> Option<String>,
    E: Fn(&String, &MaterialEdit) -> Option<String>,
>(
    host: (A, D, L, G, T, E),
    c: MaterialClicks,
    now: u64,
    pre: MogenStudioApp,
    post: MogenStudioApp,
    r: MaterialOutcome,
) -> bool {
    exists|s: Seq<MogenStudioApp>, u: Seq<Option<UndoStep>>| #[trigger]
        is_material_frame(host, c, now, s, u) && {
            &&& s[0] == pre
            &&& s[6] == post
            &&& r.undo@ == entries(u)
            &&& r.forget_textures == u[4] is Some
            &&& r.compile == u[5] is Some
        }
}

impl MogenStudioApp {
    fn rename_asked<F: Fn(&String, &String) -> Option<Span>>(
        &mut self,
        rename: &Option<(String, String)>,
        find: F,
        now: u64,
    ) -> (undo: Option<UndoStep>)
        requires
            old(self).wf(),
            forall|s: &String, n: &String| call_requires(find, (s, n)),
        ensures
            final(self).wf(),
            rename_step(find, *old(self), *rename, now, *final(self), undo),
    {
        match rename {
            None => None,
            Some((from, to)) => {
                let span = find(&self.active().source, from);
                self.rename_material(span, from.as_str(), to.as_str(), now)
            },
        }
    }

    fn write_texture<F: Fn(&String, &TexturePath) -> Option<String>>(
        &mut self,
        path: &Option<TexturePath>,
        write: F,
        now: u64,
    ) -> (undo: Option<UndoStep>)
        requires
            old(self).wf(),
            forall|s: &String, p: &TexturePath| call_requires(write, (s, p)),
        ensures
            final(self).wf(),
            texture_step(write, *old(self), *path, now, *final(self), undo),
    {
        match path {
            None => None,
            Some(p) => match write(&self.active().source, p) {
                None => None,
                Some(source) => self.commit_source(
                    &SourceEdit::SetTexturePath(p.attr),
                    source,
                    now,
                ),
            },
        }
    }

    /// Does what was asked for in one frame of the panel, in order. `host`
    /// holds what is done to a source: appending a declaration; deleting a
    /// material; looking one up; taking its gradient out; writing or clearing
    /// a texture path; and writing an attribute. Each gives nothing when the
    /// material is not declared in the source.
    pub fn apply_material_clicks<
        A: Fn(&String, &String) -> String,
        D: Fn(&String, &String) -> Option<String>,
        L: Fn(&String, &String) -> Option<Span>,
        G: Fn(&String, &String) -> Option<String>,
        T: Fn(&String, &TexturePath) -> Option<String>,
        E: Fn(&String, &MaterialEdit) -> Option<String>,
    >(&mut self, c: &MaterialClicks, host: (A, D, L, G, T, E), now: u64) -> (r: MaterialOutcome)
        requires
            old(self).wf(),
            c.add ==> largest_number(old(self).front().source@, "material"@) < u32::MAX,
            forall|s: &String, d: &String| call_requires(host.0, (s, d)),
            forall|s: &String, n: &String| call_requires(host.1, (s, n)),
            forall|s: &String, n: &String| call_requires(host.2, (s, n)),
            forall|s: &String, n: &String| call_requires(host.3, (s, n)),
            forall|s: &String, p: &TexturePath| call_requires(host.4, (s, p)),
            forall|s: &String, e: &MaterialEdit| call_requires(host.5, (s, e)),
        ensures
            final(self).wf(),
            material_frame_done(host, *c, now, *old(self), *final(self), r),
    {
        let ghost s0 = *self;
        let mut undo: Vec<UndoStep> = Vec::new();
        let u0 = if c.add {
            self.add_material(host.0, now)
        } else {
            None
        };
        let ghost (s1, g0) = (*self, u0);
        collect(&mut undo, u0, Ghost(Seq::empty()));
        let u1 = self.edit_named(&SourceEdit::DeleteMaterial, &c.delete, host.1, now);
        let ghost (s2, g1) = (*self, u1);
        collect(&mut undo, u1, Ghost(Seq::empty().push(g0)));
        let u2 = self.rename_asked(&c.rename, host.2, now);
        let ghost (s3, g2) = (*self, u2);
        collect(&mut undo, u2, Ghost(Seq::empty().push(g0).push(g1)));
        let u3 = self.edit_named(&SourceEdit::DeleteGradient, &c.drop_gradient, host.3, now);
        let ghost (s4, g3) = (*self, u3);
        collect(&mut undo, u3, Ghost(Seq::empty().push(g0).push(g1).push(g2)));
        let u4 = self.write_texture(&c.texture_path, host.4, now);
        let ghost (s5, g4) = (*self, u4);
        let forget_textures = u4.is_some();
        collect(&mut undo, u4, Ghost(Seq::empty().push(g0).push(g1).push(g2).push(g3)));
        let u5 = self.apply_material_edits(&c.edits, host.5, now);
        let ghost (s6, g5) = (*self, u5);
        let compile = u5.is_some();
        collect(&mut undo, u5, Ghost(Seq::empty().push(g0).push(g1).push(g2).push(g3).push(g4)));
        proof {
            let s = seq![s0, s1, s2, s3, s4, s5, s6];
            let u = Seq::empty().push(g0).push(g1).push(g2).push(g3).push(g4).push(g5);
            assert(is_material_frame(host, *c, now, s, u));
        }
        MaterialOutcome { undo, forget_textures, compile }
    }
}

// ---- laws ------------------------------------------------------------------

/// Adding a material takes a name that is declared nowhere in the source, and
/// once the declaration stands behind the source, after the blanks `gap`, the
/// next material gets a number one higher: no name is given twice.
pub proof fn law_new_materials_never_share_a_name(src: Seq<char>, gap: Seq<char>)
    requires
        largest_number(src, "material"@) < u32::MAX,
        blank(gap),
        (src + gap).len() == 0 || !is_word_char((src + gap).last()),
    ensures
        forall|i: int| #[trigger]
            declared_name(src, "material"@, i) != Some(next_material(src)),
        next_material(src + gap + new_material(next_material(src))) == "material_"@
            + decimal_digits(largest_number(src, "material"@) + 2),
{
    let name = next_material(src);
    let rest = " {\n  color = [0.7, 0.7, 0.7]\n}"@;
    law_materials_are_named_like_clips(src);
    assert forall|i: int| #[trigger] declared_name(src, "material"@, i) != Some(name) by {
        law_next_name_is_fresh(src, "material"@, i);
    }
    reveal_strlit("material");
    reveal_strlit("material_");
    reveal_strlit("material \"");
    reveal_strlit(" {\n  color = [0.7, 0.7, 0.7]\n}");
    reveal_strlit("\" {\n  color = [0.7, 0.7, 0.7]\n}");
    let added = src + gap + new_material(name);
    assert(added =~= with_declaration(src, gap, "material"@, name, rest));
    law_adding_counts_up(src, gap, "material"@, rest);
    law_materials_are_named_like_clips(added);
    assert("material_"@ =~= name_prefix("material"@));
}

/// An edit of a material that is declared elsewhere changes nothing: a batch
/// of such edits leaves the source, and the undo stack, alone.
pub proof fn law_foreign_edits_are_left_out(
    pre: MogenStudioApp,
    edits: Seq<MaterialEdit>,
    outs: Seq<Option<String>>,
    now: u64,
    post: MogenStudioApp,
    undo: Option<UndoStep>,
)
    requires
        batch_applied(pre, edits, outs, now, post, undo),
        forall|i: int| 0 <= i < outs.len() ==> (#[trigger] outs[i]) is None,
    ensures
        post == pre,
        undo is None,
{
    lemma_none_applied(outs);
}

/// A frame in which nothing was clicked or edited changes nothing.
pub proof fn law_quiet_frame_changes_nothing<
    A: Fn(&String, &String) -> String,
    D: Fn(&String, &String) -> Option<String>,
    L: Fn(&String, &String) -> Option<Span>,
    G: Fn(&String, &String) -> Option<String>,
    T: Fn(&String, &TexturePath) -> Option<String>,
    E: Fn(&String, &MaterialEdit) -> Option<String>,
>(
    host: (A, D, L, G, T, E),
    c: MaterialClicks,
    now: u64,
    s: Seq<MogenStudioApp>,
    u: Seq<Option<UndoStep>>,
)
    requires
        is_material_frame(host, c, now, s, u),
        !c.add,
        c.delete is None,
        c.rename is None,
        c.drop_gradient is None,
        c.texture_path is None,
        c.edits@.len() == 0,
    ensures
        s[6] == s[0],
        forall|i: int| 0 <= i < u.len() ==> (#[trigger] u[i]) is None,
{
}

proof fn lemma_none_applied(outs: Seq<Option<String>>)
    requires
        forall|i: int| 0 <= i < outs.len() ==> (#[trigger] outs[i]) is None,
    ensures
        last_applied(outs) is None,
    decreases outs.len(),
{
    if outs.len() > 0 {
        lemma_none_applied(outs.drop_last());
    }
}

/// Renaming a material rewrites every use: where the source, its declaration
/// renamed, held the old name behind `material=`, it holds the new one, and
/// between these places nothing changes. That goes for all pairs of names.
pub proof fn law_rename_reaches_every_use(
    source: &str,
    span: Span,
    old_name: &str,
    new_name: &str,
    declared: String,
    r: String,
)
    requires
        call_ensures(rename_in_source, (source, span, old_name, new_name), r),
        call_ensures(rewrite_material_decl_name, (source, span, new_name), declared),
    ensures
        exists|pieces: Seq<Seq<char>>|
            swapped(
                pieces,
                declared@,
                "material=\""@ + old_name@ + "\""@,
                r@,
                "material=\""@ + new_name@ + "\""@,
            ),
{
    let from = "material=\""@ + old_name@ + "\""@;
    let to = "material=\""@ + new_name@ + "\""@;
    reveal_strlit("\"");
    let d = choose|d: Seq<char>|
        #![trigger encode_utf8(d)]
        {
            &&& encode_utf8(d) == encode_utf8(declared@)
            &&& r@ == replaced(d, from, to)
        };
    encode_utf8_decode_utf8(d);
    encode_utf8_decode_utf8(declared@);
    lemma_replacing(declared@, from, to);
}

/// A name that can stand in a reference as it is, and after which no
/// reference can begin half-way.
pub open spec fn plain_reference(name: Seq<char>) -> bool {
    !name.contains('"') && !"material="@.is_suffix_of(name)
}

proof fn lemma_reference_overlap(a: Seq<char>, b: Seq<char>, d: int)
    requires
        plain_reference(b),
        0 < d < 11 + b.len(),
    ensures
        exists|k: int|
            0 <= k < 11 + a.len() && k + d < 11 + b.len() && #[trigger] ("material=\""@ + a + "\""@)[k]
                != ("material=\""@ + b + "\""@)[k + d],
{
    reveal_strlit("material=\"");
    reveal_strlit("\"");
    reveal_strlit("material=");
    let f = "material=\""@ + a + "\""@;
    let t = "material=\""@ + b + "\""@;
    let n = b.len() as int;
    assert(forall|j: int| 0 <= j < n ==> #[trigger] t[10 + j] == b[j]);
    assert(forall|j: int| 0 <= j < n ==> #[trigger] b[j] != '"') by {
        assert forall|j: int| 0 <= j < n implies #[trigger] b[j] != '"' by {
            assert(b.contains(b[j]));
        }
    }
    assert(t[10 + n] == '"');
    assert(f[9] == '"');
    if d + 9 >= 11 + n {
        let k = 10 + n - d;
        assert(0 <= k < 9);
        assert(f[k] != '"');
        assert(f[k] != t[k + d]);
    } else if d + 9 != 10 + n {
        assert(t[d + 9] == b[d - 1]);
        assert(f[9] != t[9 + d]);
    } else if n < 9 {
        assert(d == n + 1);
        assert(t[d] != 'm');
        assert(f[0] != t[0 + d]);
    } else {
        assert(d == n + 1);
        if forall|k: int| 0 <= k < 9 ==> b[n - 9 + k] == #[trigger] "material="@[k] {
            assert(b.skip(n - 9) =~= "material="@);
            assert("material="@.is_suffix_of(b));
        }
        let k = choose|k: int| 0 <= k < 9 && b[n - 9 + k] != #[trigger] "material="@[k];
        assert(t[k + d] == b[n - 9 + k]);
        assert(f[k] == "material="@[k]);
        assert(f[k] != t[k + d]);
    }
}

proof fn lemma_references_apart(old_name: Seq<char>, new_name: Seq<char>)
    requires
        plain_reference(old_name),
        plain_reference(new_name),
        old_name != new_name,
    ensures
        apart("material=\""@ + old_name + "\""@, "material=\""@ + new_name + "\""@),
{
    reveal_strlit("material=\"");
    reveal_strlit("\"");
    let f = "material=\""@ + old_name + "\""@;
    let t = "material=\""@ + new_name + "\""@;
    assert forall|d: int| -f.len() < d < t.len() implies #[trigger] clash(f, t, d) by {
        if d > 0 {
            lemma_reference_overlap(old_name, new_name, d);
        } else if d < 0 {
            lemma_reference_overlap(new_name, old_name, -d);
            let k = choose|k: int|
                0 <= k < t.len() && k + (-d) < f.len() && #[trigger] t[k] != f[k + (-d)];
            assert(f[k - d] != t[k - d + d]);
        } else {
            let (m, n) = (old_name.len() as int, new_name.len() as int);
            assert(forall|j: int| 0 <= j < m ==> #[trigger] f[10 + j] == old_name[j]);
            assert(forall|j: int| 0 <= j < n ==> #[trigger] t[10 + j] == new_name[j]);
            if exists|j: int| 0 <= j < m && j < n && #[trigger] old_name[j] != new_name[j] {
                let j = choose|j: int| 0 <= j < m && j < n && #[trigger] old_name[j] != new_name[j];
                assert(f[10 + j] != t[10 + j + 0]);
            } else if m < n {
                assert(new_name.contains(new_name[m]));
                assert(t[10 + m] == new_name[m]);
                assert(f[10 + m] == '"');
                assert(f[10 + m] != t[10 + m + 0]);
            } else if n < m {
                assert(old_name.contains(old_name[n]));
                assert(f[10 + n] == old_name[n]);
                assert(t[10 + n] == '"');
                assert(f[10 + n] != t[10 + n + 0]);
            } else {
                assert(old_name =~= new_name);
            }
        }
    }
}

/// After a rename to another name nothing refers to the old name any more. A
/// name with a quote in it, or one that ends as a reference begins, could
/// build such a reference anew.
pub proof fn law_rename_leaves_no_use(
    source: &str,
    span: Span,
    old_name: &str,
    new_name: &str,
    r: String,
)
    requires
        call_ensures(rename_in_source, (source, span, old_name, new_name), r),
        plain_reference(old_name@),
        plain_reference(new_name@),
        old_name@ != new_name@,
    ensures
        free_of(r@, "material=\""@ + old_name@ + "\""@),
{
    let from = "material=\""@ + old_name@ + "\""@;
    let to = "material=\""@ + new_name@ + "\""@;
    reveal_strlit("\"");
    let b = encode_utf8(source@);
    let d = choose|d: Seq<char>|
        #![trigger encode_utf8(d)]
        {
            &&& encode_utf8(d) == renamed(
                b,
                clipped(span.start, b.len()),
                clipped(span.end, b.len()),
                encode_utf8(new_name@),
            )
            &&& r@ == replaced(d, from, to)
        };
    lemma_references_apart(old_name@, new_name@);
    lemma_replacing(d, from, to);
}

/// Every control of a material writes the attribute of its own name, for the
/// material it stands under, and nothing else.
pub proof fn law_controls_write_their_own_attribute(material: &str, c: PbrChange, e: MaterialEdit)
    requires
        call_ensures(pbr_edit, (material, c), e),
    ensures
        e.material@ == material@,
        c is Color ==> e.attr@ == "color"@,
        c is Alpha ==> e.attr@ == "alpha"@,
        c is Metallic ==> e.attr@ == "metallic"@,
        c is Roughness ==> e.attr@ == "roughness"@,
        c is NormalStrength ==> e.attr@ == "normal_strength"@,
        c is OcclusionStrength ==> e.attr@ == "occlusion_strength"@,
        c is Emissive ==> e.attr@ == "emissive"@,
        c is EmissiveStrength ==> e.attr@ == "emissive_strength"@,
        c is Transmission ==> e.attr@ == "transmission"@,
        c is AlphaMode ==> e.attr@ == "alpha_mode"@,
        c is AlphaCutoff ==> e.attr@ == "alpha_cutoff"@,
        c is DoubleSided ==> e.attr@ == "double_sided"@,
        c is UvMode ==> e.attr@ == "uv_mode"@,
        c is UvScale ==> e.attr@ == "uv_scale"@,
        c is Shader ==> e.attr@ == "shader"@,
{
}

/// Every control of a material writes the value that it was set to: a number
/// as it is, colours and scales as lists in order, a switch as one or zero,
/// and a choice as a quoted word.
pub proof fn law_controls_write_their_value(material: &str, c: PbrChange, e: MaterialEdit)
    requires
        call_ensures(pbr_edit, (material, c), e),
    ensures
        c matches PbrChange::Alpha(v) ==> e.value@ == v@,
        c matches PbrChange::Metallic(v) ==> e.value@ == v@,
        c matches PbrChange::Roughness(v) ==> e.value@ == v@,
        c matches PbrChange::NormalStrength(v) ==> e.value@ == v@,
        c matches PbrChange::OcclusionStrength(v) ==> e.value@ == v@,
        c matches PbrChange::EmissiveStrength(v) ==> e.value@ == v@,
        c matches PbrChange::Transmission(v) ==> e.value@ == v@,
        c matches PbrChange::AlphaCutoff(v) ==> e.value@ == v@,
        c matches PbrChange::Color(r, g, b) ==> e.value@ == "["@ + r@ + ", "@ + g@ + ", "@ + b@
            + "]"@,
        c matches PbrChange::Emissive(r, g, b) ==> e.value@ == "["@ + r@ + ", "@ + g@ + ", "@ + b@
            + "]"@,
        c matches PbrChange::UvScale(u, v) ==> e.value@ == "["@ + u@ + ", "@ + v@ + "]"@,
        c matches PbrChange::DoubleSided(on) ==> e.value@ == if on {
            "1"@
        } else {
            "0"@
        },
        c matches PbrChange::Shader(name) ==> e.value@ == "\""@ + name@ + "\""@,
        c matches PbrChange::AlphaMode(AlphaMode::Opaque) ==> e.value@ == "\"opaque\""@,
        c matches PbrChange::AlphaMode(AlphaMode::Blend) ==> e.value@ == "\"blend\""@,
        c matches PbrChange::AlphaMode(AlphaMode::Mask) ==> e.value@ == "\"mask\""@,
        c matches PbrChange::UvMode(UvMode::Tile) ==> e.value@ == "\"tile\""@,
        c matches PbrChange::UvMode(UvMode::Fit) ==> e.value@ == "\"fit\""@,
{
    reveal_strlit("\"");
    reveal_strlit("opaque");
    reveal_strlit("blend");
    reveal_strlit("mask");
    reveal_strlit("tile");
    reveal_strlit("fit");
    reveal_strlit("\"opaque\"");
    reveal_strlit("\"blend\"");
    reveal_strlit("\"mask\"");
    reveal_strlit("\"tile\"");
    reveal_strlit("\"fit\"");
    assert(in_quotes("opaque"@) =~= "\"opaque\""@);
    assert(in_quotes("blend"@) =~= "\"blend\""@);
    assert(in_quotes("mask"@) =~= "\"mask\""@);
    assert(in_quotes("tile"@) =~= "\"tile\""@);
    assert(in_quotes("fit"@) =~= "\"fit\""@);
}

/// The words that the pickers show are those that are written, without the
/// quotes; a cutoff is there for masks only.
pub proof fn law_pickers_show_what_is_written(
    material: &str,
    a: AlphaMode,
    u: UvMode,
    ea: MaterialEdit,
    eu: MaterialEdit,
    la: &'static str,
    lu: &'static str,
    cutoff: bool,
)
    requires
        call_ensures(pbr_edit, (material, PbrChange::AlphaMode(a)), ea),
        call_ensures(pbr_edit, (material, PbrChange::UvMode(u)), eu),
        call_ensures(alpha_label, (a,), la),
        call_ensures(uv_label, (u,), lu),
        call_ensures(shows_cutoff, (a,), cutoff),
    ensures
        ea.value@ == "\""@ + la@ + "\""@,
        eu.value@ == "\""@ + lu@ + "\""@,
        cutoff == (la@ == "mask"@),
{
    reveal_strlit("mask");
    reveal_strlit("opaque");
    reveal_strlit("blend");
}

/// Picking another shader writes it; picking the one that is on, where none
/// is the standard one, writes nothing.
pub proof fn law_picked_shader_is_written(
    material: &str,
    name: &Option<String>,
    to: &str,
    r: Option<MaterialEdit>,
)
    requires
        call_ensures(pick_shader, (material, name, to), r),
    ensures
        *name matches Some(n) ==> (r is None <==> n@ == to@),
        *name is None ==> (r is None <==> to@ == "standard"@),
        r matches Some(e) ==> e.material@ == material@ && e.attr@ == "shader"@ && e.value@ == "\""@
            + to@ + "\""@,
{
}

/// A gradient is added to, and written back to, the material that it belongs
/// to, as its gradient.
pub proof fn law_gradients_stay_with_their_material<F: Fn(usize, usize, u32) -> bool>(
    material: &str,
    g: Gradient,
    on_grid: F,
    added: MaterialEdit,
    changed: MaterialEdit,
)
    requires
        call_ensures(add_gradient, (material,), added),
        call_ensures(gradient_edit::<F>, (material, g, on_grid), changed),
    ensures
        added.material@ == material@ && changed.material@ == material@,
        added.attr@ == "gradient"@ && changed.attr@ == "gradient"@,
        added.value@ == "vertical(from=[0, 0, 0], to=[1, 1, 1])"@,
{
}

/// A typed name is taken when the field loses the focus, if there is one and
/// it is not the name already; it is taken without the blanks around it.
pub proof fn law_typed_name_is_taken(typed: &str, name: &str, lost: bool, r: Option<String>)
    requires
        call_ensures(committed_name, (typed, name, lost), r),
    ensures
        !lost ==> r is None,
        typed@ == name@ ==> r is None,
        r matches Some(n) ==> n@.len() > 0 && n@ == trimmed(typed@),
        lost && typed@ != name@ && trimmed(typed@).len() > 0 ==> r is Some,
{
}

/// Textures can be generated when there is a key, nothing else is running,
/// and there is a source in a saved file; otherwise each thing that is missing
/// is named, and only those.
pub proof fn law_every_blocker_is_named(n: &TextureNeeds, r: Option<String>)
    requires
        call_ensures(tex_disabled_reason, (n,), r),
    ensures
        r is None <==> n.has_key && !n.busy && !n.source_empty && n.has_path,
        !n.has_key && !n.busy && !n.source_empty && n.has_path ==> opt_view(r) == Some(
            "Disabled — "@ + ("set a "@ + n.provider@ + " API key in Preferences"@),
        ),
        n.has_key && n.busy && !n.source_empty && n.has_path ==> opt_view(r) == Some(
            "Disabled — "@ + "another LLM call is in flight on this tab"@,
        ),
        n.has_key && !n.busy && n.source_empty && n.has_path ==> opt_view(r) == Some(
            "Disabled — "@ + "open or paste a .mog file first"@,
        ),
        n.has_key && !n.busy && !n.source_empty && !n.has_path ==> opt_view(r) == Some(
            "Disabled — "@ + "save the file first — textures writes PNGs next to it"@,
        ),
        ({
            let all = Seq::<Seq<char>>::empty() + (if n.has_key {
                Seq::<Seq<char>>::empty()
            } else {
                seq!["set a "@ + n.provider@ + " API key in Preferences"@]
            }) + (if n.busy {
                seq!["another LLM call is in flight on this tab"@]
            } else {
                Seq::<Seq<char>>::empty()
            }) + (if n.source_empty {
                seq!["open or paste a .mog file first"@]
            } else {
                Seq::<Seq<char>>::empty()
            }) + (if n.has_path {
                Seq::<Seq<char>>::empty()
            } else {
                seq!["save the file first — textures writes PNGs next to it"@]
            });
            all.len() > 1 ==> opt_view(r) == Some("Disabled:\n  • "@ + joined(all, "\n  • "@))
        }),
{
    let all = Seq::<Seq<char>>::empty() + (if n.has_key {
        Seq::<Seq<char>>::empty()
    } else {
        seq!["set a "@ + n.provider@ + " API key in Preferences"@]
    }) + (if n.busy {
        seq!["another LLM call is in flight on this tab"@]
    } else {
        Seq::<Seq<char>>::empty()
    }) + (if n.source_empty {
        seq!["open or paste a .mog file first"@]
    } else {
        Seq::<Seq<char>>::empty()
    }) + (if n.has_path {
        Seq::<Seq<char>>::empty()
    } else {
        seq!["save the file first — textures writes PNGs next to it"@]
    });
    assert(all =~= blockers(*n));
}

/// What the texture pipeline needs is read off the file in the foreground.
pub proof fn law_needs_are_those_of_the_foreground(
    app: &MogenStudioApp,
    has_key: bool,
    r: TextureNeeds,
)
    requires
        app.wf(),
        call_ensures(MogenStudioApp::texture_needs, (app, has_key), r),
    ensures
        r.has_key == has_key,
        r.busy == app.files@[app.active as int].llm_in_flight,
        r.source_empty <==> trimmed(app.files@[app.active as int].source@).len() == 0,
        r.has_path == app.files@[app.active as int].path is Some,
        r.provider@ == app.settings.provider.label@,
{
}

/// Renaming a material commits the renamed source to the file in the
/// foreground, and takes the draft of the old name, and of no other, away with
/// it. A material that is not declared there is left alone.
pub proof fn law_renamed_source_is_committed(
    app: &mut MogenStudioApp,
    span: Option<Span>,
    old_name: &str,
    new_name: &str,
    now: u64,
    undo: Option<UndoStep>,
    other: Seq<char>,
)
    requires
        old(app).wf(),
        call_ensures(MogenStudioApp::rename_material, (app, span, old_name, new_name, now), undo),
    ensures
        span is None ==> *final(app) == *old(app) && undo is None,
        span matches Some(s) ==> exists|source: String| #[trigger]
            is_material_renamed(
                old(app).files@[old(app).active as int].source@,
                s,
                old_name@,
                new_name@,
                source@,
            ) && source_taken(*old(app), source@, *final(app), undo),
        undo is Some ==> !final(app).material_name_drafts@.contains_key(old_name@),
        undo is None ==> *final(app) == *old(app) || final(app).material_name_drafts@ == old(app).material_name_drafts@,
        other != old_name@ ==> final(app).material_name_drafts@.contains_key(other) == old(app).material_name_drafts@.contains_key(other) && final(app).material_name_drafts@[other]
            == old(app).material_name_drafts@[other],
        final(app).selected == old(app).selected && final(app).wizard == old(app).wizard,
{
    if let Some(s) = span {
        let source = choose|source: String| #[trigger]
            is_material_renamed(old(app).front().source@, s, old_name@, new_name@, source@) && {
                &&& committed(
                    old(app).front(),
                    SourceEdit::RenameMaterial,
                    source,
                    now,
                    final(app).front(),
                    undo,
                )
                &&& final(app).files@ == old(app).files@.update(
                    old(app).active as int,
                    final(app).front(),
                )
                &&& *final(app) == (MogenStudioApp {
                    files: final(app).files,
                    material_name_drafts: final(app).material_name_drafts,
                    ..*old(app)
                })
                &&& final(app).material_name_drafts@ == if undo is Some {
                    old(app).material_name_drafts@.remove(old_name@)
                } else {
                    old(app).material_name_drafts@
                }
            };
        assert(is_material_renamed(
            old(app).files@[old(app).active as int].source@,
            s,
            old_name@,
            new_name@,
            source@,
        ) && source_taken(*old(app), source@, *final(app), undo));
    }
}

/// A new material is declared under the next free name, in grey, and what
/// `append` makes of the source with it is committed.
pub proof fn law_added_material_is_committed<F: Fn(&String, &String) -> String>(
    app: &mut MogenStudioApp,
    append: F,
    now: u64,
    undo: Option<UndoStep>,
)
    requires
        old(app).wf(),
        call_ensures(MogenStudioApp::add_material::<F>, (app, append, now), undo),
    ensures
        exists|declaration: String, source: String|
            #![trigger call_ensures(append, (&old(app).files@[old(app).active as int].source, &declaration), source)]
            {
                &&& call_ensures(
                    append,
                    (&old(app).files@[old(app).active as int].source, &declaration),
                    source,
                )
                &&& declaration@ == "material \""@ + next_material(
                    old(app).files@[old(app).active as int].source@,
                ) + "\" {\n  color = [0.7, 0.7, 0.7]\n}"@
                &&& source_taken(*old(app), source@, *final(app), undo)
            },
        *final(app) == (MogenStudioApp { files: final(app).files, ..*old(app) }),
{
    let (declaration, source) = choose|declaration: String, source: String|
        #![trigger call_ensures(append, (&old(app).front().source, &declaration), source)]
        {
            &&& call_ensures(append, (&old(app).front().source, &declaration), source)
            &&& declaration@ == new_material(next_material(old(app).front().source@))
            &&& front_committed(
                *old(app),
                SourceEdit::AddMaterial,
                source,
                now,
                *final(app),
                undo,
            )
        };
    assert(call_ensures(
        append,
        (&old(app).files@[old(app).active as int].source, &declaration),
        source,
    ));
}

/// Whether a batch of edits went from source to source: `at[i]` is what the
/// edit `i` is spliced into, and an edit that cannot be applied hands on what
/// it was given.
pub open spec fn is_chain<F: Fn(&String, &MaterialEdit) -> Option<String>>(
    splice: F,
    edits: Seq<MaterialEdit>,
    at: Seq<String>,
    outs: Seq<Option<String>>,
) -> bool {
    &&& at.len() == edits.len() + 1
    &&& outs.len() == edits.len()
    &&& forall|i: int|
        0 <= i < edits.len() ==> call_ensures(splice, (&at[i], &#[trigger] edits[i]), outs[i])
            && at[i + 1] == match outs[i] {
            Some(s) => s,
            None => at[i],
        }
}

/// Every edit of a batch is spliced into what the ones before it left, and the
/// source that comes out at the end is committed. It is one entry for the undo
/// stack, unless no edit could be applied.
pub proof fn law_batch_applies_every_edit<F: Fn(&String, &MaterialEdit) -> Option<String>>(
    app: &mut MogenStudioApp,
    edits: &Vec<MaterialEdit>,
    splice: F,
    now: u64,
    undo: Option<UndoStep>,
)
    requires
        old(app).wf(),
        call_ensures(MogenStudioApp::apply_material_edits::<F>, (app, edits, splice, now), undo),
    ensures
        exists|at: Seq<String>, outs: Seq<Option<String>>|
            {
                &&& #[trigger] is_chain(splice, edits@, at, outs)
                &&& at[0] == old(app).files@[old(app).active as int].source
                &&& source_taken(*old(app), at.last()@, *final(app), undo)
                &&& undo is Some <==> exists|i: int| 0 <= i < outs.len() && (#[trigger] outs[i]) is Some
            },
        *final(app) == (MogenStudioApp { files: final(app).files, ..*old(app) }),
{
    let start = old(app).front().source;
    let outs = choose|outs: Seq<Option<String>>| #[trigger]
        is_batch(splice, start, edits@, outs) && batch_applied(
            *old(app),
            edits@,
            outs,
            now,
            *final(app),
            undo,
        );
    let at = Seq::new((edits@.len() + 1) as nat, |i: int| source_after(start, outs.take(i)));
    assert forall|i: int| 0 <= i < edits@.len() implies call_ensures(
        splice,
        (&at[i], &#[trigger] edits@[i]),
        outs[i],
    ) && at[i + 1] == match outs[i] {
        Some(s) => s,
        None => at[i],
    } by {
        assert(outs.take(i + 1).drop_last() =~= outs.take(i));
        assert(outs.take(i + 1).last() == outs[i]);
    }
    assert(outs.take(0) =~= Seq::empty());
    assert(outs.take(edits@.len() as int) =~= outs);
    lemma_last_applied(start, outs);
    assert(is_chain(splice, edits@, at, outs));
}

proof fn lemma_last_applied(start: String, outs: Seq<Option<String>>)
    ensures
        last_applied(outs) is Some <==> exists|i: int|
            0 <= i < outs.len() && (#[trigger] outs[i]) is Some,
        last_applied(outs) is None ==> source_after(start, outs) == start,
        last_applied(outs) matches Some(k) ==> 0 <= k < outs.len(),
    decreases outs.len(),
{
    if outs.len() > 0 {
        let t = outs.drop_last();
        lemma_last_applied(start, t);
        if outs.last() is Some {
            assert(outs[outs.len() - 1] is Some);
        } else {
            if exists|i: int| 0 <= i < outs.len() && (#[trigger] outs[i]) is Some {
                let i = choose|i: int| 0 <= i < outs.len() && (#[trigger] outs[i]) is Some;
                assert(t[i] is Some);
            }
            if exists|i: int| 0 <= i < t.len() && (#[trigger] t[i]) is Some {
                let i = choose|i: int| 0 <= i < t.len() && (#[trigger] t[i]) is Some;
                assert(outs[i] is Some);
            }
        }
    }
}

/// After the textures of a material were deleted its file has the source that
/// came with it and the status; the source counts as an edit only where it is
/// another one.
pub proof fn law_texture_cleanup_takes_the_source(
    app: &mut MogenStudioApp,
    source: String,
    status: String,
    now: u64,
    changed: bool,
)
    requires
        old(app).wf(),
        call_ensures(MogenStudioApp::apply_texture_cleanup, (app, source, status, now), changed),
    ensures
        final(app).files@[old(app).active as int].source@ == source@,
        final(app).files@[old(app).active as int].status == status,
        changed <==> source@ != old(app).files@[old(app).active as int].source@,
        changed ==> final(app).files@[old(app).active as int].needs_compile && final(app).files@[old(app).active as int].dirty == (source@ != old(app).files@[old(app).active as int].last_saved_source@),
        final(app).files@.len() == old(app).files@.len(),
        forall|i: int|
            0 <= i < old(app).files@.len() && i != old(app).active ==> #[trigger] final(app).files@[i] == old(app).files@[i],
{
}

/// The lines about a revealed file name it, and what went wrong; the count of
/// unused textures is the number.
pub proof fn law_texture_lines_say_what_happened(
    path: &str,
    failure: &Option<String>,
    r: String,
    n: usize,
    l: String,
)
    requires
        call_ensures(reveal_status, (path, failure), r),
        call_ensures(unused_label, (n,), l),
    ensures
        *failure is None ==> r@ == "revealed "@ + path@,
        *failure matches Some(e) ==> r@ == "reveal failed: "@ + path@ + " ("@ + e@ + ")"@,
        l@ == "unused textures: "@ + decimal_digits(n as nat),
{
}

/// Whether nothing was clicked but, perhaps, what `but` names: one of adding,
/// deleting, renaming, dropping a gradient, a texture path and the edits, in
/// that order.
pub open spec fn quiet_but(c: MaterialClicks, but: int) -> bool {
    &&& but == 0 || !c.add
    &&& but == 1 || c.delete is None
    &&& but == 2 || c.rename is None
    &&& but == 3 || c.drop_gradient is None
    &&& but == 4 || c.texture_path is None
    &&& but == 5 || c.edits@.len() == 0
}

/// A frame in which only one thing was clicked does that thing: it deletes the
/// material, drops the gradient of the material, or writes the texture path
/// that was clicked, and the foreground has the source that came out. Only a
/// texture path that changed the source lets the textures be forgotten.
pub proof fn law_single_click_is_carried_out<
    A: Fn(&String, &String) -> String,
    D: Fn(&String, &String) -> Option<String>,
    L: Fn(&String, &String) -> Option<Span>,
    G: Fn(&String, &String) -> Option<String>,
    T: Fn(&String, &TexturePath) -> Option<String>,
    E: Fn(&String, &MaterialEdit) -> Option<String>,
>(
    app: &mut MogenStudioApp,
    c: &MaterialClicks,
    host: (A, D, L, G, T, E),
    now: u64,
    r: MaterialOutcome,
)
    requires
        old(app).wf(),
        call_ensures(
            MogenStudioApp::apply_material_clicks::<A, D, L, G, T, E>,
            (app, c, host, now),
            r,
        ),
    ensures
        quiet_but(*c, 6) ==> *final(app) == *old(app) && r.undo@.len() == 0 && !r.compile
            && !r.forget_textures,
        quiet_but(*c, 1) ==> (c.delete matches Some(n) ==> (exists|out: Option<String>| #[trigger]
            call_ensures(host.1, (&old(app).front().source, &n), out) && edit_taken(
                *old(app),
                out,
                *final(app),
                r.undo@,
            ))),
        quiet_but(*c, 3) ==> (c.drop_gradient matches Some(n) ==> (exists|out: Option<String>|
         #[trigger]
            call_ensures(host.3, (&old(app).front().source, &n), out) && edit_taken(
                *old(app),
                out,
                *final(app),
                r.undo@,
            ))),
        quiet_but(*c, 4) ==> (c.texture_path matches Some(p) ==> (exists|out: Option<String>|
         #[trigger]
            call_ensures(host.4, (&old(app).front().source, &p), out) && edit_taken(
                *old(app),
                out,
                *final(app),
                r.undo@,
            ))),
        c.texture_path is None ==> !r.forget_textures,
        c.edits@.len() == 0 ==> !r.compile,
        quiet_but(*c, 4) ==> r.forget_textures == (r.undo@.len() == 1),
        quiet_but(*c, 5) ==> r.compile == (r.undo@.len() == 1),
{
    let (s, u) = choose|s: Seq<MogenStudioApp>, u: Seq<Option<UndoStep>>| #[trigger]
        is_material_frame(host, *c, now, s, u) && {
            &&& s[0] == *old(app)
            &&& s[6] == *final(app)
            &&& r.undo@ == entries(u)
            &&& r.forget_textures == u[4] is Some
            &&& r.compile == u[5] is Some
        };
    assert(c.edits@.len() == 0 ==> s[6] == s[5] && u[5] is None);
    if quiet_but(*c, 6) {
        lemma_no_entry(u);
    }
    if quiet_but(*c, 1) {
        lemma_one_entry(u, 1);
        assert(s[1] == s[0] && s[6] == s[2]);
        if let Some(n) = c.delete {
            lemma_named_edit_taken(host.1, s[1], SourceEdit::DeleteMaterial, n, now, s[2], u[1]);
        }
    }
    if quiet_but(*c, 3) {
        lemma_one_entry(u, 3);
        assert(s[3] == s[0] && s[6] == s[4]);
        if let Some(n) = c.drop_gradient {
            lemma_named_edit_taken(host.3, s[3], SourceEdit::DeleteGradient, n, now, s[4], u[3]);
        }
    }
    if quiet_but(*c, 4) {
        lemma_one_entry(u, 4);
        assert(s[4] == s[0] && s[6] == s[5]);
        if let Some(p) = c.texture_path {
            let out = choose|out: Option<String>| #[trigger]
                call_ensures(host.4, (&s[4].front().source, &p), out) && edit_outcome(
                    s[4],
                    SourceEdit::SetTexturePath(p.attr),
                    out,
                    now,
                    s[5],
                    u[4],
                );
            assert(edit_taken(s[4], out, s[5], r.undo@));
        }
    }
    if quiet_but(*c, 5) {
        lemma_one_entry(u, 5);
    }
}

/// A shader goes by its name; the standard one, and none at all, are shown as
/// the standard.
pub proof fn law_shaders_go_by_their_name(name: &Option<String>, r: String)
    requires
        call_ensures(shader_label, (name,), r),
    ensures
        *name is None ==> r@ == "standard (PBR)"@,
        *name matches Some(n) ==> (n@ == "standard"@ ==> r@ == "standard (PBR)"@),
        *name matches Some(n) ==> (n@ != "standard"@ ==> r@ == n@),
{
}

/// The panel says when there is no build, no scene, or no material, and lists
/// every material of this file.
pub proof fn law_panel_lists_the_own_materials(app: &MogenStudioApp, v: MaterialsView, m: int)
    requires
        app.wf(),
        call_ensures(MogenStudioApp::ui_materials, (app,), v),
        app.front().last_result matches Some(b) ==> (b.scene matches Some(s) ==> s.materials@.len()
            <= u32::MAX),
    ensures
        app.front().last_result is None ==> v is NoBuild,
        app.front().last_result matches Some(b) ==> (b.scene is None ==> v is NoScene),
        app.front().last_result matches Some(b) ==> (b.scene matches Some(s) ==> (s.materials@.len()
            == 0 ==> v is NoneDeclared)),
        app.front().last_result matches Some(b) ==> (b.scene matches Some(s) ==> (0 <= m
            < s.materials@.len() && s.materials@[m].origin is None ==> v is Listed && exists|k: int|
            0 <= k < v->0@.len() && #[trigger] v->0@[k] == m)),
{
    if let Some(b) = app.front().last_result {
        if let Some(s) = b.scene {
            let p = |i: int| material_listed(s, import_in_view(s, app.primary()), i);
            lemma_places(p, s.materials@.len());
            if 0 <= m < s.materials@.len() && s.materials@[m].origin is None {
                assert(p(m));
                let all = places(p, s.materials@.len());
                assert(all.contains(m));
                let k = choose|k: int| 0 <= k < all.len() && all[k] == m;
                assert(all.len() > 0);
                assert(as_places(v->0@)[k] == v->0@[k] as int);
            }
        }
    }
}

} // verus!
