//! The controls over the viewport and in the preview section.

use vstd::prelude::*;

use crate::studio::MogenStudioApp;
use crate::text::{
    cat2, cat5, drop_front, is_space, lemma_drop_back, lemma_drop_front, opt_view, trim, trimmed,
};

verus! {

// ---- pickers ---------------------------------------------------------------

/// What picking an entry of a menu sets; the entry that is on sets nothing.
pub fn newly_picked(current: usize, clicked: usize) -> (r: Option<usize>)
    ensures
        r == if clicked == current {
            None::<usize>
        } else {
            Some(clicked)
        },
{
    if clicked == current {
        None
    } else {
        Some(clicked)
    }
}

#[derive(Clone, Copy, Debug, PartialEq, Eq, Structural)]
pub enum GizmoMode {
    Translate,
    Rotate,
    Scale,
}

/// A button for a handle, named after its key.
#[derive(Clone, Copy, Debug)]
pub struct GizmoButton {
    pub label: &'static str,
    pub mode: GizmoMode,
    pub tip: &'static str,
}

/// The buttons for the handles, in order.
pub open spec fn gizmo_buttons() -> Seq<GizmoButton> {
    seq![
        GizmoButton { label: "W", mode: GizmoMode::Translate, tip: "Translate gizmo  (W)" },
        GizmoButton { label: "E", mode: GizmoMode::Rotate, tip: "Rotate gizmo  (E)" },
        GizmoButton { label: "R", mode: GizmoMode::Scale, tip: "Scale gizmo  (R)" },
    ]
}

/// The buttons for the handles, in order.
pub fn all_gizmo_buttons() -> (r: Vec<GizmoButton>)
    ensures
        r@ == gizmo_buttons(),
{
    let mut r: Vec<GizmoButton> = Vec::new();
    r.push(GizmoButton { label: "W", mode: GizmoMode::Translate, tip: "Translate gizmo  (W)" });
    r.push(GizmoButton { label: "E", mode: GizmoMode::Rotate, tip: "Rotate gizmo  (E)" });
    r.push(GizmoButton { label: "R", mode: GizmoMode::Scale, tip: "Scale gizmo  (R)" });
    assert(r@ =~= gizmo_buttons());
    r
}

#[derive(Clone, Copy, Debug, PartialEq, Eq, Structural)]
pub enum CameraMode {
    Orbit,
    Cinema,
    FreeCam,
}

/// What a camera mode says of itself.
pub open spec fn camera_hint(m: CameraMode) -> Seq<char> {
    match m {
        CameraMode::Orbit =>
            "Drag to orbit · middle/right-drag to pan · scroll to zoom"@,
        CameraMode::Cinema =>
            "Play an automated sequence of camera shots. Toggle Play first if you want the subject to move while the camera pans."@,
        CameraMode::FreeCam =>
            "Fly the camera: WASD / arrow keys to move along the look vector, hold right-click to look around, Shift to move faster."@,
    }
}

/// What a camera mode says of itself.
pub fn camera_tip(m: CameraMode) -> (r: &'static str)
    ensures
        r@ == camera_hint(m),
{
    match m {
        CameraMode::Orbit => "Drag to orbit · middle/right-drag to pan · scroll to zoom",
        CameraMode::Cinema =>
            "Play an automated sequence of camera shots. Toggle Play first if you want the subject to move while the camera pans.",
        CameraMode::FreeCam =>
            "Fly the camera: WASD / arrow keys to move along the look vector, hold right-click to look around, Shift to move faster.",
    }
}

/// A menu over the viewport.
#[derive(Clone, Copy, Debug, PartialEq, Eq, Structural)]
pub enum OverlayMenu {
    Shader,
    Lod,
    Environment,
    Shadows,
}

/// The sign in front of a menu's current entry.
pub open spec fn menu_sign(m: OverlayMenu) -> Seq<char> {
    match m {
        OverlayMenu::Shader => "◑ "@,
        OverlayMenu::Lod => "◇ "@,
        OverlayMenu::Environment => "☀ "@,
        OverlayMenu::Shadows => "◐ "@,
    }
}

/// The label of a menu: its sign and its current entry.
pub fn menu_label(m: OverlayMenu, current: &str) -> (r: String)
    ensures
        r@ == menu_sign(m) + current@,
{
    match m {
        OverlayMenu::Shader => cat2("◑ ", current),
        OverlayMenu::Lod => cat2("◇ ", current),
        OverlayMenu::Environment => cat2("☀ ", current),
        OverlayMenu::Shadows => cat2("◐ ", current),
    }
}

// ---- what is shown ---------------------------------------------------------

/// Which overlays the viewport shows.
#[derive(Clone, Copy, Debug, PartialEq, Eq, Structural)]
pub struct ShowFlags {
    pub grid: bool,
    pub light_gizmos: bool,
    pub transform_gizmo: bool,
    pub colliders: bool,
}

/// One of the overlays.
#[derive(Clone, Copy, Debug, PartialEq, Eq, Structural)]
pub enum ShowFlag {
    Grid,
    LightGizmos,
    TransformGizmo,
    Colliders,
}

/// Whether an overlay is shown.
pub open spec fn is_shown(f: ShowFlags, which: ShowFlag) -> bool {
    match which {
        ShowFlag::Grid => f.grid,
        ShowFlag::LightGizmos => f.light_gizmos,
        ShowFlag::TransformGizmo => f.transform_gizmo,
        ShowFlag::Colliders => f.colliders,
    }
}

/// Shows or hides one overlay; the others stay.
pub fn set_shown(f: ShowFlags, which: ShowFlag, on: bool) -> (r: ShowFlags)
    ensures
        forall|w: ShowFlag| #[trigger]
            is_shown(r, w) == if w == which {
                on
            } else {
                is_shown(f, w)
            },
{
    let mut r = f;
    match which {
        ShowFlag::Grid => r.grid = on,
        ShowFlag::LightGizmos => r.light_gizmos = on,
        ShowFlag::TransformGizmo => r.transform_gizmo = on,
        ShowFlag::Colliders => r.colliders = on,
    }
    r
}

// ---- the status strip ------------------------------------------------------

/// What the status strip is made from.
pub struct StripState {
    /// A shader that could not be built: its name and why.
    pub shader_error: Option<(String, String)>,
    /// Whether the presentation is on.
    pub cinema: bool,
    pub free_cam: bool,
    /// The shot that the presentation is in.
    pub shot: Option<String>,
    pub ctrl_held: bool,
    /// The steps that handles snap to, as they are shown.
    pub translate_step: String,
    pub rotate_step: String,
    pub scale_step: String,
}

/// The text of the status strip. A broken shader comes before everything
/// else; then the presentation's shot, the hints of the free camera, the snap
/// steps, and the usual hints.
pub open spec fn strip_text(s: StripState) -> Option<Seq<char>> {
    if s.shader_error is Some {
        let (name, why) = s.shader_error->0;
        Some(
            "shader \""@ + name@ + "\" failed — drawing standard PBR instead: "@ + why@,
        )
    } else if s.cinema {
        match opt_view(s.shot) {
            Some(name) => Some("now: "@ + name),
            None => None,
        }
    } else if s.free_cam {
        Some(
            "free cam — wasd / arrows: move · right-drag: look · scroll: speed · shift: faster · click: select"@,
        )
    } else if s.ctrl_held {
        Some(
            "snap: translate "@ + s.translate_step@ + "u · rotate "@ + s.rotate_step@ + "° · scale "@
                + s.scale_step@ + "× — release ctrl for free drag"@,
        )
    } else {
        Some(
            "click: select · shift/cmd+click: add · del: delete selected · esc: clear · drag: orbit · shift+drag/middle/right: pan · scroll: zoom · ctrl: snap"@,
        )
    }
}

/// The text of the status strip; without one there is no strip.
pub fn status_text(s: &StripState) -> (r: Option<String>)
    ensures
        opt_view(r) == strip_text(*s),
{
    if let Some((name, why)) = &s.shader_error {
        let mut t = cat2("shader \"", name.as_str());
        t.append("\" failed — drawing standard PBR instead: ");
        t.append(why.as_str());
        return Some(t);
    }
    if s.cinema {
        return match &s.shot {
            Some(name) => Some(cat2("now: ", name.as_str())),
            None => None,
        };
    }
    if s.free_cam {
        return Some(
            "free cam — wasd / arrows: move · right-drag: look · scroll: speed · shift: faster · click: select".to_owned(),
        );
    }
    if s.ctrl_held {
        let mut t = cat5(
            "snap: translate ",
            s.translate_step.as_str(),
            "u · rotate ",
            s.rotate_step.as_str(),
            "° · scale ",
        );
        t.append(s.scale_step.as_str());
        t.append("× — release ctrl for free drag");
        return Some(t);
    }
    Some(
        "click: select · shift/cmd+click: add · del: delete selected · esc: clear · drag: orbit · shift+drag/middle/right: pan · scroll: zoom · ctrl: snap".to_owned(),
    )
}

impl MogenStudioApp {
    /// Whether the hints for an empty scene are shown: nothing is loaded, and
    /// nothing was typed either.
    pub fn shows_empty_state(&self, has_scene: bool) -> (r: bool)
        ensures
            r == (!has_scene && (self.active >= self.files@.len() || trimmed(
                self.front().source@,
            ).len() == 0)),
    {
        if has_scene {
            return false;
        }
        if self.active < self.files.len() {
            trim(self.files[self.active].source.as_str()).is_empty()
        } else {
            true
        }
    }
}

// ---- preferences of the preview --------------------------------------------

/// The cap on the frame rate when it is switched on or off: a cap that is on
/// stays as it is, a new one is sixty.
pub fn toggle_fps_cap(now: Option<u32>, on: bool) -> (r: Option<u32>)
    ensures
        r == if on {
            match now {
                Some(n) => Some(n),
                None => Some(60u32),
            }
        } else {
            None
        },
{
    if on {
        match now {
            Some(n) => Some(n),
            None => Some(60),
        }
    } else {
        None
    }
}

/// A colour in eight bits for each channel.
#[derive(Clone, Copy, Debug, PartialEq, Eq, Structural)]
pub struct Rgb {
    pub red: u8,
    pub green: u8,
    pub blue: u8,
}

/// The background that is to be saved after it was edited: only one that
/// differs.
pub fn edited_background(now: Rgb, to: Rgb) -> (r: Option<Rgb>)
    ensures
        r == if to == now {
            None::<Rgb>
        } else {
            Some(to)
        },
{
    if to == now {
        None
    } else {
        Some(to)
    }
}

/// Whether the level-of-detail slider commits its value: when it is let go, or
/// changed without a drag.
pub fn commits_slider(drag_stopped: bool, changed: bool, dragged: bool) -> (r: bool)
    ensures
        r == (drag_stopped || changed && !dragged),
{
    drag_stopped || (changed && !dragged)
}

// ---- what the controls guarantee -------------------------------------------

/// The keys W, E and R stand for moving, turning and scaling, each with a tip
/// that says so.
pub proof fn law_keys_pick_their_handle(r: Vec<GizmoButton>)
    requires
        call_ensures(all_gizmo_buttons, (), r),
    ensures
        r@.len() == 3,
        r@[0].label@ == "W"@ && r@[0].mode is Translate && r@[0].tip@ == "Translate gizmo  (W)"@,
        r@[1].label@ == "E"@ && r@[1].mode is Rotate && r@[1].tip@ == "Rotate gizmo  (E)"@,
        r@[2].label@ == "R"@ && r@[2].mode is Scale && r@[2].tip@ == "Scale gizmo  (R)"@,
{
}

/// An entry that is on already sets nothing, and any other is set.
pub proof fn law_picking_sets_the_entry(current: usize, clicked: usize, r: Option<usize>)
    requires
        call_ensures(newly_picked, (current, clicked), r),
    ensures
        clicked == current ==> r is None,
        clicked != current ==> r == Some(clicked),
{
}

/// Each camera mode explains itself.
pub proof fn law_camera_modes_explain_themselves(m: CameraMode, r: &'static str)
    requires
        call_ensures(camera_tip, (m,), r),
    ensures
        m is Orbit ==> r@ == "Drag to orbit · middle/right-drag to pan · scroll to zoom"@,
        m is Cinema ==> r@
            == "Play an automated sequence of camera shots. Toggle Play first if you want the subject to move while the camera pans."@,
        m is FreeCam ==> r@
            == "Fly the camera: WASD / arrow keys to move along the look vector, hold right-click to look around, Shift to move faster."@,
{
}

/// A menu shows its sign and its current entry.
pub proof fn law_menus_show_their_entry(m: OverlayMenu, current: &str, r: String)
    requires
        call_ensures(menu_label, (m, current), r),
    ensures
        m is Shader ==> r@ == "◑ "@ + current@,
        m is Lod ==> r@ == "◇ "@ + current@,
        m is Environment ==> r@ == "☀ "@ + current@,
        m is Shadows ==> r@ == "◐ "@ + current@,
{
}

/// Switching one overlay sets that one and leaves the others.
pub proof fn law_switching_sets_one_overlay(f: ShowFlags, which: ShowFlag, on: bool, r: ShowFlags)
    requires
        call_ensures(set_shown, (f, which, on), r),
    ensures
        which is Grid ==> r == (ShowFlags { grid: on, ..f }),
        which is LightGizmos ==> r == (ShowFlags { light_gizmos: on, ..f }),
        which is TransformGizmo ==> r == (ShowFlags { transform_gizmo: on, ..f }),
        which is Colliders ==> r == (ShowFlags { colliders: on, ..f }),
{
    assert(is_shown(r, ShowFlag::Grid) == r.grid);
    assert(is_shown(r, ShowFlag::LightGizmos) == r.light_gizmos);
    assert(is_shown(r, ShowFlag::TransformGizmo) == r.transform_gizmo);
    assert(is_shown(r, ShowFlag::Colliders) == r.colliders);
}

/// A broken shader is reported before anything else; then comes the shot of
/// the presentation, the free camera, and the steps while Ctrl is held.
pub proof fn law_strip_reports_the_first_that_holds(s: &StripState, r: Option<String>)
    requires
        call_ensures(status_text, (s,), r),
    ensures
        s.shader_error matches Some(e) ==> (r matches Some(t) && t@ == "shader \""@ + e.0@
            + "\" failed — drawing standard PBR instead: "@ + e.1@),
        s.shader_error is None && s.cinema ==> opt_view(r) == match s.shot {
            Some(shot) => Some("now: "@ + shot@),
            None => None,
        },
        s.shader_error is None && !s.cinema ==> r is Some,
        s.shader_error is None && !s.cinema && s.free_cam ==> r->0@
            == "free cam — wasd / arrows: move · right-drag: look · scroll: speed · shift: faster · click: select"@,
        s.shader_error is None && !s.cinema && !s.free_cam && s.ctrl_held ==> r->0@
            == "snap: translate "@ + s.translate_step@ + "u · rotate "@ + s.rotate_step@
            + "° · scale "@ + s.scale_step@ + "× — release ctrl for free drag"@,
        s.shader_error is None && !s.cinema && !s.free_cam && !s.ctrl_held ==> r->0@
            == "click: select · shift/cmd+click: add · del: delete selected · esc: clear · drag: orbit · shift+drag/middle/right: pan · scroll: zoom · ctrl: snap"@,
{
}

/// The hints for an empty scene are gone as soon as there is a scene, or a
/// character other than a blank in the foreground.
pub proof fn law_hints_go_once_something_is_there(
    app: &MogenStudioApp,
    has_scene: bool,
    r: bool,
    k: int,
)
    requires
        call_ensures(MogenStudioApp::shows_empty_state, (app, has_scene), r),
        app.wf(),
        has_scene || 0 <= k < app.front().source@.len() && !is_space(app.front().source@[k]),
    ensures
        !r,
{
    if !has_scene {
        let src = app.front().source@;
        if trimmed(src).len() == 0 {
            let p = |c: char| is_space(c);
            let n = lemma_drop_front(src, p);
            let m = lemma_drop_back(drop_front(src, p), p);
            assert(p(src[k]) == is_space(src[k]));
            if k < n {
                assert(p(src[k]));
            } else {
                assert(drop_front(src, p)[k - n] == src[k]);
            }
        }
    }
}

/// The hints for an empty scene are shown over a source of blanks alone.
pub proof fn law_hints_stand_over_blanks(app: &MogenStudioApp, r: bool)
    requires
        call_ensures(MogenStudioApp::shows_empty_state, (app, false), r),
        app.wf(),
        forall|k: int| 0 <= k < app.front().source@.len() ==> is_space(#[trigger] app.front().source@[k]),
    ensures
        r,
{
    let src = app.front().source@;
    let p = |c: char| is_space(c);
    let n = lemma_drop_front(src, p);
    let m = lemma_drop_back(drop_front(src, p), p);
    if n < src.len() {
        assert(is_space(src[n]));
        assert(drop_front(src, p)[0] == src[n]);
    }
}

/// Switching the cap on keeps one that is on and begins with sixty; switching
/// it off takes it away.
pub proof fn law_cap_begins_with_sixty(now: Option<u32>, on: bool, r: Option<u32>)
    requires
        call_ensures(toggle_fps_cap, (now, on), r),
    ensures
        !on ==> r is None,
        on && now is None ==> r == Some(60u32),
        on && now is Some ==> r == now,
{
}

/// A background is saved when it differs, as it was picked.
pub proof fn law_changed_background_is_saved(now: Rgb, to: Rgb, r: Option<Rgb>)
    requires
        call_ensures(edited_background, (now, to), r),
    ensures
        r matches Some(c) ==> c == to && to != now,
        r is None ==> to == now,
{
}

/// A drag commits when it is let go and not before; a change without a drag
/// commits at once.
pub proof fn law_slider_commits_at_the_end(drag_stopped: bool, changed: bool, dragged: bool, r: bool)
    requires
        call_ensures(commits_slider, (drag_stopped, changed, dragged), r),
    ensures
        drag_stopped ==> r,
        dragged && !drag_stopped ==> !r,
        changed && !dragged ==> r,
        !changed && !drag_stopped ==> !r,
{
}

} // verus!
