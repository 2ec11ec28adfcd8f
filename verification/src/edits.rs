//! Committing an edited source, and what the undo stack is told about it.

use vstd::prelude::*;

use crate::studio::{MogenStudioApp, OpenFile};
use crate::text::{cat3, opt_view, str_eq};

verus! {

/// The edits that the panels make to a source.
pub enum SourceEdit {
    AddMaterial,
    DeleteMaterial,
    RenameMaterial,
    DeleteGradient,
    SetTexturePath(&'static str),
    /// A batch of attribute edits; the last one names the entry.
    MaterialAttr { material: String, attr: &'static str },
    AddClip,
    DeleteClip,
    RenameClip,
    ClipSeconds,
    LodScale,
    WrapUse,
    DuplicateNode,
    DeleteNodes,
    RemoveLightRange,
    /// Removing an attribute, or changing the kind, of the selected node.
    NodeAttr(&'static str),
}

/// One entry for the undo stack.
pub struct UndoStep {
    /// The source before the edit.
    pub before: String,
    pub surface: &'static str,
    pub attr: Option<String>,
    /// The entry never merges with the one before it.
    pub breaks_chain: bool,
}

/// The part of the studio that an edit belongs to.
pub open spec fn surface_of(e: SourceEdit) -> Seq<char> {
    match e {
        SourceEdit::AddMaterial
        | SourceEdit::DeleteMaterial
        | SourceEdit::RenameMaterial
        | SourceEdit::DeleteGradient
        | SourceEdit::SetTexturePath(_)
        | SourceEdit::MaterialAttr { .. } => "material"@,
        SourceEdit::AddClip
        | SourceEdit::DeleteClip
        | SourceEdit::RenameClip
        | SourceEdit::ClipSeconds => "animation"@,
        SourceEdit::LodScale => "lod"@,
        _ => "inspector-action"@,
    }
}

/// What an edit changes, as the undo stack names it.
pub open spec fn attr_of(e: SourceEdit) -> Option<Seq<char>> {
    match e {
        SourceEdit::AddMaterial => Some("__add"@),
        SourceEdit::DeleteMaterial => Some("__delete"@),
        SourceEdit::RenameMaterial => Some("__rename"@),
        SourceEdit::DeleteGradient => Some("gradient:__delete"@),
        SourceEdit::SetTexturePath(attr) => Some(attr@),
        SourceEdit::MaterialAttr { material, attr } => Some(material@ + ":"@ + attr@),
        SourceEdit::AddClip => Some("__add"@),
        SourceEdit::RenameClip => Some("__rename"@),
        SourceEdit::ClipSeconds => Some("seconds"@),
        SourceEdit::NodeAttr(attr) => Some(attr@),
        _ => None,
    }
}

/// Whether an edit is committed even when it leaves the source as it was.
pub open spec fn unconditional(e: SourceEdit) -> bool {
    match e {
        SourceEdit::AddMaterial
        | SourceEdit::RenameMaterial
        | SourceEdit::DeleteGradient
        | SourceEdit::SetTexturePath(_)
        | SourceEdit::AddClip
        | SourceEdit::RenameClip
        | SourceEdit::ClipSeconds
        | SourceEdit::WrapUse => false,
        _ => true,
    }
}

/// The undo entry of an edit. Only a batch of material attributes may merge
/// with the entry before it, so that one drag is one entry.
pub open spec fn is_undo_step(e: SourceEdit, before: Seq<char>, u: UndoStep) -> bool {
    &&& u.before@ == before
    &&& u.surface@ == surface_of(e)
    &&& opt_view(u.attr) == attr_of(e)
    &&& u.breaks_chain == !(e is MaterialAttr)
}

/// A file with a new source.
pub open spec fn with_source(f: OpenFile, source: String, now: u64) -> OpenFile {
    OpenFile {
        source,
        dirty: source@ != f.last_saved_source@,
        needs_compile: true,
        last_edit_at: Some(now),
        ..f
    }
}

/// What committing an edit does to a file.
pub open spec fn committed(
    pre: OpenFile,
    e: SourceEdit,
    source: String,
    now: u64,
    post: OpenFile,
    undo: Option<UndoStep>,
) -> bool {
    if source@ == pre.source@ && !unconditional(e) {
        post == pre && undo is None
    } else {
        &&& post == with_source(pre, source, now)
        &&& undo matches Some(u)
        &&& is_undo_step(e, pre.source@, u)
    }
}

fn surface_name(e: &SourceEdit) -> (r: &'static str)
    ensures
        r@ == surface_of(*e),
{
    match e {
        SourceEdit::AddMaterial => "material",
        SourceEdit::DeleteMaterial => "material",
        SourceEdit::RenameMaterial => "material",
        SourceEdit::DeleteGradient => "material",
        SourceEdit::SetTexturePath(_) => "material",
        SourceEdit::MaterialAttr { material: _, attr: _ } => "material",
        SourceEdit::AddClip => "animation",
        SourceEdit::DeleteClip => "animation",
        SourceEdit::RenameClip => "animation",
        SourceEdit::ClipSeconds => "animation",
        SourceEdit::LodScale => "lod",
        _ => "inspector-action",
    }
}

fn attr_name(e: &SourceEdit) -> (r: Option<String>)
    ensures
        opt_view(r) == attr_of(*e),
{
    match e {
        SourceEdit::AddMaterial => Some("__add".to_owned()),
        SourceEdit::DeleteMaterial => Some("__delete".to_owned()),
        SourceEdit::RenameMaterial => Some("__rename".to_owned()),
        SourceEdit::DeleteGradient => Some("gradient:__delete".to_owned()),
        SourceEdit::SetTexturePath(attr) => Some((*attr).to_owned()),
        SourceEdit::MaterialAttr { material, attr } => Some(cat3(material.as_str(), ":", attr)),
        SourceEdit::AddClip => Some("__add".to_owned()),
        SourceEdit::RenameClip => Some("__rename".to_owned()),
        SourceEdit::ClipSeconds => Some("seconds".to_owned()),
        SourceEdit::NodeAttr(attr) => Some((*attr).to_owned()),
        _ => None,
    }
}

fn always(e: &SourceEdit) -> (r: bool)
    ensures
        r == unconditional(*e),
{
    match e {
        SourceEdit::AddMaterial => false,
        SourceEdit::RenameMaterial => false,
        SourceEdit::DeleteGradient => false,
        SourceEdit::SetTexturePath(_) => false,
        SourceEdit::AddClip => false,
        SourceEdit::RenameClip => false,
        SourceEdit::ClipSeconds => false,
        SourceEdit::WrapUse => false,
        _ => true,
    }
}

fn may_merge(e: &SourceEdit) -> (r: bool)
    ensures
        r == *e is MaterialAttr,
{
    match e {
        SourceEdit::MaterialAttr { material: _, attr: _ } => true,
        _ => false,
    }
}

/// Commits an edited source to a file. `now` is the time in milliseconds.
/// Returns the entry for the undo stack, if anything was committed.
pub fn commit_to_file(f: &mut OpenFile, e: &SourceEdit, source: String, now: u64) -> (undo: Option<
    UndoStep,
>)
    ensures
        committed(*old(f), *e, source, now, *final(f), undo),
{
    if str_eq(source.as_str(), f.source.as_str()) && !always(e) {
        return None;
    }
    let undo = UndoStep {
        before: f.source.clone(),
        surface: surface_name(e),
        attr: attr_name(e),
        breaks_chain: !may_merge(e),
    };
    f.dirty = !str_eq(source.as_str(), f.last_saved_source.as_str());
    f.source = source;
    f.needs_compile = true;
    f.last_edit_at = Some(now);
    Some(undo)
}

/// What committing an edit to the file in the foreground does to the studio.
pub open spec fn front_committed(
    pre: MogenStudioApp,
    e: SourceEdit,
    source: String,
    now: u64,
    post: MogenStudioApp,
    undo: Option<UndoStep>,
) -> bool {
    &&& post == (MogenStudioApp { files: post.files, ..pre })
    &&& post.files@ == pre.files@.update(pre.active as int, post.front())
    &&& committed(pre.front(), e, source, now, post.front(), undo)
}

impl MogenStudioApp {
    /// Commits an edited source to the file in the foreground.
    pub fn commit_source(&mut self, e: &SourceEdit, source: String, now: u64) -> (undo: Option<
        UndoStep,
    >)
        requires
            old(self).wf(),
        ensures
            final(self).wf(),
            front_committed(*old(self), *e, source, now, *final(self), undo),
    {
        let i = self.active;
        commit_to_file(&mut self.files[i], e, source, now)
    }
}

/// What an edit that `edit` makes to the source in the foreground does. It may
/// find nothing to edit there.
pub open spec fn located_edit<F: Fn(&String) -> Option<String>>(
    edit: F,
    pre: MogenStudioApp,
    e: SourceEdit,
    now: u64,
    post: MogenStudioApp,
    undo: Option<UndoStep>,
) -> bool {
    exists|out: Option<String>| #[trigger]
        call_ensures(edit, (&pre.front().source,), out) && edit_outcome(pre, e, out, now, post, undo)
}

/// What committing an edited source does; without one nothing happens.
pub open spec fn edit_outcome(
    pre: MogenStudioApp,
    e: SourceEdit,
    edited: Option<String>,
    now: u64,
    post: MogenStudioApp,
    undo: Option<UndoStep>,
) -> bool {
    match edited {
        None => post == pre && undo is None,
        Some(source) => front_committed(pre, e, source, now, post, undo),
    }
}

impl MogenStudioApp {
    /// Commits what `edit` makes of the source in the foreground; it gives
    /// nothing when what it is to edit is not declared there.
    pub fn edit_located<F: Fn(&String) -> Option<String>>(
        &mut self,
        e: &SourceEdit,
        edit: F,
        now: u64,
    ) -> (undo: Option<UndoStep>)
        requires
            old(self).wf(),
            call_requires(edit, (&old(self).front().source,)),
        ensures
            final(self).wf(),
            located_edit(edit, *old(self), *e, now, *final(self), undo),
    {
        match edit(&self.active().source) {
            None => None,
            Some(source) => self.commit_source(e, source, now),
        }
    }
}

/// Whether a step that was not asked for did nothing.
pub open spec fn idle(pre: MogenStudioApp, post: MogenStudioApp, undo: Option<UndoStep>) -> bool {
    post == pre && undo is None
}

/// What an edit of the declaration under a name does, if one was asked for.
pub open spec fn named_edit<F: Fn(&String, &String) -> Option<String>>(
    edit: F,
    pre: MogenStudioApp,
    e: SourceEdit,
    name: Option<String>,
    now: u64,
    post: MogenStudioApp,
    undo: Option<UndoStep>,
) -> bool {
    match name {
        None => idle(pre, post, undo),
        Some(n) => exists|out: Option<String>| #[trigger]
            call_ensures(edit, (&pre.front().source, &n), out) && edit_outcome(
                pre,
                e,
                out,
                now,
                post,
                undo,
            ),
    }
}

impl MogenStudioApp {
    /// Commits what `edit` makes of the declaration under a name, if one was
    /// asked for.
    pub fn edit_named<F: Fn(&String, &String) -> Option<String>>(
        &mut self,
        e: &SourceEdit,
        name: &Option<String>,
        edit: F,
        now: u64,
    ) -> (undo: Option<UndoStep>)
        requires
            old(self).wf(),
            forall|s: &String, n: &String| call_requires(edit, (s, n)),
        ensures
            final(self).wf(),
            named_edit(edit, *old(self), *e, *name, now, *final(self), undo),
    {
        match name {
            None => None,
            Some(n) => match edit(&self.active().source, n) {
                None => None,
                Some(source) => self.commit_source(e, source, now),
            },
        }
    }
}

/// The entries among what several edits gave.
pub open spec fn entries(us: Seq<Option<UndoStep>>) -> Seq<UndoStep>
    decreases us.len(),
{
    if us.len() == 0 {
        Seq::empty()
    } else {
        let before = entries(us.drop_last());
        match us.last() {
            Some(u) => before.push(u),
            None => before,
        }
    }
}

/// Adds what one more edit gave to a list of entries.
pub(crate) fn collect(list: &mut Vec<UndoStep>, u: Option<UndoStep>, Ghost(us): Ghost<Seq<Option<UndoStep>>>)
    requires
        old(list)@ == entries(us),
    ensures
        final(list)@ == entries(us.push(u)),
{
    assert(us.push(u).drop_last() =~= us);
    if let Some(u) = u {
        list.push(u);
    }
}

/// A file is marked dirty exactly when its source differs from what was last
/// saved, and a committed edit can be undone to the source before it.
pub proof fn law_commit_tracks_the_saved_source(
    pre: OpenFile,
    e: SourceEdit,
    source: String,
    now: u64,
    post: OpenFile,
    undo: Option<UndoStep>,
)
    requires
        committed(pre, e, source, now, post, undo),
        undo is Some,
    ensures
        post.source@ == source@,
        post.dirty == (post.source@ != post.last_saved_source@),
        post.last_saved_source == pre.last_saved_source,
        (undo->0).before@ == pre.source@,
{
}

/// Committing a source and then the one before it leaves the file clean or
/// dirty as the earlier source was.
pub proof fn law_undo_restores_cleanliness(
    pre: OpenFile,
    e1: SourceEdit,
    e2: SourceEdit,
    source: String,
    now1: u64,
    now2: u64,
    mid: OpenFile,
    post: OpenFile,
    undo1: Option<UndoStep>,
    undo2: Option<UndoStep>,
)
    requires
        pre.dirty == (pre.source@ != pre.last_saved_source@),
        committed(pre, e1, source, now1, mid, undo1),
        undo1 is Some,
        committed(mid, e2, (undo1->0).before, now2, post, undo2),
    ensures
        post.source@ == pre.source@,
        post.dirty == pre.dirty,
{
}

/// A new source is taken over as it is: the file holds it, is due for
/// compiling from now on, and is dirty exactly where it differs from what was
/// saved; the undo stack gets the source before it. A source that is no
/// change is committed only for the edits that always are.
pub proof fn law_committed_source_is_the_source(
    f: &mut OpenFile,
    e: &SourceEdit,
    source: String,
    now: u64,
    undo: Option<UndoStep>,
)
    requires
        call_ensures(commit_to_file, (f, e, source, now), undo),
    ensures
        final(f).source@ == source@,
        source@ != old(f).source@ ==> undo is Some,
        undo matches Some(u) ==> {
            &&& u.before@ == old(f).source@
            &&& final(f).needs_compile
            &&& final(f).last_edit_at == Some(now)
            &&& final(f).dirty == (source@ != old(f).last_saved_source@)
        },
        undo is None ==> *final(f) == *old(f),
        *e is DeleteMaterial || *e is DeleteClip || *e is DeleteNodes || *e is DuplicateNode
            || *e is MaterialAttr || *e is NodeAttr || *e is LodScale || *e is RemoveLightRange
            ==> undo is Some,
        source@ == old(f).source@ && (*e is AddMaterial || *e is RenameMaterial
            || *e is DeleteGradient || *e is SetTexturePath || *e is AddClip || *e is RenameClip
            || *e is ClipSeconds || *e is WrapUse) ==> undo is None,
        *final(f) == (OpenFile {
            source: final(f).source,
            dirty: final(f).dirty,
            needs_compile: final(f).needs_compile,
            last_edit_at: final(f).last_edit_at,
            ..*old(f)
        }),
{
}

/// The undo stack is told where an edit came from and what it changed. Edits
/// of material attributes merge while they name the same attribute of the same
/// material; everything else is an entry of its own.
pub proof fn law_undo_entries_name_the_edit(
    f: &mut OpenFile,
    e: &SourceEdit,
    source: String,
    now: u64,
    u: UndoStep,
)
    requires
        call_ensures(commit_to_file, (f, e, source, now), Some(u)),
    ensures
        u.breaks_chain <==> !(*e is MaterialAttr),
        *e is AddMaterial || *e is DeleteMaterial || *e is RenameMaterial || *e is DeleteGradient
            || *e is SetTexturePath || *e is MaterialAttr ==> u.surface@ == "material"@,
        *e is AddClip || *e is DeleteClip || *e is RenameClip || *e is ClipSeconds ==> u.surface@
            == "animation"@,
        *e is LodScale ==> u.surface@ == "lod"@,
        *e is WrapUse || *e is DuplicateNode || *e is DeleteNodes || *e is RemoveLightRange
            || *e is NodeAttr ==> u.surface@ == "inspector-action"@,
        *e is AddMaterial || *e is AddClip ==> opt_view(u.attr) == Some("__add"@),
        *e is DeleteMaterial ==> opt_view(u.attr) == Some("__delete"@),
        *e is RenameMaterial || *e is RenameClip ==> opt_view(u.attr) == Some("__rename"@),
        *e is DeleteGradient ==> opt_view(u.attr) == Some("gradient:__delete"@),
        *e is ClipSeconds ==> opt_view(u.attr) == Some("seconds"@),
        *e matches SourceEdit::SetTexturePath(a) ==> opt_view(u.attr) == Some(a@),
        *e matches SourceEdit::NodeAttr(a) ==> opt_view(u.attr) == Some(a@),
        *e matches SourceEdit::MaterialAttr { material, attr } ==> opt_view(u.attr) == Some(
            material@ + ":"@ + attr@,
        ),
        *e is DeleteClip || *e is LodScale || *e is WrapUse || *e is DuplicateNode
            || *e is DeleteNodes || *e is RemoveLightRange ==> u.attr is None,
{
}

/// Whether an edit went to the file in the foreground and nowhere else: the
/// file has the new source, and the entry for the undo stack the one before.
pub open spec fn source_taken(
    pre: MogenStudioApp,
    source: Seq<char>,
    post: MogenStudioApp,
    undo: Option<UndoStep>,
) -> bool {
    &&& post.active == pre.active
    &&& post.files@.len() == pre.files@.len()
    &&& forall|i: int|
        0 <= i < pre.files@.len() && i != pre.active ==> #[trigger] post.files@[i] == pre.files@[i]
    &&& post.files@[pre.active as int].source@ == source
    &&& undo is None ==> post.files@[pre.active as int] == pre.files@[pre.active as int]
    &&& undo matches Some(u) ==> u.before@ == pre.files@[pre.active as int].source@
    &&& source != pre.files@[pre.active as int].source@ ==> undo is Some
}

/// Committing goes to the file in the foreground: no other file changes, nor
/// the selection, the wizard or any draft.
pub proof fn law_commit_goes_to_the_foreground(
    app: &mut MogenStudioApp,
    e: &SourceEdit,
    source: String,
    now: u64,
    undo: Option<UndoStep>,
)
    requires
        old(app).wf(),
        call_ensures(MogenStudioApp::commit_source, (app, e, source, now), undo),
    ensures
        source_taken(*old(app), source@, *final(app), undo),
        *final(app) == (MogenStudioApp { files: final(app).files, ..*old(app) }),
{
}

/// An edit of the source in the foreground is handed that source, and what it
/// gives is committed; when it gives nothing nothing happens.
pub proof fn law_located_edit_is_committed<F: Fn(&String) -> Option<String>>(
    app: &mut MogenStudioApp,
    e: &SourceEdit,
    edit: F,
    now: u64,
    undo: Option<UndoStep>,
)
    requires
        old(app).wf(),
        call_ensures(MogenStudioApp::edit_located::<F>, (app, e, edit, now), undo),
    ensures
        exists|out: Option<String>| #[trigger]
            call_ensures(edit, (&old(app).files@[old(app).active as int].source,), out) && {
                &&& out is None ==> *final(app) == *old(app) && undo is None
                &&& out matches Some(s) ==> source_taken(*old(app), s@, *final(app), undo)
            },
{
    let out = choose|out: Option<String>| #[trigger]
        call_ensures(edit, (&old(app).front().source,), out) && edit_outcome(
            *old(app),
            *e,
            out,
            now,
            *final(app),
            undo,
        );
    assert(call_ensures(edit, (&old(app).files@[old(app).active as int].source,), out));
}

/// An edit under a name is handed the source in the foreground and that name,
/// and what it gives is committed; without a name nothing happens.
pub proof fn law_named_edit_is_committed<F: Fn(&String, &String) -> Option<String>>(
    app: &mut MogenStudioApp,
    e: &SourceEdit,
    name: &Option<String>,
    edit: F,
    now: u64,
    undo: Option<UndoStep>,
)
    requires
        old(app).wf(),
        call_ensures(MogenStudioApp::edit_named::<F>, (app, e, name, edit, now), undo),
    ensures
        *name is None ==> *final(app) == *old(app) && undo is None,
        *name matches Some(n) ==> exists|out: Option<String>| #[trigger]
            call_ensures(edit, (&old(app).files@[old(app).active as int].source, &n), out) && {
                &&& out is None ==> *final(app) == *old(app) && undo is None
                &&& out matches Some(s) ==> source_taken(*old(app), s@, *final(app), undo)
            },
{
    if let Some(n) = *name {
        let out = choose|out: Option<String>| #[trigger]
            call_ensures(edit, (&old(app).front().source, &n), out) && edit_outcome(
                *old(app),
                *e,
                out,
                now,
                *final(app),
                undo,
            );
        assert(call_ensures(edit, (&old(app).files@[old(app).active as int].source, &n), out));
    }
}

/// Every entry that the steps of a frame gave is kept, in order.
pub proof fn law_entries_keep_every_step(a: Seq<Option<UndoStep>>, b: Seq<Option<UndoStep>>)
    ensures
        entries(a + b) == entries(a) + entries(b),
        a.len() == 1 && a[0] is Some ==> entries(a) == seq![a[0]->0],
        a.len() == 1 && a[0] is None ==> entries(a) == Seq::<UndoStep>::empty(),
    decreases b.len(),
{
    if b.len() == 0 {
        assert(a + b =~= a);
        assert(entries(a) + entries(b) =~= entries(a));
    } else {
        law_entries_keep_every_step(a, b.drop_last());
        assert((a + b).drop_last() =~= a + b.drop_last());
        assert((a + b).last() == b.last());
        assert(entries(a + b) =~= entries(a) + entries(b));
    }
    if a.len() == 1 {
        assert(a.drop_last() =~= Seq::empty());
        reveal_with_fuel(entries, 2);
        if let Some(u) = a[0] {
            assert(entries(a) =~= seq![u]);
        }
    }
}

/// Whether an edit gave nothing and changed nothing, or gave a source that the
/// foreground now has, with the entry that undoes it.
pub open spec fn edit_taken(
    pre: MogenStudioApp,
    out: Option<String>,
    post: MogenStudioApp,
    undo: Seq<UndoStep>,
) -> bool {
    match out {
        None => post == pre && undo.len() == 0,
        Some(s) => undo.len() <= 1 && source_taken(
            pre,
            s@,
            post,
            if undo.len() == 1 {
                Some(undo[0])
            } else {
                None
            },
        ),
    }
}

pub proof fn lemma_one_entry(u: Seq<Option<UndoStep>>, k: int)
    requires
        0 <= k < u.len(),
        forall|i: int| 0 <= i < u.len() && i != k ==> (#[trigger] u[i]) is None,
    ensures
        u[k] is None ==> entries(u) == Seq::<UndoStep>::empty(),
        u[k] matches Some(e) ==> entries(u) == seq![e],
    decreases u.len(),
{
    let v = u.drop_last();
    assert forall|i: int| 0 <= i < v.len() && i != k implies (#[trigger] v[i]) is None by {
        assert(v[i] == u[i]);
    }
    if k < v.len() {
        lemma_one_entry(v, k);
        assert(v[k] == u[k]);
        assert(u[u.len() - 1] is None);
    } else {
        lemma_no_entry(v);
    }
}

pub proof fn lemma_no_entry(u: Seq<Option<UndoStep>>)
    requires
        forall|i: int| 0 <= i < u.len() ==> (#[trigger] u[i]) is None,
    ensures
        entries(u) == Seq::<UndoStep>::empty(),
    decreases u.len(),
{
    if u.len() > 0 {
        let v = u.drop_last();
        assert forall|i: int| 0 <= i < v.len() implies (#[trigger] v[i]) is None by {
            assert(v[i] == u[i]);
        }
        lemma_no_entry(v);
        assert(u[u.len() - 1] is None);
    }
}

pub proof fn lemma_named_edit_taken<F: Fn(&String, &String) -> Option<String>>(
    edit: F,
    pre: MogenStudioApp,
    e: SourceEdit,
    name: String,
    now: u64,
    post: MogenStudioApp,
    undo: Option<UndoStep>,
)
    requires
        pre.wf(),
        named_edit(edit, pre, e, Some(name), now, post, undo),
    ensures
        exists|out: Option<String>| #[trigger]
            call_ensures(edit, (&pre.front().source, &name), out) && edit_taken(
                pre,
                out,
                post,
                match undo {
                    Some(x) => seq![x],
                    None => Seq::empty(),
                },
            ),
{
    let out = choose|out: Option<String>| #[trigger]
        call_ensures(edit, (&pre.front().source, &name), out) && edit_outcome(
            pre,
            e,
            out,
            now,
            post,
            undo,
        );
    assert(edit_taken(
        pre,
        out,
        post,
        match undo {
            Some(x) => seq![x],
            None => Seq::empty(),
        },
    ));
}

} // verus!
