//! The studio as a whole: the open files, what is selected, and the windows
//! around them.

use vstd::hash_map::StringHashMap;
use vstd::prelude::*;

use crate::scene::CompileResult;
use crate::wizard::session::WizardSession;

verus! {

/// A file that is open in a tab.
pub struct OpenFile {
    /// Where the file is kept; an untitled buffer has no path.
    pub path: Option<String>,
    pub source: String,
    pub last_saved_source: String,
    pub dirty: bool,
    pub needs_compile: bool,
    /// When the source was last edited, in milliseconds.
    pub last_edit_at: Option<u64>,
    /// The tab's status line.
    pub status: String,
    /// Whether a model call is out for this tab.
    pub llm_in_flight: bool,
    /// Where the editor's caret is to jump to.
    pub pending_caret: Option<usize>,
    pub last_result: Option<CompileResult>,
}

/// The text provider that the preferences name.
pub struct Provider {
    pub label: String,
    pub supports_images: bool,
    /// The names of the providers that read images, as a list to show.
    pub vision_providers: String,
}

/// The preferences that a wizard run takes over.
pub struct RunSettings {
    pub model: String,
    pub provider: Provider,
    pub thinking: String,
    /// A single-precision number, as its bit pattern.
    pub temperature: u32,
    pub max_repair_iters: u32,
    pub style: String,
}

/// Texts that are being edited in their fields, by the name of what they
/// belong to.
pub struct Drafts {
    texts: StringHashMap<String>,
}

impl View for Drafts {
    type V = Map<Seq<char>, String>;

    closed spec fn view(&self) -> Map<Seq<char>, String> {
        self.texts@
    }
}

impl Drafts {
    pub fn new() -> (r: Self)
        ensures
            r@ == Map::<Seq<char>, String>::empty(),
    {
        Drafts { texts: StringHashMap::new() }
    }

    /// The draft under `key`, or `default` when there is none yet.
    pub fn text(&self, key: &str, default: &str) -> (r: String)
        ensures
            self@.contains_key(key@) ==> r == self@[key@],
            !self@.contains_key(key@) ==> r@ == default@,
    {
        match self.texts.get(key) {
            Some(t) => t.clone(),
            None => default.to_owned(),
        }
    }

    pub fn set(&mut self, key: String, text: String)
        ensures
            final(self)@ == old(self)@.insert(key@, text),
    {
        self.texts.insert(key, text)
    }

    pub fn remove(&mut self, key: &str)
        ensures
            final(self)@ == old(self)@.remove(key@),
    {
        self.texts.remove(key)
    }
}

/// The studio.
pub struct MogenStudioApp {
    pub files: Vec<OpenFile>,
    /// The file in the foreground.
    pub active: usize,
    pub project_root: String,
    /// The selected nodes, the primary one last.
    pub selected: Vec<u32>,
    pub settings: RunSettings,
    pub spend_session_id: String,
    pub show_wizard: bool,
    pub wizard: Option<WizardSession>,
    pub material_name_drafts: Drafts,
    pub clip_name_drafts: Drafts,
    pub clip_duration_drafts: Drafts,
    /// The clip whose deletion waits for a second click.
    pub clip_delete_pending: Option<String>,
    pub add_clip_kind: String,
    pub add_clip_target: String,
}

impl MogenStudioApp {
    /// There is always a file in the foreground.
    pub open spec fn wf(self) -> bool {
        self.active < self.files@.len()
    }

    /// The file in the foreground.
    pub open spec fn front(self) -> OpenFile {
        self.files@[self.active as int]
    }

    /// The node that the panels edit.
    pub open spec fn primary(self) -> Option<u32> {
        if self.selected@.len() > 0 {
            Some(self.selected@.last())
        } else {
            None
        }
    }

    /// The file in the foreground.
    pub fn active(&self) -> (r: &OpenFile)
        requires
            self.wf(),
        ensures
            *r == self.front(),
    {
        &self.files[self.active]
    }

    /// The node that the panels edit.
    pub fn primary_selection(&self) -> (r: Option<u32>)
        ensures
            r == self.primary(),
    {
        let n = self.selected.len();
        if n > 0 {
            Some(self.selected[n - 1])
        } else {
            None
        }
    }
}

} // verus!
