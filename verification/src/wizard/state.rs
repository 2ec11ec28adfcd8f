//! What a wizard run has produced so far.

use vstd::hash_map::StringHashMap;
use vstd::prelude::*;

use crate::paths::{is_join, path_join};
use crate::text::{clone_opt, str_eq};

verus! {

/// The steps of a run, in the order in which they are taken.
#[derive(Clone, Copy, Debug, PartialEq, Eq, Structural)]
pub enum Stage {
    Location,
    Prompt,
    Brief,
    Manifest,
    References,
    Objects,
    Assemble,
    ReviewObjects,
    ReviewScene,
    Done,
}

impl Stage {
    /// The place of the stage in the run, from zero.
    pub open spec fn place(self) -> nat {
        match self {
            Stage::Location => 0,
            Stage::Prompt => 1,
            Stage::Brief => 2,
            Stage::Manifest => 3,
            Stage::References => 4,
            Stage::Objects => 5,
            Stage::Assemble => 6,
            Stage::ReviewObjects => 7,
            Stage::ReviewScene => 8,
            Stage::Done => 9,
        }
    }

    /// The place of the stage in the run, from zero.
    pub fn order(self) -> (r: usize)
        ensures
            r == self.place(),
    {
        match self {
            Stage::Location => 0,
            Stage::Prompt => 1,
            Stage::Brief => 2,
            Stage::Manifest => 3,
            Stage::References => 4,
            Stage::Objects => 5,
            Stage::Assemble => 6,
            Stage::ReviewObjects => 7,
            Stage::ReviewScene => 8,
            Stage::Done => 9,
        }
    }
}

/// Three single-precision numbers, each as its bit pattern. The wizard only
/// hands them on.
#[derive(Clone, Copy, Debug, PartialEq, Eq, Structural)]
pub struct Triple {
    pub x: u32,
    pub y: u32,
    pub z: u32,
}

/// One planned object of the scene.
#[derive(Debug)]
pub struct ObjectEntry {
    pub id: String,
    pub name: String,
    pub role: String,
    pub prompt: String,
    pub size: Triple,
    pub position: Triple,
    /// A single-precision number, as its bit pattern.
    pub rotation_y_deg: u32,
    pub reference_image: Option<String>,
    pub mog_path: Option<String>,
    pub thumb_path: Option<String>,
    pub position_guide: Option<String>,
}

impl Clone for ObjectEntry {
    fn clone(&self) -> (r: Self)
        ensures
            r == *self,
    {
        ObjectEntry {
            id: self.id.clone(),
            name: self.name.clone(),
            role: self.role.clone(),
            prompt: self.prompt.clone(),
            size: self.size,
            position: self.position,
            rotation_y_deg: self.rotation_y_deg,
            reference_image: clone_opt(&self.reference_image),
            mog_path: clone_opt(&self.mog_path),
            thumb_path: clone_opt(&self.thumb_path),
            position_guide: clone_opt(&self.position_guide),
        }
    }
}

/// The verdict on one object.
#[derive(Debug)]
pub struct ObjectReview {
    pub pass: bool,
    pub notes: String,
}

/// A proposed move of one object.
#[derive(Debug)]
pub struct Correction {
    pub object_id: String,
    pub new_position: Option<Triple>,
    /// A single-precision number, as its bit pattern.
    pub new_rotation_y_deg: Option<u32>,
    pub rationale: String,
}

/// The verdict on the assembled scene.
#[derive(Debug)]
pub struct SceneReview {
    pub notes: String,
    pub corrections: Vec<Correction>,
}

/// What a finished module worker hands back.
#[derive(Debug)]
pub struct ObjectGenResult {
    pub mog_path: String,
    pub guide: String,
}

/// The verdicts on single objects, by object id.
pub struct ReviewMap {
    reviews: StringHashMap<ObjectReview>,
}

impl View for ReviewMap {
    type V = Map<Seq<char>, ObjectReview>;

    closed spec fn view(&self) -> Map<Seq<char>, ObjectReview> {
        self.reviews@
    }
}

impl ReviewMap {
    pub fn new() -> (r: Self)
        ensures
            r@ == Map::<Seq<char>, ObjectReview>::empty(),
    {
        ReviewMap { reviews: StringHashMap::new() }
    }

    pub fn get(&self, id: &str) -> (r: Option<&ObjectReview>)
        ensures
            match r {
                Some(v) => self@.contains_key(id@) && *v == self@[id@],
                None => !self@.contains_key(id@),
            },
    {
        self.reviews.get(id)
    }

    pub fn insert(&mut self, id: String, review: ObjectReview)
        ensures
            final(self)@ == old(self)@.insert(id@, review),
    {
        self.reviews.insert(id, review)
    }

    pub fn remove(&mut self, id: &str)
        ensures
            final(self)@ == old(self)@.remove(id@),
    {
        self.reviews.remove(id)
    }
}

/// A wizard run, as it is kept on disk.
pub struct WizardState {
    pub project_dir: String,
    pub prompt: String,
    pub seed: u64,
    pub stage: Stage,
    pub source_image: Option<String>,
    pub brief: Option<String>,
    pub manifest: Vec<ObjectEntry>,
    pub per_object_reviews: ReviewMap,
    pub scene_review: Option<SceneReview>,
    pub scene_thumb: Option<String>,
    pub assembly_path: Option<String>,
    pub built_glb: Option<String>,
}

/// Whether a run holds nothing but its folder, its seed and its stage.
pub open spec fn is_fresh(s: WizardState, project_dir: Seq<char>, seed: u64, stage: Stage) -> bool {
    &&& s.project_dir@ == project_dir
    &&& s.prompt@ == Seq::<char>::empty()
    &&& s.seed == seed
    &&& s.stage == stage
    &&& s.source_image is None
    &&& s.brief is None
    &&& s.manifest@ == Seq::<ObjectEntry>::empty()
    &&& s.per_object_reviews@ == Map::<Seq<char>, ObjectReview>::empty()
    &&& s.scene_review is None
    &&& s.scene_thumb is None
    &&& s.assembly_path is None
    &&& s.built_glb is None
}

impl Default for WizardState {
    fn default() -> (r: Self)
        ensures
            is_fresh(r, Seq::<char>::empty(), 0, Stage::Prompt),
    {
        WizardState {
            project_dir: String::new(),
            prompt: String::new(),
            seed: 0,
            stage: Stage::Prompt,
            source_image: None,
            brief: None,
            manifest: Vec::new(),
            per_object_reviews: ReviewMap::new(),
            scene_review: None,
            scene_thumb: None,
            assembly_path: None,
            built_glb: None,
        }
    }
}

/// The place of the first object called `id`, if any.
pub open spec fn object_at(m: Seq<ObjectEntry>, id: Seq<char>) -> Option<int>
    decreases m.len(),
{
    if m.len() == 0 {
        None
    } else if m[0].id@ == id {
        Some(0)
    } else {
        match object_at(m.drop_first(), id) {
            Some(i) => Some(i + 1),
            None => None,
        }
    }
}

pub proof fn lemma_object_at(m: Seq<ObjectEntry>, id: Seq<char>, k: int)
    requires
        0 <= k <= m.len(),
        forall|j: int| 0 <= j < k ==> (#[trigger] m[j]).id@ != id,
    ensures
        k == m.len() ==> object_at(m, id) is None,
        k < m.len() && m[k].id@ == id ==> object_at(m, id) == Some(k),
    decreases m.len(),
{
    if m.len() > 0 && m[0].id@ != id && k > 0 {
        let t = m.drop_first();
        assert forall|j: int| 0 <= j < k - 1 implies (#[trigger] t[j]).id@ != id by {
            assert(t[j] == m[j + 1]);
        }
        lemma_object_at(t, id, k - 1);
    } else if k > 0 {
        assert(m[0].id@ != id);
    }
}

/// What `object_at` finds: an object called `id` with none before it, and
/// nothing only where there is none.
pub proof fn lemma_object_found(m: Seq<ObjectEntry>, id: Seq<char>)
    ensures
        match object_at(m, id) {
            Some(i) => 0 <= i < m.len() && m[i].id@ == id && forall|j: int|
                0 <= j < i ==> (#[trigger] m[j]).id@ != id,
            None => forall|j: int| 0 <= j < m.len() ==> (#[trigger] m[j]).id@ != id,
        },
    decreases m.len(),
{
    if m.len() > 0 && m[0].id@ != id {
        let t = m.drop_first();
        lemma_object_found(t, id);
        let n = match object_at(t, id) {
            Some(i) => i,
            None => t.len() as int,
        };
        assert forall|j: int| 0 <= j < n + 1 implies (#[trigger] m[j]).id@ != id by {
            if j > 0 {
                assert(t[j - 1] == m[j]);
            }
        }
    }
}

impl WizardState {
    /// The place of the first object called `id`.
    pub fn object_index(&self, id: &str) -> (r: Option<usize>)
        ensures
            match r {
                Some(i) => i < self.manifest@.len() && object_at(self.manifest@, id@) == Some(
                    i as int,
                ),
                None => object_at(self.manifest@, id@) is None,
            },
    {
        let mut i: usize = 0;
        while i < self.manifest.len()
            invariant
                i <= self.manifest@.len(),
                forall|j: int| 0 <= j < i ==> (#[trigger] self.manifest@[j]).id@ != id@,
            decreases self.manifest.len() - i,
        {
            if str_eq(self.manifest[i].id.as_str(), id) {
                proof {
                    lemma_object_at(self.manifest@, id@, i as int);
                }
                return Some(i);
            }
            i = i + 1;
        }
        proof {
            lemma_object_at(self.manifest@, id@, i as int);
        }
        None
    }

    /// The first object called `id`.
    pub fn find_object(&self, id: &str) -> (r: Option<&ObjectEntry>)
        ensures
            match r {
                Some(o) => object_at(self.manifest@, id@) matches Some(i) && *o
                    == self.manifest@[i],
                None => object_at(self.manifest@, id@) is None,
            },
    {
        match self.object_index(id) {
            Some(i) => Some(&self.manifest[i]),
            None => None,
        }
    }

    /// Where reference images are kept.
    pub fn references_dir(&self) -> (r: String)
        ensures
            is_join(self.project_dir@, "references"@, r@),
    {
        path_join(self.project_dir.as_str(), "references")
    }

    /// Where object modules are kept.
    pub fn objects_dir(&self) -> (r: String)
        ensures
            is_join(self.project_dir@, "objects"@, r@),
    {
        path_join(self.project_dir.as_str(), "objects")
    }
}

/// An object is found by its id, the first of that id, and none is found where
/// there is none.
pub proof fn law_objects_are_found_by_their_id(
    state: &WizardState,
    id: &str,
    at: Option<usize>,
    found: Option<&ObjectEntry>,
    k: int,
)
    requires
        call_ensures(WizardState::object_index, (state, id), at),
        call_ensures(WizardState::find_object, (state, id), found),
        0 <= k < state.manifest@.len(),
    ensures
        state.manifest@[k].id@ == id@ ==> (at matches Some(i) && i <= k),
        at matches Some(i) ==> i < state.manifest@.len() && state.manifest@[i as int].id@ == id@,
        at matches Some(i) ==> (found matches Some(o) && *o == state.manifest@[i as int]),
        at is None ==> found is None && state.manifest@[k].id@ != id@,
{
    lemma_object_found(state.manifest@, id@);
}

/// The stages follow each other from the folder to the end.
pub proof fn law_stages_follow_each_other(s: Stage, r: usize)
    requires
        call_ensures(Stage::order, (s,), r),
    ensures
        s is Location <==> r == 0,
        s is Prompt <==> r == 1,
        s is Brief <==> r == 2,
        s is Manifest <==> r == 3,
        s is References <==> r == 4,
        s is Objects <==> r == 5,
        s is Assemble <==> r == 6,
        s is ReviewObjects <==> r == 7,
        s is ReviewScene <==> r == 8,
        s is Done <==> r == 9,
{
}

} // verus!
