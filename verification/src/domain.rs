//! Domain entities: projects, base models, datasets, recipes, runs, metric
//! points and checkpoints. New entities get a random id and the current time.

use vstd::prelude::*;

use crate::family::ModelFamily;
use crate::state::RunState;

verus! {

/// A JSON value (the recipe data as the store keeps it).
#[verifier::external_type_specification]
#[verifier::external_body]
pub struct ExJsonValue(serde_json::Value);

/// Lowercase hexadecimal digit.
pub open spec fn is_lower_hex(c: char) -> bool {
    ('0' <= c && c <= '9') || ('a' <= c && c <= 'f')
}

/// A random (version 4) UUID in its hyphenated lowercase text form.
pub open spec fn is_uuid_v4_text(s: Seq<char>) -> bool {
    &&& s.len() == 36
    &&& forall|i: int|
        0 <= i < 36 ==> if i == 8 || i == 13 || i == 18 || i == 23 {
            s[i] == '-'
        } else {
            is_lower_hex(#[trigger] s[i])
        }
    &&& s[14] == '4'
    &&& (s[19] == '8' || s[19] == '9' || s[19] == 'a' || s[19] == 'b')
}

/// An RFC 3339 time stamp in UTC as `to_rfc3339` writes it: date, time, an
/// optional fraction and the `+00:00` offset.
pub open spec fn is_utc_stamp(s: Seq<char>) -> bool {
    &&& s.len() >= 25
    &&& s.subrange(s.len() - 6, s.len() as int) == "+00:00"@
}

/// A new random id: `uuid::Uuid::new_v4()` written as text. Every outcome is
/// the hyphenated lowercase form of a version 4 UUID; which one is chance.
#[verifier::external_body]
pub(crate) fn new_id() -> (id: String)
    ensures
        is_uuid_v4_text(id@),
{
    uuid::Uuid::new_v4().to_string()
}

/// The current time: `chrono::Utc::now().to_rfc3339()`. Every outcome ends
/// with the UTC offset `+00:00`; which instant it names is the clock's.
#[verifier::external_body]
pub(crate) fn now() -> (t: String)
    ensures
        is_utc_stamp(t@),
{
    chrono::Utc::now().to_rfc3339()
}

/// A project.
#[derive(Debug, Clone)]
pub struct Project {
    pub id: String,
    pub name: String,
    pub root_dir: String,
    pub created_at: String,
}

impl Project {
    pub fn new(name: &str, root_dir: &str) -> (p: Self)
        ensures
            is_uuid_v4_text(p.id@),
            p.name@ == name@,
            p.root_dir@ == root_dir@,
            is_utc_stamp(p.created_at@),
    {
        Project {
            id: new_id(),
            name: String::from_str(name),
            root_dir: String::from_str(root_dir),
            created_at: now(),
        }
    }
}

/// A registered base model.
#[derive(Debug, Clone)]
pub struct BaseModel {
    pub id: String,
    pub name: String,
    pub family: ModelFamily,
    pub path: Option<String>,
    pub sha256: Option<String>,
    pub source: Option<String>,
    pub created_at: String,
}

impl BaseModel {
    pub fn new(
        name: &str,
        family: ModelFamily,
        path: Option<String>,
        sha256: Option<String>,
        source: Option<String>,
    ) -> (m: Self)
        ensures
            is_uuid_v4_text(m.id@),
            m.name@ == name@,
            m.family == family,
            m.path == path,
            m.sha256 == sha256,
            m.source == source,
            is_utc_stamp(m.created_at@),
    {
        BaseModel { id: new_id(), name: String::from_str(name), family, path, sha256, source, created_at: now() }
    }
}

/// A dataset directory.
#[derive(Debug, Clone)]
pub struct Dataset {
    pub id: String,
    pub name: String,
    pub dir: String,
    pub image_count: u64,
    pub created_at: String,
}

impl Dataset {
    /// A new dataset; its images are counted by a scan.
    pub fn new(name: &str, dir: &str) -> (d: Self)
        ensures
            is_uuid_v4_text(d.id@),
            d.name@ == name@,
            d.dir@ == dir@,
            d.image_count == 0,
            is_utc_stamp(d.created_at@),
    {
        Dataset {
            id: new_id(),
            name: String::from_str(name),
            dir: String::from_str(dir),
            image_count: 0,
            created_at: now(),
        }
    }
}

/// A stored recipe: its family and its data as JSON.
#[derive(Debug)]
pub struct Recipe {
    pub id: String,
    pub name: String,
    pub family: ModelFamily,
    pub data: serde_json::Value,
    pub created_at: String,
}

impl Recipe {
    pub fn new(name: &str, family: ModelFamily, data: serde_json::Value) -> (r: Self)
        ensures
            is_uuid_v4_text(r.id@),
            r.name@ == name@,
            r.family == family,
            r.data == data,
            is_utc_stamp(r.created_at@),
    {
        Recipe { id: new_id(), name: String::from_str(name), family, data, created_at: now() }
    }
}

/// A training run.
#[derive(Debug, Clone)]
pub struct Run {
    pub id: String,
    pub project_id: Option<String>,
    pub dataset_id: Option<String>,
    pub recipe_id: Option<String>,
    pub base_model_id: Option<String>,
    pub state: RunState,
    pub manifest_path: Option<String>,
    pub created_at: String,
    pub updated_at: String,
}

impl Run {
    /// A new run: created now, in state `Created`, with no manifest.
    pub fn new(
        project_id: Option<String>,
        dataset_id: Option<String>,
        recipe_id: Option<String>,
        base_model_id: Option<String>,
    ) -> (r: Self)
        ensures
            is_uuid_v4_text(r.id@),
            r.project_id == project_id,
            r.dataset_id == dataset_id,
            r.recipe_id == recipe_id,
            r.base_model_id == base_model_id,
            r.state == RunState::Created,
            r.manifest_path is None,
            is_utc_stamp(r.created_at@),
            r.updated_at@ == r.created_at@,
    {
        let t = now();
        Run {
            id: new_id(),
            project_id,
            dataset_id,
            recipe_id,
            base_model_id,
            state: RunState::Created,
            manifest_path: None,
            created_at: t.clone(),
            updated_at: t,
        }
    }
}

/// A checkpoint or sample image of a run (path relative to the output root).
#[derive(Debug, Clone)]
pub struct Checkpoint {
    pub id: String,
    pub run_id: String,
    pub kind: String,
    pub path: String,
    pub created_at: String,
}

impl Checkpoint {
    /// A new checkpoint record of `kind` (`lora` or `sample`).
    pub fn new(run_id: &str, kind: &str, path: &str) -> (c: Self)
        ensures
            is_uuid_v4_text(c.id@),
            c.run_id@ == run_id@,
            c.kind@ == kind@,
            c.path@ == path@,
            is_utc_stamp(c.created_at@),
    {
        Checkpoint {
            id: new_id(),
            run_id: String::from_str(run_id),
            kind: String::from_str(kind),
            path: String::from_str(path),
            created_at: now(),
        }
    }
}


/// The manifest written beside a run: the run's fields and its recipe data.
#[derive(Debug)]
pub struct RunManifest {
    pub run_id: String,
    pub project_id: Option<String>,
    pub dataset_id: Option<String>,
    pub recipe_id: Option<String>,
    pub state: RunState,
    pub created_at: String,
    pub updated_at: String,
    pub params: serde_json::Value,
}

impl RunManifest {
    pub fn from_run(run: &Run, params: serde_json::Value) -> (m: Self)
        ensures
            m.run_id == run.id,
            m.project_id == run.project_id,
            m.dataset_id == run.dataset_id,
            m.recipe_id == run.recipe_id,
            m.state == run.state,
            m.created_at == run.created_at,
            m.updated_at == run.updated_at,
            m.params == params,
    {
        RunManifest {
            run_id: run.id.clone(),
            project_id: run.project_id.clone(),
            dataset_id: run.dataset_id.clone(),
            recipe_id: run.recipe_id.clone(),
            state: run.state,
            created_at: run.created_at.clone(),
            updated_at: run.updated_at.clone(),
            params,
        }
    }
}

} // verus!
