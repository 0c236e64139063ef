//! The recipe file: `[meta]` and `[data]`, and the family names it stores.
//!
//! Reading and writing the TOML text is done by the application around this
//! library; the library owns the values and the family names.

use vstd::prelude::*;

use crate::family::ModelFamily;
use crate::recipe::schema::RecipeData;

verus! {

/// Recipe metadata.
#[derive(Debug, Clone)]
pub struct RecipeMeta {
    pub name: String,
    pub family: String,
    pub version: String,
    pub tags: Vec<String>,
    pub description: String,
}

/// The metadata of an empty recipe: no name, no family, version `1.0`.
pub open spec fn is_default_meta(m: RecipeMeta) -> bool {
    &&& m.name@ == Seq::<char>::empty()
    &&& m.family@ == Seq::<char>::empty()
    &&& m.version@ == "1.0"@
    &&& m.tags@.len() == 0
    &&& m.description@ == Seq::<char>::empty()
}

impl Default for RecipeMeta {
    fn default() -> (m: Self)
        ensures
            is_default_meta(m),
    {
        RecipeMeta {
            name: String::new(),
            family: String::new(),
            version: String::from_str("1.0"),
            tags: Vec::new(),
            description: String::new(),
        }
    }
}

/// A recipe file.
#[derive(Debug, Clone)]
pub struct RecipeFile {
    pub meta: RecipeMeta,
    pub data: RecipeData,
}

/// Stored name of a family.
pub open spec fn family_name(f: ModelFamily) -> Seq<char> {
    match f {
        ModelFamily::Sdxl1 => "sdxl1"@,
        ModelFamily::DitAnima => "dit_anima"@,
        ModelFamily::DitKrea2 => "dit_krea2"@,
    }
}

/// The family stored under `s`, if any.
pub open spec fn family_named(s: Seq<char>) -> Option<ModelFamily> {
    if s == "sdxl1"@ {
        Some(ModelFamily::Sdxl1)
    } else if s == "dit_anima"@ {
        Some(ModelFamily::DitAnima)
    } else if s == "dit_krea2"@ {
        Some(ModelFamily::DitKrea2)
    } else {
        None
    }
}

/// Errors of the recipe file.
#[derive(Debug, Clone)]
pub enum RecipeFileError {
    /// The TOML text could not be parsed (the parser's message).
    Toml(String),
    /// The recipe could not be written as TOML (the writer's message).
    TomlSer(String),
    /// Reading or writing the file failed (the system's message).
    Io(String),
    /// The stored family name is not one of the known families.
    UnknownFamily(String),
}

/// Metadata of a new recipe file of `family`: the family's stored name, the
/// default version and no tags or description.
pub open spec fn is_new_meta(m: RecipeMeta, family: ModelFamily) -> bool {
    &&& m.family@ == family_name(family)
    &&& m.version@ == "1.0"@
    &&& m.tags@.len() == 0
    &&& m.description@ == Seq::<char>::empty()
}

impl RecipeFile {
    /// A new recipe file named `name`.
    pub fn new(name: &str, family: ModelFamily, data: RecipeData) -> (r: Self)
        ensures
            r.meta.name@ == name@,
            is_new_meta(r.meta, family),
            r.data == data,
    {
        let d = RecipeMeta::default();
        RecipeFile {
            meta: RecipeMeta {
                name: String::from_str(name),
                family: String::from_str(family_to_str(family)),
                version: d.version,
                tags: d.tags,
                description: d.description,
            },
            data,
        }
    }

    /// The family the file names.
    pub fn family(&self) -> (r: Result<ModelFamily, RecipeFileError>)
        ensures
            match r {
                Ok(f) => family_named(self.meta.family@) == Some(f),
                Err(e) => family_named(self.meta.family@) is None
                    && (e matches RecipeFileError::UnknownFamily(t) && t@ == self.meta.family@),
            },
    {
        str_to_family(self.meta.family.as_str())
    }
}

/// Stored name of a family.
pub fn family_to_str(f: ModelFamily) -> (r: &'static str)
    ensures
        r@ == family_name(f),
{
    match f {
        ModelFamily::Sdxl1 => "sdxl1",
        ModelFamily::DitAnima => "dit_anima",
        ModelFamily::DitKrea2 => "dit_krea2",
    }
}

/// The family stored under `s`.
pub fn str_to_family(s: &str) -> (r: Result<ModelFamily, RecipeFileError>)
    ensures
        match r {
            Ok(f) => family_named(s@) == Some(f),
            Err(e) => family_named(s@) is None && (e matches RecipeFileError::UnknownFamily(t) && t@ == s@),
        },
{
    let owned = String::from_str(s);
    if owned == String::from_str("sdxl1") {
        Ok(ModelFamily::Sdxl1)
    } else if owned == String::from_str("dit_anima") {
        Ok(ModelFamily::DitAnima)
    } else if owned == String::from_str("dit_krea2") {
        Ok(ModelFamily::DitKrea2)
    } else {
        Err(RecipeFileError::UnknownFamily(owned))
    }
}

/// Reading back the stored name of a family gives the family.
pub proof fn lemma_family_name_roundtrip(f: ModelFamily)
    ensures
        family_named(family_name(f)) == Some(f),
{
    reveal_strlit("sdxl1");
    reveal_strlit("dit_anima");
    reveal_strlit("dit_krea2");
    assert("sdxl1"@.len() != "dit_anima"@.len());
    assert("sdxl1"@.len() != "dit_krea2"@.len());
    assert("dit_anima"@[4] != "dit_krea2"@[4]);
}

} // verus!
