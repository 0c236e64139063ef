//! Model families: which checks a recipe gets and which kernel backend trains it.

use vstd::prelude::*;

verus! {

/// A model family decides recipe validation, kernel routing and sampling defaults.
#[derive(Debug, Clone, Copy, PartialEq, Eq, Hash, Structural)]
pub enum ModelFamily {
    /// SDXL 1.0 baseline (Illusion / NoobAI).
    Sdxl1,
    /// DiT family: Anima.
    DitAnima,
    /// DiT family: Krea 2.
    DitKrea2,
}

/// Display label of a family.
pub open spec fn family_label(f: ModelFamily) -> Seq<char> {
    match f {
        ModelFamily::Sdxl1 => "SDXL 1.0"@,
        ModelFamily::DitAnima => "Anima (DiT)"@,
        ModelFamily::DitKrea2 => "Krea 2 (DiT)"@,
    }
}

/// Kernel backend that trains a family.
pub open spec fn family_backend(f: ModelFamily) -> Seq<char> {
    match f {
        ModelFamily::Sdxl1 | ModelFamily::DitAnima => "sd-scripts"@,
        ModelFamily::DitKrea2 => "ai-toolkit"@,
    }
}

impl ModelFamily {
    pub fn label(&self) -> (r: &'static str)
        ensures
            r@ == family_label(*self),
    {
        match self {
            ModelFamily::Sdxl1 => "SDXL 1.0",
            ModelFamily::DitAnima => "Anima (DiT)",
            ModelFamily::DitKrea2 => "Krea 2 (DiT)",
        }
    }

    /// SDXL and Anima are trained by sd-scripts, Krea 2 by ai-toolkit.
    pub fn backend(&self) -> (r: &'static str)
        ensures
            r@ == family_backend(*self),
    {
        match self {
            ModelFamily::Sdxl1 | ModelFamily::DitAnima => "sd-scripts",
            ModelFamily::DitKrea2 => "ai-toolkit",
        }
    }
}

} // verus!
