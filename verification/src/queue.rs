//! Rules of the run queue: which runs a restart interrupts, which settings
//! reach the kernel, and whether a base model fits a recipe.

use vstd::prelude::*;

use crate::family::{family_label, ModelFamily};
use crate::state::{terminal, RunState};

verus! {

/// States a run can be caught in when the server stops: a restart marks them
/// failed (to be retried).
pub open spec fn interrupted(s: RunState) -> bool {
    s == RunState::Preparing || s == RunState::Running || s == RunState::Paused || s == RunState::Sampling
        || s == RunState::Saving
}

/// Whether a restart marks a run in `s` as failed.
pub fn is_interrupted(s: RunState) -> (r: bool)
    ensures
        r == interrupted(s),
{
    match s {
        RunState::Preparing | RunState::Running | RunState::Paused | RunState::Sampling | RunState::Saving => true,
        _ => false,
    }
}

/// A failing job ends a run unless it has ended already.
pub fn fails_run(s: RunState) -> (r: bool)
    ensures
        r == !terminal(s),
{
    !s.is_terminal()
}

/// A setting as plain text.
pub open spec fn setting_view(p: (String, String)) -> (Seq<char>, Seq<char>) {
    (p.0@, p.1@)
}

/// The kernel variable a setting becomes, if any.
pub open spec fn setting_var(key: Seq<char>) -> Option<Seq<char>> {
    if key == "hf_endpoint"@ {
        Some("HF_ENDPOINT"@)
    } else if key == "pip_index"@ {
        Some("PIP_INDEX_URL"@)
    } else {
        None
    }
}

/// The kernel environment from the stored settings: the Hugging Face mirror
/// and the pip index, in the order stored; other settings stay out.
pub open spec fn settings_env_view(s: Seq<(Seq<char>, Seq<char>)>) -> Seq<(Seq<char>, Seq<char>)>
    decreases s.len(),
{
    if s.len() == 0 {
        Seq::empty()
    } else {
        let rest = settings_env_view(s.drop_last());
        match setting_var(s.last().0) {
            Some(v) => rest.push((v, s.last().1)),
            None => rest,
        }
    }
}

/// The kernel environment from the stored settings.
pub fn settings_env(settings: &[(String, String)]) -> (env: Vec<(String, String)>)
    ensures
        env@.map_values(|p: (String, String)| setting_view(p)) == settings_env_view(
            settings@.map_values(|p: (String, String)| setting_view(p)),
        ),
{
    let ghost sv = settings@.map_values(|p: (String, String)| setting_view(p));
    let mut env: Vec<(String, String)> = Vec::new();
    let mut i: usize = 0;
    while i < settings.len()
        invariant
            i <= settings@.len(),
            sv == settings@.map_values(|p: (String, String)| setting_view(p)),
            env@.map_values(|p: (String, String)| setting_view(p)) == settings_env_view(sv.take(i as int)),
        decreases settings@.len() - i,
    {
        let (k, v) = &settings[i];
        let ghost before = env@;
        proof {
            assert(sv.take(i as int + 1).drop_last() =~= sv.take(i as int));
            assert(sv.take(i as int + 1).last() == setting_view(settings@[i as int]));
        }
        if *k == String::from_str("hf_endpoint") {
            let item = (String::from_str("HF_ENDPOINT"), String::from_str(v.as_str()));
            env.push(item);
            proof {
                assert(env@.map_values(|p: (String, String)| setting_view(p)) =~= before.map_values(
                    |p: (String, String)| setting_view(p),
                ).push(setting_view(item)));
            }
        } else if *k == String::from_str("pip_index") {
            let item = (String::from_str("PIP_INDEX_URL"), String::from_str(v.as_str()));
            env.push(item);
            proof {
                assert(env@.map_values(|p: (String, String)| setting_view(p)) =~= before.map_values(
                    |p: (String, String)| setting_view(p),
                ).push(setting_view(item)));
            }
        }
        i = i + 1;
    }
    proof {
        assert(sv.take(sv.len() as int) =~= sv);
    }
    env
}

/// The hint for a base model of another family than the recipe: loading it
/// would fail in the kernel.
pub open spec fn family_mismatch_text(model_name: Seq<char>, model: ModelFamily, recipe: ModelFamily) -> Seq<
    char,
> {
    "底模「"@ + model_name + "」属于 "@ + family_label(model) + " 族，与丹方 "@ + family_label(recipe)
        + " 族不匹配（会在模型加载阶段失败）。请在丹方页选择正确的底模或模型族"@
}

/// A base model fits a job when the job has no recipe (the demo kernel) or
/// the families agree.
pub fn check_model_family(
    has_recipe: bool,
    model_name: &str,
    model: ModelFamily,
    recipe: ModelFamily,
) -> (r: Result<(), String>)
    ensures
        r is Ok <==> (!has_recipe || model == recipe),
        r matches Err(m) ==> m@ == family_mismatch_text(model_name@, model, recipe),
{
    if has_recipe && model != recipe {
        let mut m = String::from_str("底模「");
        m.append(model_name);
        m.append("」属于 ");
        m.append(model.label());
        m.append(" 族，与丹方 ");
        m.append(recipe.label());
        m.append(" 族不匹配（会在模型加载阶段失败）。请在丹方页选择正确的底模或模型族");
        proof {
            assert(m@ =~= family_mismatch_text(model_name@, model, recipe));
        }
        Err(m)
    } else {
        Ok(())
    }
}

} // verus!
