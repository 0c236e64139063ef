//! Decisions of a kernel launch: which kernel runs, which training script,
//! how long an ai-toolkit run is, the sample prompt file and the environment
//! handed to the kernel. Creating directories, writing files and starting the
//! process is left to the caller.

use vstd::prelude::*;

use crate::compat::escape::{trim_text, trimmed};
use crate::compat::kernel::{KernelEnv, KernelMode};
use crate::compat::sdscripts::TrainPaths;
use crate::api::ApiError;
use crate::engine::{EngineError, EngineInfo};
use crate::family::ModelFamily;
use crate::recipe::schema::{RecipeData, SchedulerKind};

verus! {

/// The kernel a job runs on: no recipe means the demo kernel; Krea 2 trains on
/// ai-toolkit; every other family on sd-scripts.
pub open spec fn mode_for(has_recipe: bool, family: ModelFamily) -> KernelMode {
    if !has_recipe {
        KernelMode::Mock
    } else if family == ModelFamily::DitKrea2 {
        KernelMode::Aitk
    } else {
        KernelMode::SdScripts
    }
}

/// The kernel a job runs on.
pub fn kernel_mode_for(has_recipe: bool, family: ModelFamily) -> (m: KernelMode)
    ensures
        m == mode_for(has_recipe, family),
{
    if !has_recipe {
        KernelMode::Mock
    } else if family == ModelFamily::DitKrea2 {
        KernelMode::Aitk
    } else {
        KernelMode::SdScripts
    }
}

/// sd-scripts training script of a family: full fine-tuning or LoRA.
pub open spec fn script_name(family: ModelFamily, full: bool) -> Seq<char> {
    match (family, full) {
        (ModelFamily::Sdxl1, true) => "sdxl_train.py"@,
        (ModelFamily::DitAnima, true) => "anima_train.py"@,
        (ModelFamily::Sdxl1, false) => "sdxl_train_network.py"@,
        (ModelFamily::DitAnima, false) => "anima_train_network.py"@,
        (ModelFamily::DitKrea2, _) => "krea2_train_network.py"@,
    }
}

/// sd-scripts training script of a family.
pub fn train_script(family: ModelFamily, full: bool) -> (r: &'static str)
    ensures
        r@ == script_name(family, full),
{
    match (family, full) {
        (ModelFamily::Sdxl1, true) => "sdxl_train.py",
        (ModelFamily::DitAnima, true) => "anima_train.py",
        (ModelFamily::Sdxl1, false) => "sdxl_train_network.py",
        (ModelFamily::DitAnima, false) => "anima_train_network.py",
        (ModelFamily::DitKrea2, _) => "krea2_train_network.py",
    }
}

/// `max(x, 1)`.
pub open spec fn at_least_one(x: int) -> int {
    if x >= 1 {
        x
    } else {
        1
    }
}

/// Total steps of an ai-toolkit run: every epoch shows every image `repeats`
/// times, `batch_size` images a step; at least one step.
pub open spec fn total_steps(images: u64, epochs: u32, repeats: u64, batch_size: u32) -> int {
    at_least_one((images * epochs * at_least_one(repeats as int)) / at_least_one(batch_size as int))
}

/// Total steps of an ai-toolkit run.
pub fn aitk_total_steps(images: u64, epochs: u32, repeats: u64, batch_size: u32) -> (r: u64)
    requires
        images * epochs * at_least_one(repeats as int) <= u64::MAX,
    ensures
        r == total_steps(images, epochs, repeats, batch_size),
{
    let reps: u64 = if repeats >= 1 {
        repeats
    } else {
        1
    };
    let batch: u64 = if batch_size >= 1 {
        batch_size as u64
    } else {
        1
    };
    assert(images * epochs <= images * epochs * reps) by (nonlinear_arith)
        requires
            reps >= 1,
    ;
    let all = images * (epochs as u64) * reps;
    let s = all / batch;
    if s >= 1 {
        s
    } else {
        1
    }
}

/// The prompt used when a recipe samples but has neither prompts nor a
/// trigger word.
pub open spec fn fallback_prompt() -> Seq<char> {
    "masterpiece, best quality, 1girl"@
}

/// The sample prompts of a recipe: its own; else its trigger word when not
/// blank; else the fallback prompt.
pub open spec fn prompt_lines(r: RecipeData) -> Seq<Seq<char>> {
    if r.sample_prompts@.len() > 0 {
        r.sample_prompts@.map_values(|s: String| s@)
    } else {
        match r.trigger_word {
            Some(t) => if trimmed(t@).len() > 0 {
                seq![t@]
            } else {
                seq![fallback_prompt()]
            },
            None => seq![fallback_prompt()],
        }
    }
}

/// Lines, each ended by a newline.
pub open spec fn lines_text(lines: Seq<Seq<char>>) -> Seq<char>
    decreases lines.len(),
{
    if lines.len() == 0 {
        Seq::empty()
    } else {
        lines_text(lines.drop_last()) + lines.last() + "\n"@
    }
}

/// Content of the sample prompt file: one prompt a line; none when the recipe
/// does not sample.
pub open spec fn prompt_file_text(r: RecipeData) -> Option<Seq<char>> {
    if r.sample_every_n_epochs > 0 {
        Some(lines_text(prompt_lines(r)))
    } else {
        None
    }
}

/// Content of the sample prompt file (sd-scripts wants a file path, not the
/// prompts themselves).
pub fn sample_prompts_content(r: &RecipeData) -> (out: Option<String>)
    ensures
        match (out, prompt_file_text(*r)) {
            (Some(a), Some(b)) => a@ == b,
            (None, None) => true,
            _ => false,
        },
{
    if r.sample_every_n_epochs == 0 {
        return None;
    }
    let mut text = String::new();
    if r.sample_prompts.len() > 0 {
        let ghost lines = r.sample_prompts@.map_values(|s: String| s@);
        let mut i: usize = 0;
        while i < r.sample_prompts.len()
            invariant
                i <= r.sample_prompts@.len(),
                lines == r.sample_prompts@.map_values(|s: String| s@),
                text@ == lines_text(lines.take(i as int)),
            decreases r.sample_prompts@.len() - i,
        {
            text.append(r.sample_prompts[i].as_str());
            text.append("\n");
            proof {
                assert(lines.take(i as int + 1).drop_last() =~= lines.take(i as int));
                assert(text@ =~= lines_text(lines.take(i as int + 1)));
            }
            i = i + 1;
        }
        proof {
            assert(lines.take(lines.len() as int) =~= lines);
        }
    } else {
        let use_trigger = match &r.trigger_word {
            Some(t) => trim_text(t.as_str()).unicode_len() > 0,
            None => false,
        };
        if use_trigger {
            match &r.trigger_word {
                Some(t) => text.append(t.as_str()),
                None => {},
            }
        } else {
            text.append("masterpiece, best quality, 1girl");
        }
        text.append("\n");
        proof {
            let l = prompt_lines(*r);
            assert(l.len() == 1);
            assert(l.drop_last() =~= Seq::<Seq<char>>::empty());
            assert(lines_text(l.drop_last()) =~= Seq::<char>::empty());
            assert(text@ =~= lines_text(l));
        }
    }
    Some(text)
}

/// A key-value pair of the kernel environment, as plain text.
pub open spec fn pair_view(p: (String, String)) -> (Seq<char>, Seq<char>) {
    (p.0@, p.1@)
}

/// The kernel environment: the run, the sample directory and offline mode
/// first, then the job's own settings, then the training script (sd-scripts)
/// or the demo's length and pace (mock).
pub open spec fn launch_env_view(
    run_id: Seq<char>,
    samples_dir: Seq<char>,
    job_env: Seq<(Seq<char>, Seq<char>)>,
    mode: KernelMode,
    family: ModelFamily,
    full: bool,
) -> Seq<(Seq<char>, Seq<char>)> {
    seq![
        ("TIANDI_RUN_ID"@, run_id),
        ("TIANDI_SAMPLE_DIR"@, samples_dir),
        ("HF_HUB_OFFLINE"@, "1"@),
        ("TRANSFORMERS_OFFLINE"@, "1"@),
    ] + job_env + (if mode == KernelMode::SdScripts {
        seq![("TIANDI_TRAIN_SCRIPT"@, script_name(family, full))]
    } else {
        Seq::empty()
    }) + (if mode == KernelMode::Mock {
        seq![("TIANDI_MOCK_TOTAL"@, "60"@), ("TIANDI_MOCK_INTERVAL"@, "0.15"@)]
    } else {
        Seq::empty()
    })
}

fn pair(k: &str, v: &str) -> (p: (String, String))
    ensures
        pair_view(p) == (k@, v@),
{
    (String::from_str(k), String::from_str(v))
}

/// The environment handed to the kernel.
pub fn launch_env(
    run_id: &str,
    samples_dir: &str,
    job_env: &[(String, String)],
    mode: KernelMode,
    family: ModelFamily,
    full: bool,
) -> (env: Vec<(String, String)>)
    ensures
        env@.map_values(|p: (String, String)| pair_view(p)) == launch_env_view(
            run_id@,
            samples_dir@,
            job_env@.map_values(|p: (String, String)| pair_view(p)),
            mode,
            family,
            full,
        ),
{
    let mut env: Vec<(String, String)> = Vec::new();
    env.push(pair("TIANDI_RUN_ID", run_id));
    env.push(pair("TIANDI_SAMPLE_DIR", samples_dir));
    env.push(pair("HF_HUB_OFFLINE", "1"));
    env.push(pair("TRANSFORMERS_OFFLINE", "1"));
    let ghost head = env@.map_values(|p: (String, String)| pair_view(p));
    let ghost jv = job_env@.map_values(|p: (String, String)| pair_view(p));
    let mut i: usize = 0;
    while i < job_env.len()
        invariant
            i <= job_env@.len(),
            head.len() == 4,
            jv == job_env@.map_values(|p: (String, String)| pair_view(p)),
            env@.map_values(|p: (String, String)| pair_view(p)) == head + jv.take(i as int),
        decreases job_env@.len() - i,
    {
        let (k, v) = &job_env[i];
        let ghost before = env@;
        let item = pair(k.as_str(), v.as_str());
        env.push(item);
        proof {
            assert(env@ =~= before.push(item));
            assert(env@.map_values(|p: (String, String)| pair_view(p)) =~= before.map_values(
                |p: (String, String)| pair_view(p),
            ).push(pair_view(item)));
            assert(jv[i as int] == pair_view(job_env@[i as int]));
            assert(jv.take(i as int + 1) =~= jv.take(i as int).push(jv[i as int]));
            assert(env@.map_values(|p: (String, String)| pair_view(p)) =~= head + jv.take(i as int + 1));
        }
        i = i + 1;
    }
    proof {
        assert(jv.take(jv.len() as int) =~= jv);
    }
    let ghost mid = env@;
    if mode == KernelMode::SdScripts {
        let item = pair("TIANDI_TRAIN_SCRIPT", train_script(family, full));
        env.push(item);
        proof {
            assert(env@.map_values(|p: (String, String)| pair_view(p)) =~= mid.map_values(
                |p: (String, String)| pair_view(p),
            ).push(pair_view(item)));
        }
    }
    if mode == KernelMode::Mock {
        let a = pair("TIANDI_MOCK_TOTAL", "60");
        let b = pair("TIANDI_MOCK_INTERVAL", "0.15");
        env.push(a);
        env.push(b);
        proof {
            assert(env@.map_values(|p: (String, String)| pair_view(p)) =~= mid.map_values(
                |p: (String, String)| pair_view(p),
            ).push(pair_view(a)).push(pair_view(b)));
        }
    }
    proof {
        assert(env@.map_values(|p: (String, String)| pair_view(p)) =~= launch_env_view(
            run_id@,
            samples_dir@,
            jv,
            mode,
            family,
            full,
        ));
    }
    env
}

/// A path the recipe may name in place of the detected one; empty means none.
pub fn non_empty(o: &Option<String>) -> (r: Option<String>)
    ensures
        match *o {
            Some(s) => if s@.len() > 0 {
                r matches Some(t) && t@ == s@
            } else {
                r is None
            },
            None => r is None,
        },
{
    match o {
        Some(s) => if s.unicode_len() > 0 {
            Some(String::from_str(s.as_str()))
        } else {
            None
        },
        None => None,
    }
}

/// The output name of a run: the recipe's name, or the run id.
pub fn output_name_or(output_name: &Option<String>, run_id: &str) -> (r: String)
    ensures
        r@ == match *output_name {
            Some(n) => n@,
            None => run_id@,
        },
{
    match output_name {
        Some(n) => String::from_str(n.as_str()),
        None => String::from_str(run_id),
    }
}

/// The hint given when an Anima run has no Qwen3 text encoder.
pub open spec fn anima_te_missing() -> Seq<char> {
    "Anima 底模缺少配套 Qwen3 文本编码器（qwen_3_06b_base.safetensors）：请选择底模同目录文件，或在丹方页手动选择「文本编码器 / CLIP」与「VAE」（Anima 训练必须加载 Qwen3 TE 与 Qwen-Image VAE，与是否微调 TE 无关）"@
}

/// An Anima run needs its Qwen3 text encoder whether or not it trains it.
pub fn check_anima_assets(family: ModelFamily, paths: &TrainPaths) -> (r: Result<(), EngineError>)
    ensures
        r is Ok <==> !(family == ModelFamily::DitAnima && paths.anima_qwen3 is None),
        r matches Err(e) ==> (e matches EngineError::Spawn(m) && m@ == anima_te_missing()),
{
    if family == ModelFamily::DitAnima && paths.anima_qwen3.is_none() {
        Err(
            EngineError::Spawn(
                String::from_str(
                    "Anima 底模缺少配套 Qwen3 文本编码器（qwen_3_06b_base.safetensors）：请选择底模同目录文件，或在丹方页手动选择「文本编码器 / CLIP」与「VAE」（Anima 训练必须加载 Qwen3 TE 与 Qwen-Image VAE，与是否微调 TE 无关）",
                ),
            ),
        )
    } else {
        Ok(())
    }
}

/// What the sd-scripts backend declares of itself.
pub fn sdscripts_engine_info() -> (info: EngineInfo)
    ensures
        info.backend@ == "sd-scripts (kernel_runner)"@,
        info.version@ == "0.1.0"@,
        info.capabilities@.len() == 3,
        info.capabilities@[0]@ == "ipc-jsonlines-v1"@,
        info.capabilities@[1]@ == "mock"@,
        info.capabilities@[2]@ == "sdxl-toml"@,
{
    EngineInfo {
        backend: String::from_str("sd-scripts (kernel_runner)"),
        version: String::from_str("0.1.0"),
        capabilities: vec![
            String::from_str("ipc-jsonlines-v1"),
            String::from_str("mock"),
            String::from_str("sdxl-toml"),
        ],
    }
}


/// The tagging mode of a request: `mock` when absent; only `mock` and `wd14`
/// are known.
pub fn check_tag_mode(mode: &Option<String>) -> (r: Result<String, ApiError>)
    ensures
        match *mode {
            None => r matches Ok(m) && m@ == "mock"@,
            Some(m) => if m@ == "mock"@ || m@ == "wd14"@ {
                r matches Ok(t) && t@ == m@
            } else {
                r matches Err(e) && (e matches ApiError::BadRequest(t) && t@ == "mode 仅支持 mock / wd14"@)
            },
        },
{
    match mode {
        None => Ok(String::from_str("mock")),
        Some(m) => {
            if *m == String::from_str("mock") || *m == String::from_str("wd14") {
                Ok(String::from_str(m.as_str()))
            } else {
                Err(ApiError::BadRequest(String::from_str("mode 仅支持 mock / wd14")))
            }
        },
    }
}

/// The hint when WD14 tagging has no sd-scripts checkout.
pub open spec fn wd14_missing() -> Seq<char> {
    "WD14 打标需要训练内核（kernel.json 中 sd-scripts 未找到）。请先运行 `tiandi kernel install`"@
}

/// The environment of a tagging run: its id, the dataset and the mode; WD14
/// also needs the tagger script of the sd-scripts checkout.
pub fn tagging_env(
    dataset_id: &str,
    dataset_dir: &str,
    mode: &str,
    wd14_script: &Option<String>,
) -> (r: Result<Vec<(String, String)>, ApiError>)
    ensures
        (mode@ == "wd14"@ && wd14_script is None) <==> r is Err,
        r matches Err(e) ==> (e matches ApiError::BadRequest(t) && t@ == wd14_missing()),
        r matches Ok(env) ==> env@.map_values(|p: (String, String)| pair_view(p)) == seq![
            ("TIANDI_RUN_ID"@, "tag-"@ + dataset_id@),
            ("TIANDI_TAGGER_DIR"@, dataset_dir@),
            ("TIANDI_TAGGER_MODE"@, mode@),
        ] + match *wd14_script {
            Some(w) => if mode@ == "wd14"@ {
                seq![("TIANDI_WD14_SCRIPT"@, w@)]
            } else {
                Seq::empty()
            },
            None => Seq::empty(),
        },
{
    let mut run = String::from_str("tag-");
    run.append(dataset_id);
    let mut env: Vec<(String, String)> = Vec::new();
    env.push((String::from_str("TIANDI_RUN_ID"), run));
    env.push(pair("TIANDI_TAGGER_DIR", dataset_dir));
    env.push(pair("TIANDI_TAGGER_MODE", mode));
    let ghost head = env@;
    if String::from_str(mode) == String::from_str("wd14") {
        match wd14_script {
            Some(w) => {
                let item = pair("TIANDI_WD14_SCRIPT", w.as_str());
                env.push(item);
                proof {
                    assert(env@.map_values(|p: (String, String)| pair_view(p)) =~= head.map_values(
                        |p: (String, String)| pair_view(p),
                    ).push(pair_view(item)));
                }
            },
            None => {
                return Err(
                    ApiError::BadRequest(
                        String::from_str(
                            "WD14 打标需要训练内核（kernel.json 中 sd-scripts 未找到）。请先运行 `tiandi kernel install`",
                        ),
                    ),
                );
            },
        }
    }
    proof {
        assert(env@.map_values(|p: (String, String)| pair_view(p)) =~= seq![
            ("TIANDI_RUN_ID"@, "tag-"@ + dataset_id@),
            ("TIANDI_TAGGER_DIR"@, dataset_dir@),
            ("TIANDI_TAGGER_MODE"@, mode@),
        ] + match *wd14_script {
            Some(w) => if mode@ == "wd14"@ {
                seq![("TIANDI_WD14_SCRIPT"@, w@)]
            } else {
                Seq::empty()
            },
            None => Seq::empty(),
        });
    }
    Ok(env)
}

/// What a launch needs before anything is written: the Python to run, the
/// configuration file's name, and the directory the kernel starts in.
#[derive(Debug, Clone)]
pub struct LaunchPlan {
    pub python: String,
    pub config_file: String,
    pub cwd: String,
}

/// The hint when the ai-toolkit kernel is not installed.
pub open spec fn aitk_missing() -> Seq<char> {
    "ai-toolkit 内核未安装（tiandi kernel install --backend aitk）"@
}

/// The refusal of a full fine-tune on ai-toolkit.
pub open spec fn aitk_full_refused() -> Seq<char> {
    "Krea 2 全量训练暂不支持（ai-toolkit 后端仅 LoRA）"@
}

/// The hint when the Krea 2 assets are not prepared.
pub open spec fn krea2_missing() -> Seq<char> {
    "Krea 2 资产未就绪（tiandi kernel prepare-krea2 <底模目录>）"@
}

/// The plan of a launch in `mode` (`full`: a full fine-tune) with run folder
/// `run_dir`, or why it cannot start:
/// - ai-toolkit runs its own Python from its own checkout; it is not ready
///   without its kernel or without the Krea 2 assets, and refuses a full
///   fine-tune; its configuration is `train_config.yaml`;
/// - every other mode runs the detected Python (not ready without one, with
///   the environment's hint) in the sd-scripts checkout, or in the run folder
///   without one; its configuration is `train_config.toml`.
pub open spec fn launch_plan(
    env: KernelEnv,
    mode: KernelMode,
    full: bool,
    run_dir: Seq<char>,
    r: Result<LaunchPlan, EngineError>,
) -> bool {
    if mode == KernelMode::Aitk {
        match env.aitk {
            None => r matches Err(EngineError::NotReady(m)) && m@ == aitk_missing(),
            Some(a) => if full {
                r matches Err(EngineError::Spawn(m)) && m@ == aitk_full_refused()
            } else if a.krea2 is None {
                r matches Err(EngineError::NotReady(m)) && m@ == krea2_missing()
            } else {
                &&& r matches Ok(p)
                &&& p.python@ == a.python@
                &&& p.config_file@ == "train_config.yaml"@
                &&& p.cwd@ == a.repo@
            },
        }
    } else {
        match env.python {
            None => r matches Err(EngineError::NotReady(m)) && m@ == match env.message {
                Some(t) => t@,
                None => Seq::empty(),
            },
            Some(py) => {
                &&& r matches Ok(p)
                &&& p.python@ == py@
                &&& p.config_file@ == "train_config.toml"@
                &&& p.cwd@ == match env.sd_scripts {
                    Some(d) => d@,
                    None => run_dir,
                }
            },
        }
    }
}

/// The plan of a launch (see [`launch_plan`]).
pub fn plan_launch(env: &KernelEnv, mode: KernelMode, full: bool, run_dir: &str) -> (r: Result<LaunchPlan, EngineError>)
    ensures
        launch_plan(*env, mode, full, run_dir@, r),
{
    if mode == KernelMode::Aitk {
        match &env.aitk {
            None => Err(EngineError::NotReady(String::from_str("ai-toolkit 内核未安装（tiandi kernel install --backend aitk）"))),
            Some(a) => {
                if full {
                    Err(EngineError::Spawn(String::from_str("Krea 2 全量训练暂不支持（ai-toolkit 后端仅 LoRA）")))
                } else if a.krea2.is_none() {
                    Err(EngineError::NotReady(String::from_str("Krea 2 资产未就绪（tiandi kernel prepare-krea2 <底模目录>）")))
                } else {
                    Ok(
                        LaunchPlan {
                            python: String::from_str(a.python.as_str()),
                            config_file: String::from_str("train_config.yaml"),
                            cwd: String::from_str(a.repo.as_str()),
                        },
                    )
                }
            },
        }
    } else {
        match &env.python {
            None => {
                let hint = match &env.message {
                    Some(t) => String::from_str(t.as_str()),
                    None => String::new(),
                };
                Err(EngineError::NotReady(hint))
            },
            Some(py) => {
                let cwd = match &env.sd_scripts {
                    Some(d) => String::from_str(d.as_str()),
                    None => String::from_str(run_dir),
                };
                Ok(LaunchPlan { python: String::from_str(py.as_str()), config_file: String::from_str("train_config.toml"), cwd })
            },
        }
    }
}

/// Warm-up steps apply to every scheduler but the constant one.
pub fn warmup_applies(s: SchedulerKind) -> (r: bool)
    ensures
        r <==> s != SchedulerKind::Constant,
{
    s != SchedulerKind::Constant
}

/// The first path found, in order.
pub open spec fn first_found(a: Option<String>, b: Option<String>) -> Option<Seq<char>> {
    match a {
        Some(x) => Some(x@),
        None => match b {
            Some(y) => Some(y@),
            None => None,
        },
    }
}

fn first_of(a: &Option<String>, b: &Option<String>) -> (r: Option<String>)
    ensures
        match r {
            Some(x) => first_found(*a, *b) == Some(x@),
            None => first_found(*a, *b) is None,
        },
{
    match a {
        Some(x) => Some(String::from_str(x.as_str())),
        None => match b {
            Some(y) => Some(String::from_str(y.as_str())),
            None => None,
        },
    }
}

/// The Anima text-side assets, each the first found in order: the Qwen3
/// encoder named by the recipe, else the one beside the base model; the VAE
/// likewise; the T5 tokenizer from the kernel's checkout, else `t5_old`
/// beside the base model, else a tokenizer folder found there.
pub fn anima_assets(
    te_override: &Option<String>,
    qwen3_found: &Option<String>,
    vae_override: &Option<String>,
    vae_found: &Option<String>,
    t5_kernel: &Option<String>,
    t5_beside: &Option<String>,
    t5_search: &Option<String>,
) -> (r: (Option<String>, Option<String>, Option<String>))
    ensures
        match r.0 {
            Some(x) => first_found(*te_override, *qwen3_found) == Some(x@),
            None => first_found(*te_override, *qwen3_found) is None,
        },
        match r.1 {
            Some(x) => first_found(*vae_override, *vae_found) == Some(x@),
            None => first_found(*vae_override, *vae_found) is None,
        },
        match r.2 {
            Some(x) => (match *t5_kernel {
                Some(k) => x@ == k@,
                None => first_found(*t5_beside, *t5_search) == Some(x@),
            }),
            None => t5_kernel is None && first_found(*t5_beside, *t5_search) is None,
        },
{
    let te = first_of(te_override, qwen3_found);
    let vae = first_of(vae_override, vae_found);
    let t5 = match t5_kernel {
        Some(k) => Some(String::from_str(k.as_str())),
        None => first_of(t5_beside, t5_search),
    };
    (te, vae, t5)
}

} // verus!
