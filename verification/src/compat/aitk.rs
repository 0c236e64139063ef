//! The ai-toolkit training YAML (Krea 2 family): an `extension` job with one
//! `sd_trainer` process.

use vstd::prelude::*;

use crate::compat::escape::{group_text_pieces, has_piece, slashed};
use crate::compat::escape::forward_slashes;
use crate::recipe::schema::RecipeData;
use crate::text::{bool_text, decimal, push_bool, push_decimal};

verus! {

/// Paths and length of an ai-toolkit run.
#[derive(Debug, Clone)]
pub struct AitkPaths {
    /// Krea 2 MMDiT weights.
    pub base_model: String,
    /// Dataset directory.
    pub dataset_dir: String,
    /// Training folder; ai-toolkit makes `<name>/` below it for its outputs.
    pub training_folder: String,
    /// Job and artefact name.
    pub output_name: String,
    /// Qwen3-VL-4B transformers directory.
    pub text_encoder: String,
    /// Parent directory of the Qwen-Image `vae/` directory.
    pub vae_root: String,
    /// Total training steps.
    pub steps: u64,
}

/// A YAML line: its indented key part, then the value.
pub open spec fn yl(prefix: Seq<char>, value: Seq<char>) -> Seq<char> {
    prefix + value + "\n"@
}

/// A YAML line with a double-quoted value (written as it is, not escaped).
pub open spec fn yq(prefix: Seq<char>, value: Seq<char>) -> Seq<char> {
    prefix + "\""@ + value + "\"\n"@
}

/// Steps of the run, at least one.
pub open spec fn run_steps(p: AitkPaths) -> nat {
    if p.steps >= 1 {
        p.steps as nat
    } else {
        1
    }
}

/// Job head, network and saving.
pub open spec fn aitk_head(r: RecipeData, p: AitkPaths) -> Seq<char> {
    "job: extension\n"@ + "config:\n"@ + yq("  name: "@, p.output_name@) + "  process:\n"@
        + "    - type: 'sd_trainer'\n"@ + yq("      training_folder: "@, slashed(p.training_folder@))
        + "      device: cuda:0\n"@ + (match r.trigger_word {
        Some(tw) => yq("      trigger_word: "@, tw@),
        None => Seq::empty(),
    }) + "      network:\n"@ + "        type: 'lora'\n"@ + yl(
        "        linear: "@,
        decimal(r.network_dim as nat),
    ) + yl("        linear_alpha: "@, decimal(r.network_alpha as nat)) + "      save:\n"@
        + "        dtype: bf16\n"@ + yl("        save_every: "@, decimal(run_steps(p)))
        + "        max_step_saves_to_keep: 2\n"@
}

/// Caption dropout rate of the dataset, `0` when the recipe has none.
pub open spec fn dropout_text(r: RecipeData) -> Seq<char> {
    match r.caption_dropout_rate {
        Some(x) => x.text@,
        None => "0"@,
    }
}

/// Dataset settings.
pub open spec fn aitk_dataset(r: RecipeData, p: AitkPaths) -> Seq<char> {
    "      datasets:\n"@ + yq("        - folder_path: "@, slashed(p.dataset_dir@))
        + "          caption_ext: \"txt\"\n"@ + yl("          caption_dropout_rate: "@, dropout_text(r))
        + yl("          shuffle_tokens: "@, bool_text(r.shuffle_caption))
        + "          cache_latents_to_disk: true\n"@ + ("          resolution: ["@ + decimal(
        r.resolution as nat,
    ) + "]\n"@)
}

/// Training settings: flow matching, 8-bit AdamW, EMA, text encoder unloaded.
pub open spec fn aitk_train(r: RecipeData, p: AitkPaths) -> Seq<char> {
    "      train:\n"@ + yl("        batch_size: "@, decimal(r.batch_size as nat)) + yl(
        "        steps: "@,
        decimal(run_steps(p)),
    ) + yl("        gradient_accumulation: "@, decimal(r.gradient_accumulation_steps as nat))
        + "        train_unet: true\n"@ + "        train_text_encoder: false\n"@ + yl(
        "        gradient_checkpointing: "@,
        bool_text(r.gradient_checkpointing),
    ) + "        noise_scheduler: 'flowmatch'\n"@ + "        timestep_type: 'linear'\n"@
        + "        optimizer: 'adamw8bit'\n"@ + yl("        lr: "@, r.learning_rate.text@) + yl(
        "        max_grad_norm: "@,
        r.max_grad_norm.text@,
    ) + "        dtype: bf16\n"@ + "        ema_config:\n"@ + "          use_ema: true\n"@
        + "          ema_decay: 0.99\n"@ + "        unload_text_encoder: true\n"@
}

/// Model (quantised, low VRAM) and sampling (off).
pub open spec fn aitk_model(p: AitkPaths) -> Seq<char> {
    "      model:\n"@ + yq("        name_or_path: "@, slashed(p.base_model@)) + "        arch: 'krea2'\n"@
        + "        quantize: true\n"@ + "        quantize_te: true\n"@ + "        low_vram: true\n"@
        + "        model_kwargs:\n"@ + yq("          text_encoder_path: "@, slashed(p.text_encoder@))
        + yq("          vae_path: "@, slashed(p.vae_root@)) + "          max_text_length: 512\n"@
        + "      sample:\n"@ + "        disable_sampling: true\n"@
}

/// The ai-toolkit training YAML.
pub open spec fn aitk_yaml(r: RecipeData, p: AitkPaths) -> Seq<char> {
    aitk_head(r, p) + aitk_dataset(r, p) + aitk_train(r, p) + aitk_model(p)
}

fn push_yl(s: &mut String, prefix: &str, value: &str)
    ensures
        final(s)@ == old(s)@ + yl(prefix@, value@),
{
    s.append(prefix);
    s.append(value);
    s.append("\n");
    proof {
        assert(s@ =~= old(s)@ + yl(prefix@, value@));
    }
}

fn push_yq(s: &mut String, prefix: &str, value: &str)
    ensures
        final(s)@ == old(s)@ + yq(prefix@, value@),
{
    s.append(prefix);
    s.append("\"");
    s.append(value);
    s.append("\"\n");
    proof {
        assert(s@ =~= old(s)@ + yq(prefix@, value@));
    }
}

fn push_yn(s: &mut String, prefix: &str, n: u64)
    ensures
        final(s)@ == old(s)@ + yl(prefix@, decimal(n as nat)),
{
    s.append(prefix);
    push_decimal(s, n);
    s.append("\n");
    proof {
        assert(s@ =~= old(s)@ + yl(prefix@, decimal(n as nat)));
    }
}

fn push_yb(s: &mut String, prefix: &str, b: bool)
    ensures
        final(s)@ == old(s)@ + yl(prefix@, bool_text(b)),
{
    s.append(prefix);
    push_bool(s, b);
    s.append("\n");
    proof {
        assert(s@ =~= old(s)@ + yl(prefix@, bool_text(b)));
    }
}

fn push_yq_path(s: &mut String, prefix: &str, path: &str)
    ensures
        final(s)@ == old(s)@ + yq(prefix@, slashed(path@)),
{
    let f = forward_slashes(path);
    push_yq(s, prefix, f.as_str());
}

fn push_aitk_head(s: &mut String, r: &RecipeData, p: &AitkPaths)
    ensures
        final(s)@ == old(s)@ + aitk_head(*r, *p),
{
    s.append("job: extension\n");
    s.append("config:\n");
    push_yq(s, "  name: ", p.output_name.as_str());
    s.append("  process:\n");
    s.append("    - type: 'sd_trainer'\n");
    push_yq_path(s, "      training_folder: ", p.training_folder.as_str());
    s.append("      device: cuda:0\n");
    match &r.trigger_word {
        Some(tw) => push_yq(s, "      trigger_word: ", tw.as_str()),
        None => {},
    }
    s.append("      network:\n");
    s.append("        type: 'lora'\n");
    push_yn(s, "        linear: ", r.network_dim as u64);
    push_yn(s, "        linear_alpha: ", r.network_alpha as u64);
    s.append("      save:\n");
    s.append("        dtype: bf16\n");
    let steps = if p.steps >= 1 {
        p.steps
    } else {
        1
    };
    push_yn(s, "        save_every: ", steps);
    s.append("        max_step_saves_to_keep: 2\n");
    proof {
        assert(s@ =~= old(s)@ + aitk_head(*r, *p));
    }
}

fn push_aitk_dataset(s: &mut String, r: &RecipeData, p: &AitkPaths)
    ensures
        final(s)@ == old(s)@ + aitk_dataset(*r, *p),
{
    s.append("      datasets:\n");
    push_yq_path(s, "        - folder_path: ", p.dataset_dir.as_str());
    s.append("          caption_ext: \"txt\"\n");
    match &r.caption_dropout_rate {
        Some(x) => push_yl(s, "          caption_dropout_rate: ", x.text.as_str()),
        None => push_yl(s, "          caption_dropout_rate: ", "0"),
    }
    push_yb(s, "          shuffle_tokens: ", r.shuffle_caption);
    s.append("          cache_latents_to_disk: true\n");
    s.append("          resolution: [");
    push_decimal(s, r.resolution as u64);
    s.append("]\n");
    proof {
        assert(s@ =~= old(s)@ + aitk_dataset(*r, *p));
    }
}

fn push_aitk_train(s: &mut String, r: &RecipeData, p: &AitkPaths)
    ensures
        final(s)@ == old(s)@ + aitk_train(*r, *p),
{
    s.append("      train:\n");
    push_yn(s, "        batch_size: ", r.batch_size as u64);
    let steps = if p.steps >= 1 {
        p.steps
    } else {
        1
    };
    push_yn(s, "        steps: ", steps);
    push_yn(s, "        gradient_accumulation: ", r.gradient_accumulation_steps as u64);
    s.append("        train_unet: true\n");
    s.append("        train_text_encoder: false\n");
    push_yb(s, "        gradient_checkpointing: ", r.gradient_checkpointing);
    s.append("        noise_scheduler: 'flowmatch'\n");
    s.append("        timestep_type: 'linear'\n");
    s.append("        optimizer: 'adamw8bit'\n");
    push_yl(s, "        lr: ", r.learning_rate.text.as_str());
    push_yl(s, "        max_grad_norm: ", r.max_grad_norm.text.as_str());
    s.append("        dtype: bf16\n");
    s.append("        ema_config:\n");
    s.append("          use_ema: true\n");
    s.append("          ema_decay: 0.99\n");
    s.append("        unload_text_encoder: true\n");
    proof {
        assert(s@ =~= old(s)@ + aitk_train(*r, *p));
    }
}

fn push_aitk_model(s: &mut String, p: &AitkPaths)
    ensures
        final(s)@ == old(s)@ + aitk_model(*p),
{
    s.append("      model:\n");
    push_yq_path(s, "        name_or_path: ", p.base_model.as_str());
    s.append("        arch: 'krea2'\n");
    s.append("        quantize: true\n");
    s.append("        quantize_te: true\n");
    s.append("        low_vram: true\n");
    s.append("        model_kwargs:\n");
    push_yq_path(s, "          text_encoder_path: ", p.text_encoder.as_str());
    push_yq_path(s, "          vae_path: ", p.vae_root.as_str());
    s.append("          max_text_length: 512\n");
    s.append("      sample:\n");
    s.append("        disable_sampling: true\n");
    proof {
        assert(s@ =~= old(s)@ + aitk_model(*p));
    }
}

/// The ai-toolkit training YAML of a Krea 2 LoRA run.
pub fn build_aitk_yaml(recipe: &RecipeData, paths: &AitkPaths) -> (s: String)
    ensures
        s@ == aitk_yaml(*recipe, *paths),
{
    let mut s = String::new();
    push_aitk_head(&mut s, recipe, paths);
    push_aitk_dataset(&mut s, recipe, paths);
    push_aitk_train(&mut s, recipe, paths);
    push_aitk_model(&mut s, paths);
    proof {
        assert(s@ =~= aitk_yaml(*recipe, *paths));
    }
    s
}

/// The first two of a left-nested chain of seventeen texts, and the rest.
proof fn lemma_first_two_of(t: Seq<Seq<char>>)
    requires
        t.len() == 17,
    ensures
        t[0] + t[1] + t[2] + t[3] + t[4] + t[5] + t[6] + t[7] + t[8] + t[9] + t[10] + t[11] + t[12] + t[13] + t[14] + t[15] + t[16] == t[0] + t[1] + (t[2] + t[3] + t[4] + t[5] + t[6] + t[7] + t[8] + t[9] + t[10] + t[11] + t[12] + t[13] + t[14] + t[15] + t[16]),
{
    let h = t[0] + t[1];
    assert(t[0] + t[1] + t[2] + t[3] + t[4] + t[5] + t[6] + t[7] + t[8] + t[9] + t[10] + t[11] + t[12] + t[13] + t[14] + t[15] + t[16] =~= h + (t[2] + t[3] + t[4] + t[5] + t[6] + t[7] + t[8] + t[9] + t[10] + t[11] + t[12] + t[13] + t[14] + t[15] + t[16]));
}

/// The batch size of a Krea 2 run is the recipe's: the training settings
/// open with `batch_size: <r.batch_size>`, whatever the other values are.
pub proof fn lemma_aitk_batch_size_is_recipe_batch(r: RecipeData, p: AitkPaths)
    ensures
        exists|a: Seq<char>, b: Seq<char>|
            aitk_yaml(r, p) == a + ("      train:\n"@ + "        batch_size: "@ + decimal(r.batch_size as nat)
                + "\n"@) + b,
{
    let t = seq![
        "      train:\n"@,
        yl("        batch_size: "@, decimal(r.batch_size as nat)),
        yl("        steps: "@, decimal(run_steps(p))),
        yl("        gradient_accumulation: "@, decimal(r.gradient_accumulation_steps as nat)),
        "        train_unet: true\n"@,
        "        train_text_encoder: false\n"@,
        yl("        gradient_checkpointing: "@, bool_text(r.gradient_checkpointing)),
        "        noise_scheduler: 'flowmatch'\n"@,
        "        timestep_type: 'linear'\n"@,
        "        optimizer: 'adamw8bit'\n"@,
        yl("        lr: "@, r.learning_rate.text@),
        yl("        max_grad_norm: "@, r.max_grad_norm.text@),
        "        dtype: bf16\n"@,
        "        ema_config:\n"@,
        "          use_ema: true\n"@,
        "          ema_decay: 0.99\n"@,
        "        unload_text_encoder: true\n"@,
    ];
    lemma_first_two_of(t);
    let line = t[0] + t[1];
    let rest = t[2] + t[3] + t[4] + t[5] + t[6] + t[7] + t[8] + t[9] + t[10] + t[11] + t[12] + t[13] + t[14] + t[15] + t[16];
    assert(aitk_train(r, p) == line + rest);
    assert(line =~= "      train:\n"@ + "        batch_size: "@ + decimal(r.batch_size as nat) + "\n"@);
    let a = aitk_head(r, p) + aitk_dataset(r, p);
    assert(aitk_yaml(r, p) == a + (line + rest) + aitk_model(p));
    assert(a + (line + rest) + aitk_model(p) =~= a + line + (rest + aitk_model(p)));
}

/// The Krea 2 YAML writes the recipe's network dimension and alpha, the
/// run's steps, the gradient accumulation, the learning rate and the
/// resolution as those settings' lines.
pub proof fn lemma_aitk_lines_follow_recipe(r: RecipeData, p: AitkPaths)
    ensures
        has_piece(aitk_yaml(r, p), "        linear: "@ + decimal(r.network_dim as nat) + "\n"@),
        has_piece(aitk_yaml(r, p), "        linear_alpha: "@ + decimal(r.network_alpha as nat) + "\n"@),
        has_piece(aitk_yaml(r, p), "        steps: "@ + decimal(if p.steps >= 1 { p.steps as nat } else { 1 }) + "\n"@),
        has_piece(
            aitk_yaml(r, p),
            "        gradient_accumulation: "@ + decimal(r.gradient_accumulation_steps as nat) + "\n"@,
        ),
        has_piece(aitk_yaml(r, p), "        lr: "@ + r.learning_rate.text@ + "\n"@),
        has_piece(aitk_yaml(r, p), "          resolution: ["@ + decimal(r.resolution as nat) + "]\n"@),
{
    broadcast use group_text_pieces;
    let y = aitk_yaml(r, p);
    assert(has_piece(y, yl("        linear: "@, decimal(r.network_dim as nat))));
    assert(has_piece(y, yl("        linear_alpha: "@, decimal(r.network_alpha as nat))));
    assert(has_piece(y, yl("        steps: "@, decimal(run_steps(p)))));
    assert(has_piece(y, yl("        gradient_accumulation: "@, decimal(r.gradient_accumulation_steps as nat))));
    assert(has_piece(y, yl("        lr: "@, r.learning_rate.text@)));
    assert(has_piece(y, "          resolution: ["@ + decimal(r.resolution as nat) + "]\n"@));
}

} // verus!
