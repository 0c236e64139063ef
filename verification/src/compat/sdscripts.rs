//! The sd-scripts `--config_file` TOML: LoRA training and full fine-tuning.
//!
//! Key names follow kohya sd-scripts. The sections only organise the file:
//! sd-scripts flattens every section into one argument namespace.

use vstd::prelude::*;

use crate::compat::escape::{
    args_array, group_text_pieces, has_piece, kv, quoted, kv_bool, kv_num, kv_path, kv_str, opt_bool, opt_num, opt_path, opt_real, opt_str,
    push_kv, push_kv_bool, push_kv_num, push_kv_path, push_kv_real, push_kv_str, push_opt,
    push_opt_bool, push_opt_path, push_opt_real, push_opt_str, toml_quote, views, custom_args_toml,
};
use crate::family::ModelFamily;
use crate::recipe::schema::{
    scheduler_label, NetworkType, OptimizerKind, Precision, PredictionType, RecipeData, SchedulerKind,
};
use crate::text::{decimal, u64_to_string};

verus! {

/// Paths the kernel run needs.
#[derive(Debug, Clone)]
pub struct TrainPaths {
    pub base_model: String,
    pub dataset_dir: String,
    pub output_dir: String,
    pub output_name: String,
    pub logging_dir: String,
    /// Training repeats per image (the numeric prefix of the dataset folder,
    /// `2_artstyle` gives 2).
    pub repeats: u64,
    /// sd-scripts state directory to resume from.
    pub resume: Option<String>,
    /// Local CLIP-L tokenizer directory.
    pub tokenizer: Option<String>,
    /// Local CLIP-G tokenizer directory (SDXL's second encoder).
    pub tokenizer2: Option<String>,
    /// Anima: Qwen3 text encoder.
    pub anima_qwen3: Option<String>,
    /// Anima: VAE.
    pub anima_vae: Option<String>,
    /// Anima: T5 tokenizer directory.
    pub anima_t5_tokenizer: Option<String>,
    /// Anima: Qwen3 tokenizer directory.
    pub anima_qwen3_tokenizer: Option<String>,
    /// Sample prompt file; `None` turns sampling off.
    pub sample_prompts_file: Option<String>,
}

/// sd-scripts network module of a network structure.
pub open spec fn network_module_name(t: NetworkType) -> Seq<char> {
    match t {
        NetworkType::Lora => "lora"@,
        NetworkType::Locon => "locon"@,
        NetworkType::Lokr => "lokr"@,
        NetworkType::LoHa => "loha"@,
        NetworkType::Ia3 => "ia3"@,
        NetworkType::DoRa => "dora"@,
        NetworkType::Tlora => "tlora"@,
    }
}

/// sd-scripts optimizer name.
pub open spec fn optimizer_type_name(o: OptimizerKind) -> Seq<char> {
    match o {
        OptimizerKind::AdamW => "AdamW"@,
        OptimizerKind::AdamW8Bit => "AdamW8bit"@,
        OptimizerKind::Adafactor => "Adafactor"@,
        OptimizerKind::Prodigy => "Prodigy"@,
        OptimizerKind::Lion => "Lion"@,
        OptimizerKind::Lion8Bit => "Lion8bit"@,
        OptimizerKind::DAdaptAdaGrad => "DAdaptAdaGrad"@,
        OptimizerKind::CAME => "CAME"@,
        OptimizerKind::SgdNesterov => "SGDNesterov"@,
    }
}

/// sd-scripts mixed-precision name.
pub open spec fn precision_name(p: Precision) -> Seq<char> {
    match p {
        Precision::Fp16 => "fp16"@,
        Precision::Bf16 => "bf16"@,
        Precision::Fp32 => "no"@,
    }
}

/// sd-scripts network module of a network structure.
pub fn network_module(t: NetworkType) -> (r: &'static str)
    ensures
        r@ == network_module_name(t),
{
    match t {
        NetworkType::Lora => "lora",
        NetworkType::Locon => "locon",
        NetworkType::Lokr => "lokr",
        NetworkType::LoHa => "loha",
        NetworkType::Ia3 => "ia3",
        NetworkType::DoRa => "dora",
        NetworkType::Tlora => "tlora",
    }
}

/// sd-scripts optimizer name.
pub fn optimizer_type(o: OptimizerKind) -> (r: &'static str)
    ensures
        r@ == optimizer_type_name(o),
{
    match o {
        OptimizerKind::AdamW => "AdamW",
        OptimizerKind::AdamW8Bit => "AdamW8bit",
        OptimizerKind::Adafactor => "Adafactor",
        OptimizerKind::Prodigy => "Prodigy",
        OptimizerKind::Lion => "Lion",
        OptimizerKind::Lion8Bit => "Lion8bit",
        OptimizerKind::DAdaptAdaGrad => "DAdaptAdaGrad",
        OptimizerKind::CAME => "CAME",
        OptimizerKind::SgdNesterov => "SGDNesterov",
    }
}

/// sd-scripts mixed-precision name.
pub fn precision(p: Precision) -> (r: &'static str)
    ensures
        r@ == precision_name(p),
{
    match p {
        Precision::Fp16 => "fp16",
        Precision::Bf16 => "bf16",
        Precision::Fp32 => "no",
    }
}

// ---------------------------------------------------------------------------
// The document, section by section.
// ---------------------------------------------------------------------------

/// `[model]`: base model, local tokenizers and, for Anima, its text encoder,
/// VAE and tokenizers.
pub open spec fn model_section(family: ModelFamily, p: TrainPaths) -> Seq<char> {
    "[model]\n"@ + kv_path("pretrained_model_name_or_path"@, p.base_model@) + opt_path(
        "tokenizer"@,
        p.tokenizer,
    ) + opt_path("tokenizer2"@, p.tokenizer2) + (if family == ModelFamily::DitAnima {
        opt_path("qwen3"@, p.anima_qwen3) + opt_path("vae"@, p.anima_vae) + opt_path(
            "t5_tokenizer_path"@,
            p.anima_t5_tokenizer,
        ) + opt_path("qwen3_tokenizer_path"@, p.anima_qwen3_tokenizer)
    } else {
        Seq::empty()
    }) + "\n"@
}

/// A `key = [...]` line for argument lines that are not all blank.
pub open spec fn args_line(key: Seq<char>, lines: Seq<String>) -> Seq<char> {
    match args_array(views(lines)) {
        Some(a) => kv(key, a),
        None => Seq::empty(),
    }
}

/// Network extras: weights to continue from, max-norm regularisation and
/// custom `network_args`.
pub open spec fn network_ext(r: RecipeData) -> Seq<char> {
    opt_path("network_weights"@, r.network_weights) + opt_real("scale_weight_norms"@, r.scale_weight_norms)
        + args_line("network_args"@, r.network_args_custom@)
}

/// Network module of a LoRA run: Anima always uses `lora_anima`.
pub open spec fn lora_module(family: ModelFamily, t: NetworkType) -> Seq<char> {
    if family == ModelFamily::DitAnima {
        "lora_anima"@
    } else {
        network_module_name(t)
    }
}

/// `[network]` of a LoRA run.
pub open spec fn network_section(family: ModelFamily, r: RecipeData) -> Seq<char> {
    "[network]\n"@ + ("network_module = \"networks."@ + lora_module(family, r.network_type) + "\"\n"@)
        + kv_num("network_dim"@, r.network_dim as nat) + kv_num("network_alpha"@, r.network_alpha as nat)
        + opt_real("network_dropout"@, r.network_dropout) + opt_real("rank_dropout"@, r.rank_dropout)
        + opt_real("module_dropout"@, r.module_dropout) + opt_num("conv_dim"@, r.conv_dim) + opt_num(
        "conv_alpha"@,
        r.conv_alpha,
    ) + opt_str("down_lr_weight"@, r.block_weights) + (if family == ModelFamily::DitAnima {
        "attn_mode = \"torch\"\n"@ + "split_attn = true\n"@
    } else {
        Seq::empty()
    }) + network_ext(r) + "\n"@
}

/// `[optimizer]`.
pub open spec fn optimizer_section(r: RecipeData) -> Seq<char> {
    "[optimizer]\n"@ + ("optimizer_type = \""@ + optimizer_type_name(r.optimizer) + "\"\n"@) + args_line(
        "optimizer_args"@,
        r.optimizer_args_custom@,
    ) + "\n"@
}

/// Text-encoder training of a LoRA run (off unless the recipe says so).
pub open spec fn lora_trains_te(r: RecipeData) -> bool {
    r.train_text_encoder == Some(true)
}

/// Text-encoder lines of a LoRA run: training the encoder trains the whole
/// network with the recipe's encoder rate; cached encoder outputs freeze it;
/// otherwise the recipe's encoder rate, if any.
pub open spec fn lora_te_lines(r: RecipeData) -> Seq<char> {
    if lora_trains_te(r) {
        "network_train_unet_only = false\n"@ + opt_real("text_encoder_lr"@, r.text_encoder_lr)
    } else if r.cache_text_encoder_outputs {
        "text_encoder_lr = 0\n"@ + "network_train_unet_only = true\n"@
    } else {
        opt_real("text_encoder_lr"@, r.text_encoder_lr)
    }
}

/// Scheduler and warm-up: warm-up steps are written for every scheduler but
/// `constant`, which refuses them.
pub open spec fn scheduler_lines(r: RecipeData, warmup_steps: u64) -> Seq<char> {
    ("lr_scheduler = \""@ + scheduler_label(r.lr_scheduler) + "\"\n"@) + (if r.lr_scheduler
        != SchedulerKind::Constant {
        kv_num("lr_warmup_steps"@, warmup_steps as nat)
    } else {
        Seq::empty()
    })
}

/// Epochs, seed, precision and gradient settings.
pub open spec fn run_lines(r: RecipeData) -> Seq<char> {
    kv_num("max_train_epochs"@, r.max_train_epochs as nat) + kv_num("seed"@, r.seed as nat) + (
    "mixed_precision = \""@ + precision_name(r.mixed_precision) + "\"\n"@) + kv_bool(
        "gradient_checkpointing"@,
        r.gradient_checkpointing,
    ) + kv_num("gradient_accumulation_steps"@, r.gradient_accumulation_steps as nat) + kv(
        "max_grad_norm"@,
        r.max_grad_norm.text@,
    )
}

/// Caption lines of a LoRA run: cached encoder outputs disable shuffling and
/// caption dropout.
pub open spec fn lora_caption_lines(r: RecipeData) -> Seq<char> {
    if r.cache_text_encoder_outputs {
        "shuffle_caption = false\n"@ + kv_num("keep_tokens"@, r.keep_tokens as nat)
    } else {
        kv_bool("shuffle_caption"@, r.shuffle_caption) + kv_num("keep_tokens"@, r.keep_tokens as nat)
            + opt_real("caption_dropout_rate"@, r.caption_dropout_rate)
    }
}

/// Training extras: prior loss weight, loss type, restarts and precision
/// switches.
pub open spec fn training_ext(r: RecipeData) -> Seq<char> {
    opt_real("prior_loss_weight"@, r.prior_loss_weight) + opt_str("loss_type"@, r.loss_type) + opt_num(
        "lr_scheduler_num_cycles"@,
        r.lr_scheduler_num_cycles,
    ) + opt_bool("full_fp16"@, r.full_fp16) + opt_bool("full_bf16"@, r.full_bf16) + opt_bool(
        "no_half_vae"@,
        r.no_half_vae,
    ) + opt_bool("xformers"@, r.xformers) + opt_bool("lowram"@, r.lowram)
}

/// Noise lines of a LoRA run.
pub open spec fn noise_lines(r: RecipeData) -> Seq<char> {
    opt_real("min_snr_gamma"@, r.min_snr_gamma) + opt_real("noise_offset"@, r.noise_offset) + opt_real(
        "adaptive_noise_scale"@,
        r.adaptive_noise_scale,
    ) + (match r.multires_noise_iterations {
        Some(v) => kv_num("multires_noise_iterations"@, v as nat) + opt_real(
            "multires_noise_discount"@,
            r.multires_noise_discount,
        ),
        None => Seq::empty(),
    }) + (if r.zero_terminal_snr {
        "zero_terminal_snr = true\n"@
    } else {
        Seq::empty()
    }) + opt_num("min_timestep"@, r.min_timestep) + opt_num("max_timestep"@, r.max_timestep) + opt_num(
        "clip_skip"@,
        r.clip_skip,
    ) + opt_num("max_token_length"@, r.max_token_length)
}

/// Text-encoder output caching of a LoRA run: off while the encoder trains
/// and for Anima, whose Qwen3 encoder is trained.
pub open spec fn lora_caches_te(family: ModelFamily, r: RecipeData) -> bool {
    r.cache_text_encoder_outputs && !lora_trains_te(r) && family != ModelFamily::DitAnima
}

/// Caching lines of a LoRA run.
pub open spec fn lora_cache_lines(family: ModelFamily, r: RecipeData) -> Seq<char> {
    kv_bool("train_text_encoder"@, lora_trains_te(r)) + kv_bool("cache_latents"@, r.cache_latents) + kv_bool(
        "cache_text_encoder_outputs"@,
        lora_caches_te(family, r),
    ) + (if r.cache_text_encoder_outputs_to_disk && lora_caches_te(family, r) {
        "cache_text_encoder_outputs_to_disk = true\n"@
    } else {
        Seq::empty()
    })
}

/// Saving and sampling cadence of a LoRA run.
pub open spec fn lora_save_lines(r: RecipeData) -> Seq<char> {
    kv_num("save_every_n_epochs"@, r.save_every_n_epochs as nat) + (match r.save_every_n_steps {
        Some(v) => if v > 0 {
            kv_num("save_every_n_steps"@, v as nat)
        } else {
            Seq::empty()
        },
        None => Seq::empty(),
    }) + (if r.save_state {
        "save_state = true\n"@ + opt_num("save_last_n_states"@, r.save_last_n_states)
    } else {
        Seq::empty()
    }) + (if r.sample_every_n_epochs > 0 {
        kv_num("sample_every_n_epochs"@, r.sample_every_n_epochs as nat)
    } else {
        Seq::empty()
    }) + opt_num("max_train_steps"@, r.max_train_steps)
}

/// Output location and name, and the state to resume from.
pub open spec fn output_lines(p: TrainPaths) -> Seq<char> {
    kv_path("output_dir"@, p.output_dir@) + kv_str("output_name"@, p.output_name@) + opt_path(
        "resume"@,
        p.resume,
    )
}

/// Prediction target of an SDXL LoRA run (`sample` is not supported by the
/// SDXL path and is noted as epsilon).
pub open spec fn lora_prediction_lines(family: ModelFamily, r: RecipeData) -> Seq<char> {
    if family == ModelFamily::Sdxl1 {
        match r.prediction_type {
            Some(PredictionType::V) => "v_parameterization = true\n"@,
            Some(PredictionType::Epsilon) => "v_parameterization = false\n"@,
            Some(PredictionType::Sample) => "# prediction_type=sample：sd-scripts SDXL 路径不支持，按 epsilon 处理\n"@,
            None => Seq::empty(),
        }
    } else {
        Seq::empty()
    }
}

/// Head of `[training]` of a LoRA run: rates, scheduler, run settings,
/// captions, extras and noise.
pub open spec fn lora_training_head(r: RecipeData, warmup_steps: u64) -> Seq<char> {
    lora_rate_lines(r, warmup_steps) + run_lines(r) + lora_caption_lines(r) + training_ext(r) + noise_lines(r)
}

/// Section header, rates and scheduler of a LoRA run.
pub open spec fn lora_rate_lines(r: RecipeData, warmup_steps: u64) -> Seq<char> {
    "[training]\n"@ + kv("learning_rate"@, r.learning_rate.text@) + kv_num(
        "train_batch_size"@,
        r.batch_size as nat,
    ) + lora_te_lines(r) + opt_real("unet_lr"@, r.unet_lr) + scheduler_lines(r, warmup_steps)
}

/// Tail of `[training]` of a LoRA run: caching, saving, output, trigger word
/// and prediction target.
pub open spec fn lora_training_tail(family: ModelFamily, r: RecipeData, p: TrainPaths) -> Seq<char> {
    lora_cache_lines(family, r) + lora_save_lines(r) + output_lines(p) + opt_str("trigger_word"@, r.trigger_word)
        + lora_prediction_lines(family, r) + (if family == ModelFamily::DitAnima {
        "# anima 专用参数（M2 落地）\n"@
    } else {
        Seq::empty()
    }) + "\n"@
}

/// `[training]` of a LoRA run.
pub open spec fn lora_training_section(
    family: ModelFamily,
    r: RecipeData,
    p: TrainPaths,
    warmup_steps: u64,
) -> Seq<char> {
    lora_training_head(r, warmup_steps) + lora_training_tail(family, r, p)
}

/// `[saving]`.
pub open spec fn saving_section(r: RecipeData) -> Seq<char> {
    "[saving]\n"@ + "save_model_as = \"safetensors\"\n"@ + opt_str("save_precision"@, r.save_precision)
        + opt_num("save_last_n_epochs_state"@, r.save_last_n_epochs_state) + "\n"@
}

/// Dataset extras: regularisation images, buckets, weighted captions, caption
/// dropout, loader and VAE batch settings.
pub open spec fn dataset_ext(r: RecipeData) -> Seq<char> {
    opt_path("reg_data_dir"@, r.reg_data_dir) + opt_num("min_bucket_reso"@, r.min_bucket_reso) + opt_num(
        "max_bucket_reso"@,
        r.max_bucket_reso,
    ) + opt_num("bucket_reso_steps"@, r.bucket_reso_steps) + opt_bool(
        "bucket_no_upscale"@,
        r.bucket_no_upscale,
    ) + opt_bool("weighted_captions"@, r.weighted_captions) + opt_num(
        "caption_dropout_every_n_epochs"@,
        r.caption_dropout_every_n_epochs,
    ) + opt_real("caption_tag_dropout_rate"@, r.caption_tag_dropout_rate) + opt_bool(
        "persistent_data_loader_workers"@,
        r.persistent_data_loader_workers,
    ) + opt_num("vae_batch_size"@, r.vae_batch_size)
}

/// `[dataset]`: captions are `.txt` files beside the images; the resolution
/// is written as a string.
pub open spec fn dataset_section(r: RecipeData, p: TrainPaths) -> Seq<char> {
    "[dataset]\n"@ + kv_path("train_data_dir"@, p.dataset_dir@) + "caption_extension = \".txt\"\n"@ + kv_str(
        "resolution"@,
        decimal(r.resolution as nat),
    ) + kv_bool("enable_bucket"@, r.enable_bucket) + dataset_ext(r) + "\n"@
}

/// `[sampling]`, present only when there is a prompt file.
pub open spec fn sampling_section(r: RecipeData, p: TrainPaths) -> Seq<char> {
    match p.sample_prompts_file {
        Some(f) => "[sampling]\n"@ + kv_path("sample_prompts"@, f@) + kv_str(
            "sample_sampler"@,
            r.sample_sampler@,
        ) + opt_num("sample_steps"@, r.sample_steps) + opt_real("guidance_scale"@, r.guidance_scale)
            + opt_str("negative_prompt"@, r.negative_prompt) + "\n"@,
        None => Seq::empty(),
    }
}

/// `[logging]`: TensorBoard logs.
pub open spec fn logging_section(p: TrainPaths) -> Seq<char> {
    "[logging]\n"@ + "log_with = \"tensorboard\"\n"@ + kv_path("logging_dir"@, p.logging_dir@) + "\n"@
}

/// The configuration of a LoRA run.
pub open spec fn sdscripts_toml(
    r: RecipeData,
    family: ModelFamily,
    p: TrainPaths,
    warmup_steps: u64,
) -> Seq<char> {
    model_section(family, p) + network_section(family, r) + optimizer_section(r) + lora_training_section(
        family,
        r,
        p,
        warmup_steps,
    ) + saving_section(r) + dataset_section(r, p) + sampling_section(r, p) + logging_section(p)
}



/// Regrouping a line out of the middle of a text.
proof fn lemma_regroup(a: Seq<char>, m: Seq<char>, b: Seq<char>, c: Seq<char>, l: Seq<char>, d: Seq<char>)
    requires
        m == c + l + d,
    ensures
        a + m + b == (a + c) + l + (d + b),
{
    assert(a + (c + l + d) + b =~= (a + c) + l + (d + b));
}

/// The fourth of a left-nested chain of thirteen texts, with what stands
/// before and after it.
proof fn lemma_fourth_of(t: Seq<Seq<char>>)
    requires
        t.len() == 13,
    ensures
        t[0] + t[1] + t[2] + t[3] + t[4] + t[5] + t[6] + t[7] + t[8] + t[9] + t[10] + t[11] + t[12] == (t[0]
            + t[1] + t[2]) + t[3] + (t[4] + t[5] + t[6] + t[7] + t[8] + t[9] + t[10] + t[11] + t[12]),
{
    let tail = t[4] + t[5] + t[6] + t[7] + t[8] + t[9] + t[10] + t[11] + t[12];
    let h = t[0] + t[1] + t[2] + t[3];
    assert(h + t[4] + t[5] + t[6] + t[7] + t[8] + t[9] + t[10] + t[11] + t[12] =~= h + tail);
}

/// The second of a left-nested chain of eight texts, with what stands before
/// and after it.
proof fn lemma_second_of(t: Seq<Seq<char>>)
    requires
        t.len() == 8,
    ensures
        t[0] + t[1] + t[2] + t[3] + t[4] + t[5] + t[6] + t[7] == t[0] + t[1] + (t[2] + t[3] + t[4] + t[5] + t[6]
            + t[7]),
{
    let h = t[0] + t[1];
    assert(h + t[2] + t[3] + t[4] + t[5] + t[6] + t[7] =~= h + (t[2] + t[3] + t[4] + t[5] + t[6] + t[7]));
}

/// The LoRA configuration writes the recipe's `network_alpha` as its alpha
/// line, whatever the network dimension is.
pub proof fn lemma_lora_alpha_is_recipe_alpha(
    r: RecipeData,
    family: ModelFamily,
    p: TrainPaths,
    warmup_steps: u64,
)
    ensures
        exists|a: Seq<char>, b: Seq<char>|
            sdscripts_toml(r, family, p, warmup_steps) == a + ("network_alpha = "@ + decimal(r.network_alpha as nat)
                + "\n"@) + b,
{
    reveal(kv_num);
    reveal(kv);
    reveal_strlit("network_alpha");
    reveal_strlit(" = ");
    reveal_strlit("network_alpha = ");
    let line = "network_alpha = "@ + decimal(r.network_alpha as nat) + "\n"@;
    assert("network_alpha"@ + " = "@ =~= "network_alpha = "@);
    assert(kv_num("network_alpha"@, r.network_alpha as nat) =~= line);
    let n = seq![
        "[network]\n"@,
        "network_module = \"networks."@ + lora_module(family, r.network_type) + "\"\n"@,
        kv_num("network_dim"@, r.network_dim as nat),
        kv_num("network_alpha"@, r.network_alpha as nat),
        opt_real("network_dropout"@, r.network_dropout),
        opt_real("rank_dropout"@, r.rank_dropout),
        opt_real("module_dropout"@, r.module_dropout),
        opt_num("conv_dim"@, r.conv_dim),
        opt_num("conv_alpha"@, r.conv_alpha),
        opt_str("down_lr_weight"@, r.block_weights),
        if family == ModelFamily::DitAnima {
            "attn_mode = \"torch\"\n"@ + "split_attn = true\n"@
        } else {
            Seq::empty()
        },
        network_ext(r),
        "\n"@,
    ];
    lemma_fourth_of(n);
    let c = n[0] + n[1] + n[2];
    let d = n[4] + n[5] + n[6] + n[7] + n[8] + n[9] + n[10] + n[11] + n[12];
    assert(network_section(family, r) == c + line + d);
    let q = seq![
        model_section(family, p),
        network_section(family, r),
        optimizer_section(r),
        lora_training_section(family, r, p, warmup_steps),
        saving_section(r),
        dataset_section(r, p),
        sampling_section(r, p),
        logging_section(p),
    ];
    lemma_second_of(q);
    let rest = q[2] + q[3] + q[4] + q[5] + q[6] + q[7];
    assert(sdscripts_toml(r, family, p, warmup_steps) == q[0] + network_section(family, r) + rest);
    lemma_regroup(q[0], network_section(family, r), rest, c, line, d);
    assert(sdscripts_toml(r, family, p, warmup_steps) == (q[0] + c) + line + (d + rest));
}

/// The LoRA configuration writes the recipe's network dimension, learning
/// rate, batch size, epochs, gradient accumulation and resolution as those
/// settings' lines.
pub proof fn lemma_lora_lines_follow_recipe(r: RecipeData, family: ModelFamily, p: TrainPaths, warmup_steps: u64)
    ensures
        has_piece(
            sdscripts_toml(r, family, p, warmup_steps),
            "network_dim"@ + " = "@ + decimal(r.network_dim as nat) + "\n"@,
        ),
        has_piece(
            sdscripts_toml(r, family, p, warmup_steps),
            "learning_rate"@ + " = "@ + r.learning_rate.text@ + "\n"@,
        ),
        has_piece(
            sdscripts_toml(r, family, p, warmup_steps),
            "train_batch_size"@ + " = "@ + decimal(r.batch_size as nat) + "\n"@,
        ),
        has_piece(
            sdscripts_toml(r, family, p, warmup_steps),
            "max_train_epochs"@ + " = "@ + decimal(r.max_train_epochs as nat) + "\n"@,
        ),
        has_piece(
            sdscripts_toml(r, family, p, warmup_steps),
            "gradient_accumulation_steps"@ + " = "@ + decimal(r.gradient_accumulation_steps as nat) + "\n"@,
        ),
        has_piece(
            sdscripts_toml(r, family, p, warmup_steps),
            "resolution"@ + " = "@ + quoted(decimal(r.resolution as nat)) + "\n"@,
        ),
{
    broadcast use group_text_pieces;
    reveal(kv_num);
    reveal(kv);
    reveal(kv_str);
    let t = sdscripts_toml(r, family, p, warmup_steps);
    assert(has_piece(t, kv_num("network_dim"@, r.network_dim as nat)));
    assert(has_piece(t, kv("learning_rate"@, r.learning_rate.text@)));
    assert(has_piece(t, kv_num("train_batch_size"@, r.batch_size as nat)));
    assert(has_piece(t, kv_num("max_train_epochs"@, r.max_train_epochs as nat)));
    assert(has_piece(t, kv_num("gradient_accumulation_steps"@, r.gradient_accumulation_steps as nat)));
    assert(has_piece(t, kv_str("resolution"@, decimal(r.resolution as nat))));
}

/// `[network]` of a full fine-tune: only when there are network extras
/// (weights to continue from, max-norm regularisation, custom arguments).
pub open spec fn full_network_section(r: RecipeData) -> Seq<char> {
    if r.network_weights is Some || r.scale_weight_norms is Some || args_array(views(r.network_args_custom@)) is Some {
        "[network]\n"@ + network_ext(r) + "\n"@
    } else {
        Seq::empty()
    }
}

/// Text-encoder training of a full fine-tune: the recipe's switch or the
/// caller's.
pub open spec fn full_trains_te(r: RecipeData, train_text_encoder: bool) -> bool {
    r.train_text_encoder == Some(true) || train_text_encoder
}

/// Text-encoder lines of a full fine-tune.
pub open spec fn full_te_lines(r: RecipeData, train_te: bool) -> Seq<char> {
    if train_te {
        "train_text_encoder = true\n"@ + "network_train_unet_only = false\n"@ + opt_real(
            "text_encoder_lr"@,
            r.text_encoder_lr,
        )
    } else {
        "train_text_encoder = false\n"@ + "text_encoder_lr = 0\n"@
    }
}

/// Prediction target of an SDXL full fine-tune.
pub open spec fn full_prediction_lines(family: ModelFamily, r: RecipeData) -> Seq<char> {
    if family == ModelFamily::Sdxl1 {
        match r.prediction_type {
            Some(PredictionType::V) => "v_parameterization = true\n"@,
            Some(PredictionType::Epsilon) => "v_parameterization = false\n"@,
            _ => Seq::empty(),
        }
    } else {
        Seq::empty()
    }
}

/// Captions, extras and noise of a full fine-tune.
pub open spec fn full_middle_lines(r: RecipeData) -> Seq<char> {
    kv_bool("shuffle_caption"@, r.shuffle_caption) + kv_num("keep_tokens"@, r.keep_tokens as nat) + opt_real(
        "caption_dropout_rate"@,
        r.caption_dropout_rate,
    ) + training_ext(r) + opt_real("min_snr_gamma"@, r.min_snr_gamma) + opt_real(
        "noise_offset"@,
        r.noise_offset,
    )
}

/// Head of `[training]` of a full fine-tune: rates, scheduler, run settings,
/// captions, extras and noise.
pub open spec fn full_training_head(r: RecipeData, warmup_steps: u64, train_te: bool) -> Seq<char> {
    full_rate_lines(r, warmup_steps, train_te) + run_lines(r) + full_middle_lines(r)
}

/// Section header, rates and scheduler of a full fine-tune.
pub open spec fn full_rate_lines(r: RecipeData, warmup_steps: u64, train_te: bool) -> Seq<char> {
    "[training]\n"@ + kv("learning_rate"@, r.learning_rate.text@) + kv_num(
        "train_batch_size"@,
        r.batch_size as nat,
    ) + full_te_lines(r, train_te) + opt_real("unet_lr"@, r.unet_lr) + scheduler_lines(r, warmup_steps)
}

/// Tail of `[training]` of a full fine-tune: latents are cached only while
/// the text encoder is frozen; then saving, output and prediction target.
pub open spec fn full_training_tail(family: ModelFamily, r: RecipeData, p: TrainPaths, train_te: bool) -> Seq<
    char,
> {
    kv_bool("cache_latents"@, r.cache_latents && !train_te) + (if train_te {
        "cache_text_encoder_outputs = false\n"@
    } else {
        Seq::empty()
    }) + kv_num("save_every_n_epochs"@, r.save_every_n_epochs as nat) + opt_num(
        "max_train_steps"@,
        r.max_train_steps,
    ) + output_lines(p) + full_prediction_lines(family, r) + "\n"@
}

/// `[training]` of a full fine-tune.
pub open spec fn full_training_section(
    family: ModelFamily,
    r: RecipeData,
    p: TrainPaths,
    warmup_steps: u64,
    train_text_encoder: bool,
) -> Seq<char> {
    full_training_head(r, warmup_steps, full_trains_te(r, train_text_encoder)) + full_training_tail(
        family,
        r,
        p,
        full_trains_te(r, train_text_encoder),
    )
}

/// The configuration of a full fine-tune: no LoRA network, a complete model
/// checkpoint out.
pub open spec fn sdscripts_full_toml(
    r: RecipeData,
    family: ModelFamily,
    p: TrainPaths,
    warmup_steps: u64,
    train_text_encoder: bool,
) -> Seq<char> {
    model_section(family, p) + full_network_section(r) + optimizer_section(r) + full_training_section(
        family,
        r,
        p,
        warmup_steps,
        train_text_encoder,
    ) + saving_section(r) + dataset_section(r, p) + sampling_section(r, p) + logging_section(p)
}

// ---------------------------------------------------------------------------
// Writers.
// ---------------------------------------------------------------------------

fn push_model_section(t: &mut String, family: ModelFamily, p: &TrainPaths)
    ensures
        final(t)@ == old(t)@ + model_section(family, *p),
{
    t.append("[model]\n");
    push_kv_path(t, "pretrained_model_name_or_path", p.base_model.as_str());
    push_opt_path(t, "tokenizer", &p.tokenizer);
    push_opt_path(t, "tokenizer2", &p.tokenizer2);
    let ghost mid = t@;
    if family == ModelFamily::DitAnima {
        push_opt_path(t, "qwen3", &p.anima_qwen3);
        push_opt_path(t, "vae", &p.anima_vae);
        push_opt_path(t, "t5_tokenizer_path", &p.anima_t5_tokenizer);
        push_opt_path(t, "qwen3_tokenizer_path", &p.anima_qwen3_tokenizer);
    }
    t.append("\n");
    proof {
        assert(t@ =~= old(t)@ + model_section(family, *p));
    }
}

fn push_args_line(t: &mut String, key: &str, lines: &Vec<String>)
    ensures
        final(t)@ == old(t)@ + args_line(key@, lines@),
{
    match custom_args_toml(lines.as_slice()) {
        Some(a) => push_kv(t, key, a.as_str()),
        None => {
            proof {
                assert(t@ =~= old(t)@ + args_line(key@, lines@));
            }
        },
    }
}

fn push_network_ext(t: &mut String, r: &RecipeData)
    ensures
        final(t)@ == old(t)@ + network_ext(*r),
{
    push_opt_path(t, "network_weights", &r.network_weights);
    push_opt_real(t, "scale_weight_norms", &r.scale_weight_norms);
    push_args_line(t, "network_args", &r.network_args_custom);
    proof {
        assert(t@ =~= old(t)@ + network_ext(*r));
    }
}

fn push_network_section(t: &mut String, family: ModelFamily, r: &RecipeData)
    ensures
        final(t)@ == old(t)@ + network_section(family, *r),
{
    t.append("[network]\n");
    let module = if family == ModelFamily::DitAnima {
        "lora_anima"
    } else {
        network_module(r.network_type)
    };
    t.append("network_module = \"networks.");
    t.append(module);
    t.append("\"\n");
    push_kv_num(t, "network_dim", r.network_dim as u64);
    push_kv_num(t, "network_alpha", r.network_alpha as u64);
    push_opt_real(t, "network_dropout", &r.network_dropout);
    push_opt_real(t, "rank_dropout", &r.rank_dropout);
    push_opt_real(t, "module_dropout", &r.module_dropout);
    push_opt(t, "conv_dim", r.conv_dim);
    push_opt(t, "conv_alpha", r.conv_alpha);
    push_opt_str(t, "down_lr_weight", &r.block_weights);
    if family == ModelFamily::DitAnima {
        t.append("attn_mode = \"torch\"\n");
        t.append("split_attn = true\n");
    }
    push_network_ext(t, r);
    t.append("\n");
    proof {
        assert(t@ =~= old(t)@ + network_section(family, *r));
    }
}

fn push_optimizer_section(t: &mut String, r: &RecipeData)
    ensures
        final(t)@ == old(t)@ + optimizer_section(*r),
{
    t.append("[optimizer]\n");
    t.append("optimizer_type = \"");
    t.append(optimizer_type(r.optimizer));
    t.append("\"\n");
    push_args_line(t, "optimizer_args", &r.optimizer_args_custom);
    t.append("\n");
    proof {
        assert(t@ =~= old(t)@ + optimizer_section(*r));
    }
}

fn push_scheduler_lines(t: &mut String, r: &RecipeData, warmup_steps: u64)
    ensures
        final(t)@ == old(t)@ + scheduler_lines(*r, warmup_steps),
{
    t.append("lr_scheduler = \"");
    t.append(r.lr_scheduler.label());
    t.append("\"\n");
    if r.lr_scheduler != SchedulerKind::Constant {
        push_kv_num(t, "lr_warmup_steps", warmup_steps);
    }
    proof {
        assert(t@ =~= old(t)@ + scheduler_lines(*r, warmup_steps));
    }
}

fn push_run_lines(t: &mut String, r: &RecipeData)
    ensures
        final(t)@ == old(t)@ + run_lines(*r),
{
    push_kv_num(t, "max_train_epochs", r.max_train_epochs as u64);
    push_kv_num(t, "seed", r.seed);
    t.append("mixed_precision = \"");
    t.append(precision(r.mixed_precision));
    t.append("\"\n");
    push_kv_bool(t, "gradient_checkpointing", r.gradient_checkpointing);
    push_kv_num(t, "gradient_accumulation_steps", r.gradient_accumulation_steps as u64);
    push_kv_real(t, "max_grad_norm", &r.max_grad_norm);
    proof {
        assert(t@ =~= old(t)@ + run_lines(*r));
    }
}

fn push_training_ext(t: &mut String, r: &RecipeData)
    ensures
        final(t)@ == old(t)@ + training_ext(*r),
{
    push_opt_real(t, "prior_loss_weight", &r.prior_loss_weight);
    push_opt_str(t, "loss_type", &r.loss_type);
    push_opt(t, "lr_scheduler_num_cycles", r.lr_scheduler_num_cycles);
    push_opt_bool(t, "full_fp16", r.full_fp16);
    push_opt_bool(t, "full_bf16", r.full_bf16);
    push_opt_bool(t, "no_half_vae", r.no_half_vae);
    push_opt_bool(t, "xformers", r.xformers);
    push_opt_bool(t, "lowram", r.lowram);
    proof {
        assert(t@ =~= old(t)@ + training_ext(*r));
    }
}

fn push_noise_lines(t: &mut String, r: &RecipeData)
    ensures
        final(t)@ == old(t)@ + noise_lines(*r),
{
    push_opt_real(t, "min_snr_gamma", &r.min_snr_gamma);
    push_opt_real(t, "noise_offset", &r.noise_offset);
    push_opt_real(t, "adaptive_noise_scale", &r.adaptive_noise_scale);
    match r.multires_noise_iterations {
        Some(v) => {
            push_kv_num(t, "multires_noise_iterations", v as u64);
            push_opt_real(t, "multires_noise_discount", &r.multires_noise_discount);
        },
        None => {},
    }
    if r.zero_terminal_snr {
        t.append("zero_terminal_snr = true\n");
    }
    push_opt(t, "min_timestep", r.min_timestep);
    push_opt(t, "max_timestep", r.max_timestep);
    push_opt(t, "clip_skip", r.clip_skip);
    push_opt(t, "max_token_length", r.max_token_length);
    proof {
        assert(t@ =~= old(t)@ + noise_lines(*r));
    }
}

fn push_output_lines(t: &mut String, p: &TrainPaths)
    ensures
        final(t)@ == old(t)@ + output_lines(*p),
{
    push_kv_path(t, "output_dir", p.output_dir.as_str());
    push_kv_str(t, "output_name", p.output_name.as_str());
    push_opt_path(t, "resume", &p.resume);
    proof {
        assert(t@ =~= old(t)@ + output_lines(*p));
    }
}

fn push_lora_te_lines(t: &mut String, r: &RecipeData)
    ensures
        final(t)@ == old(t)@ + lora_te_lines(*r),
{
    let train_te = match r.train_text_encoder {
        Some(b) => b,
        None => false,
    };
    if train_te {
        t.append("network_train_unet_only = false\n");
        push_opt_real(t, "text_encoder_lr", &r.text_encoder_lr);
    } else if r.cache_text_encoder_outputs {
        t.append("text_encoder_lr = 0\n");
        t.append("network_train_unet_only = true\n");
    } else {
        push_opt_real(t, "text_encoder_lr", &r.text_encoder_lr);
    }
    proof {
        assert(t@ =~= old(t)@ + lora_te_lines(*r));
    }
}

fn push_lora_caption_lines(t: &mut String, r: &RecipeData)
    ensures
        final(t)@ == old(t)@ + lora_caption_lines(*r),
{
    if r.cache_text_encoder_outputs {
        t.append("shuffle_caption = false\n");
        push_kv_num(t, "keep_tokens", r.keep_tokens as u64);
    } else {
        push_kv_bool(t, "shuffle_caption", r.shuffle_caption);
        push_kv_num(t, "keep_tokens", r.keep_tokens as u64);
        push_opt_real(t, "caption_dropout_rate", &r.caption_dropout_rate);
    }
    proof {
        assert(t@ =~= old(t)@ + lora_caption_lines(*r));
    }
}

fn push_lora_cache_lines(t: &mut String, family: ModelFamily, r: &RecipeData)
    ensures
        final(t)@ == old(t)@ + lora_cache_lines(family, *r),
{
    let train_te = match r.train_text_encoder {
        Some(b) => b,
        None => false,
    };
    push_kv_bool(t, "train_text_encoder", train_te);
    push_kv_bool(t, "cache_latents", r.cache_latents);
    let cache_te = r.cache_text_encoder_outputs && !train_te && family != ModelFamily::DitAnima;
    push_kv_bool(t, "cache_text_encoder_outputs", cache_te);
    if r.cache_text_encoder_outputs_to_disk && cache_te {
        t.append("cache_text_encoder_outputs_to_disk = true\n");
    }
    proof {
        assert(t@ =~= old(t)@ + lora_cache_lines(family, *r));
    }
}

fn push_lora_save_lines(t: &mut String, r: &RecipeData)
    ensures
        final(t)@ == old(t)@ + lora_save_lines(*r),
{
    push_kv_num(t, "save_every_n_epochs", r.save_every_n_epochs as u64);
    match r.save_every_n_steps {
        Some(v) => {
            if v > 0 {
                push_kv_num(t, "save_every_n_steps", v as u64);
            }
        },
        None => {},
    }
    if r.save_state {
        t.append("save_state = true\n");
        push_opt(t, "save_last_n_states", r.save_last_n_states);
    }
    if r.sample_every_n_epochs > 0 {
        push_kv_num(t, "sample_every_n_epochs", r.sample_every_n_epochs as u64);
    }
    push_opt(t, "max_train_steps", r.max_train_steps);
    proof {
        assert(t@ =~= old(t)@ + lora_save_lines(*r));
    }
}

fn push_lora_prediction_lines(t: &mut String, family: ModelFamily, r: &RecipeData)
    ensures
        final(t)@ == old(t)@ + lora_prediction_lines(family, *r),
{
    if family == ModelFamily::Sdxl1 {
        match r.prediction_type {
            Some(PredictionType::V) => t.append("v_parameterization = true\n"),
            Some(PredictionType::Epsilon) => t.append("v_parameterization = false\n"),
            Some(PredictionType::Sample) => t.append(
                "# prediction_type=sample：sd-scripts SDXL 路径不支持，按 epsilon 处理\n",
            ),
            None => {},
        }
    }
    proof {
        assert(t@ =~= old(t)@ + lora_prediction_lines(family, *r));
    }
}

fn push_lora_rate_lines(t: &mut String, r: &RecipeData, warmup_steps: u64)
    ensures
        final(t)@ == old(t)@ + lora_rate_lines(*r, warmup_steps),
{
    t.append("[training]\n");
    push_kv_real(t, "learning_rate", &r.learning_rate);
    push_kv_num(t, "train_batch_size", r.batch_size as u64);
    push_lora_te_lines(t, r);
    push_opt_real(t, "unet_lr", &r.unet_lr);
    push_scheduler_lines(t, r, warmup_steps);
    proof {
        assert(t@ =~= old(t)@ + lora_rate_lines(*r, warmup_steps));
    }
}

fn push_lora_training_head(t: &mut String, r: &RecipeData, warmup_steps: u64)
    ensures
        final(t)@ == old(t)@ + lora_training_head(*r, warmup_steps),
{
    push_lora_rate_lines(t, r, warmup_steps);
    push_run_lines(t, r);
    push_lora_caption_lines(t, r);
    push_training_ext(t, r);
    push_noise_lines(t, r);
    proof {
        assert(t@ =~= old(t)@ + lora_training_head(*r, warmup_steps));
    }
}

fn push_lora_training_section(
    t: &mut String,
    family: ModelFamily,
    r: &RecipeData,
    p: &TrainPaths,
    warmup_steps: u64,
)
    ensures
        final(t)@ == old(t)@ + lora_training_section(family, *r, *p, warmup_steps),
{
    push_lora_training_head(t, r, warmup_steps);
    push_lora_training_tail(t, family, r, p);
    proof {
        assert(t@ =~= old(t)@ + lora_training_section(family, *r, *p, warmup_steps));
    }
}

fn push_lora_training_tail(t: &mut String, family: ModelFamily, r: &RecipeData, p: &TrainPaths)
    ensures
        final(t)@ == old(t)@ + lora_training_tail(family, *r, *p),
{
    push_lora_cache_lines(t, family, r);
    push_lora_save_lines(t, r);
    push_output_lines(t, p);
    push_opt_str(t, "trigger_word", &r.trigger_word);
    push_lora_prediction_lines(t, family, r);
    if family == ModelFamily::DitAnima {
        t.append("# anima 专用参数（M2 落地）\n");
    }
    t.append("\n");
    proof {
        assert(t@ =~= old(t)@ + lora_training_tail(family, *r, *p));
    }
}

fn push_saving_section(t: &mut String, r: &RecipeData)
    ensures
        final(t)@ == old(t)@ + saving_section(*r),
{
    t.append("[saving]\n");
    t.append("save_model_as = \"safetensors\"\n");
    push_opt_str(t, "save_precision", &r.save_precision);
    push_opt(t, "save_last_n_epochs_state", r.save_last_n_epochs_state);
    t.append("\n");
    proof {
        assert(t@ =~= old(t)@ + saving_section(*r));
    }
}

fn push_dataset_ext(t: &mut String, r: &RecipeData)
    ensures
        final(t)@ == old(t)@ + dataset_ext(*r),
{
    push_opt_path(t, "reg_data_dir", &r.reg_data_dir);
    push_opt(t, "min_bucket_reso", r.min_bucket_reso);
    push_opt(t, "max_bucket_reso", r.max_bucket_reso);
    push_opt(t, "bucket_reso_steps", r.bucket_reso_steps);
    push_opt_bool(t, "bucket_no_upscale", r.bucket_no_upscale);
    push_opt_bool(t, "weighted_captions", r.weighted_captions);
    push_opt(t, "caption_dropout_every_n_epochs", r.caption_dropout_every_n_epochs);
    push_opt_real(t, "caption_tag_dropout_rate", &r.caption_tag_dropout_rate);
    push_opt_bool(t, "persistent_data_loader_workers", r.persistent_data_loader_workers);
    push_opt(t, "vae_batch_size", r.vae_batch_size);
    proof {
        assert(t@ =~= old(t)@ + dataset_ext(*r));
    }
}

fn push_dataset_section(t: &mut String, r: &RecipeData, p: &TrainPaths)
    ensures
        final(t)@ == old(t)@ + dataset_section(*r, *p),
{
    t.append("[dataset]\n");
    push_kv_path(t, "train_data_dir", p.dataset_dir.as_str());
    t.append("caption_extension = \".txt\"\n");
    let res = u64_to_string(r.resolution as u64);
    push_kv_str(t, "resolution", res.as_str());
    push_kv_bool(t, "enable_bucket", r.enable_bucket);
    push_dataset_ext(t, r);
    t.append("\n");
    proof {
        assert(t@ =~= old(t)@ + dataset_section(*r, *p));
    }
}

fn push_sampling_section(t: &mut String, r: &RecipeData, p: &TrainPaths)
    ensures
        final(t)@ == old(t)@ + sampling_section(*r, *p),
{
    match &p.sample_prompts_file {
        Some(f) => {
            t.append("[sampling]\n");
            push_kv_path(t, "sample_prompts", f.as_str());
            push_kv_str(t, "sample_sampler", r.sample_sampler.as_str());
            push_opt(t, "sample_steps", r.sample_steps);
            push_opt_real(t, "guidance_scale", &r.guidance_scale);
            push_opt_str(t, "negative_prompt", &r.negative_prompt);
            t.append("\n");
        },
        None => {},
    }
    proof {
        assert(t@ =~= old(t)@ + sampling_section(*r, *p));
    }
}

fn push_logging_section(t: &mut String, p: &TrainPaths)
    ensures
        final(t)@ == old(t)@ + logging_section(*p),
{
    t.append("[logging]\n");
    t.append("log_with = \"tensorboard\"\n");
    push_kv_path(t, "logging_dir", p.logging_dir.as_str());
    t.append("\n");
    proof {
        assert(t@ =~= old(t)@ + logging_section(*p));
    }
}

/// The sd-scripts configuration of a LoRA run. `warmup_steps` is the warm-up
/// length in steps (the recipe's warm-up share of the estimated total steps).
pub fn build_sdscripts_toml(recipe: &RecipeData, family: ModelFamily, paths: &TrainPaths, warmup_steps: u64) -> (t: String)
    ensures
        t@ == sdscripts_toml(*recipe, family, *paths, warmup_steps),
{
    let mut t = String::new();
    push_model_section(&mut t, family, paths);
    push_network_section(&mut t, family, recipe);
    push_optimizer_section(&mut t, recipe);
    push_lora_training_section(&mut t, family, recipe, paths, warmup_steps);
    push_saving_section(&mut t, recipe);
    push_dataset_section(&mut t, recipe, paths);
    push_sampling_section(&mut t, recipe, paths);
    push_logging_section(&mut t, paths);
    proof {
        assert(t@ =~= sdscripts_toml(*recipe, family, *paths, warmup_steps));
    }
    t
}


fn push_full_network_section(t: &mut String, r: &RecipeData)
    ensures
        final(t)@ == old(t)@ + full_network_section(*r),
{
    let has_args = custom_args_toml(r.network_args_custom.as_slice()).is_some();
    if r.network_weights.is_some() || r.scale_weight_norms.is_some() || has_args {
        t.append("[network]\n");
        push_network_ext(t, r);
        t.append("\n");
    }
    proof {
        assert(t@ =~= old(t)@ + full_network_section(*r));
    }
}

fn push_full_middle_lines(t: &mut String, r: &RecipeData)
    ensures
        final(t)@ == old(t)@ + full_middle_lines(*r),
{
    push_kv_bool(t, "shuffle_caption", r.shuffle_caption);
    push_kv_num(t, "keep_tokens", r.keep_tokens as u64);
    push_opt_real(t, "caption_dropout_rate", &r.caption_dropout_rate);
    push_training_ext(t, r);
    push_opt_real(t, "min_snr_gamma", &r.min_snr_gamma);
    push_opt_real(t, "noise_offset", &r.noise_offset);
    proof {
        assert(t@ =~= old(t)@ + full_middle_lines(*r));
    }
}

fn push_full_rate_lines(t: &mut String, r: &RecipeData, warmup_steps: u64, train_te: bool)
    ensures
        final(t)@ == old(t)@ + full_rate_lines(*r, warmup_steps, train_te),
{
    t.append("[training]\n");
    push_kv_real(t, "learning_rate", &r.learning_rate);
    push_kv_num(t, "train_batch_size", r.batch_size as u64);
    if train_te {
        t.append("train_text_encoder = true\n");
        t.append("network_train_unet_only = false\n");
        push_opt_real(t, "text_encoder_lr", &r.text_encoder_lr);
    } else {
        t.append("train_text_encoder = false\n");
        t.append("text_encoder_lr = 0\n");
    }
    push_opt_real(t, "unet_lr", &r.unet_lr);
    push_scheduler_lines(t, r, warmup_steps);
    proof {
        assert(t@ =~= old(t)@ + full_rate_lines(*r, warmup_steps, train_te));
    }
}

fn push_full_training_head(t: &mut String, r: &RecipeData, warmup_steps: u64, train_te: bool)
    ensures
        final(t)@ == old(t)@ + full_training_head(*r, warmup_steps, train_te),
{
    push_full_rate_lines(t, r, warmup_steps, train_te);
    push_run_lines(t, r);
    push_full_middle_lines(t, r);
    proof {
        assert(t@ =~= old(t)@ + full_training_head(*r, warmup_steps, train_te));
    }
}

fn push_full_prediction_lines(t: &mut String, family: ModelFamily, r: &RecipeData)
    ensures
        final(t)@ == old(t)@ + full_prediction_lines(family, *r),
{
    if family == ModelFamily::Sdxl1 {
        match r.prediction_type {
            Some(PredictionType::V) => t.append("v_parameterization = true\n"),
            Some(PredictionType::Epsilon) => t.append("v_parameterization = false\n"),
            _ => {},
        }
    }
    proof {
        assert(t@ =~= old(t)@ + full_prediction_lines(family, *r));
    }
}

fn push_full_training_tail(t: &mut String, family: ModelFamily, r: &RecipeData, p: &TrainPaths, train_te: bool)
    ensures
        final(t)@ == old(t)@ + full_training_tail(family, *r, *p, train_te),
{
    push_kv_bool(t, "cache_latents", r.cache_latents && !train_te);
    if train_te {
        t.append("cache_text_encoder_outputs = false\n");
    }
    push_kv_num(t, "save_every_n_epochs", r.save_every_n_epochs as u64);
    push_opt(t, "max_train_steps", r.max_train_steps);
    push_output_lines(t, p);
    push_full_prediction_lines(t, family, r);
    t.append("\n");
    proof {
        assert(t@ =~= old(t)@ + full_training_tail(family, *r, *p, train_te));
    }
}

fn push_full_training_section(
    t: &mut String,
    family: ModelFamily,
    r: &RecipeData,
    p: &TrainPaths,
    warmup_steps: u64,
    train_text_encoder: bool,
)
    ensures
        final(t)@ == old(t)@ + full_training_section(family, *r, *p, warmup_steps, train_text_encoder),
{
    let from_recipe = match r.train_text_encoder {
        Some(b) => b,
        None => false,
    };
    let train_te = from_recipe || train_text_encoder;
    assert(train_te == full_trains_te(*r, train_text_encoder));
    push_full_training_head(t, r, warmup_steps, train_te);
    push_full_training_tail(t, family, r, p, train_te);
    proof {
        assert(t@ =~= old(t)@ + full_training_section(family, *r, *p, warmup_steps, train_text_encoder));
    }
}

/// Asking a full fine-tune to train the text encoder is the same as a recipe
/// that asks for it: the flag and the recipe field give the same file.
pub proof fn lemma_full_te_flag_is_recipe_field(
    r: RecipeData,
    family: ModelFamily,
    p: TrainPaths,
    warmup_steps: u64,
)
    ensures
        sdscripts_full_toml(r, family, p, warmup_steps, true) == sdscripts_full_toml(
            RecipeData { train_text_encoder: Some(true), ..r },
            family,
            p,
            warmup_steps,
            false,
        ),
{
    let r2 = RecipeData { train_text_encoder: Some(true), ..r };
    assert(full_trains_te(r, true) == full_trains_te(r2, false));
    assert(full_training_section(family, r, p, warmup_steps, true) == full_training_section(family, r2, p, warmup_steps, false));
    assert(full_network_section(r) == full_network_section(r2));
    assert(optimizer_section(r) == optimizer_section(r2));
}

/// The sd-scripts configuration of a full fine-tune; `train_text_encoder`
/// also trains the text encoder when the recipe does not ask for it.
pub fn build_sdscripts_toml_full(
    recipe: &RecipeData,
    family: ModelFamily,
    paths: &TrainPaths,
    warmup_steps: u64,
    train_text_encoder: bool,
) -> (t: String)
    ensures
        t@ == sdscripts_full_toml(*recipe, family, *paths, warmup_steps, train_text_encoder),
{
    let mut t = String::new();
    push_model_section(&mut t, family, paths);
    push_full_network_section(&mut t, recipe);
    push_optimizer_section(&mut t, recipe);
    push_full_training_section(&mut t, family, recipe, paths, warmup_steps, train_text_encoder);
    push_saving_section(&mut t, recipe);
    push_dataset_section(&mut t, recipe, paths);
    push_sampling_section(&mut t, recipe, paths);
    push_logging_section(&mut t, paths);
    proof {
        assert(t@ =~= sdscripts_full_toml(*recipe, family, *paths, warmup_steps, train_text_encoder));
    }
    t
}

} // verus!
