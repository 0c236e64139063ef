//! Recipe parameters (the sd-scripts parameter surface the furnace exposes).

use vstd::prelude::*;

use crate::family::ModelFamily;
use crate::number::{real_of, Real};

verus! {

/// Optimizer (names as sd-scripts spells them in configuration files).
#[derive(Debug, Clone, Copy, PartialEq, Eq, Structural)]
pub enum OptimizerKind {
    AdamW,
    AdamW8Bit,
    Adafactor,
    Prodigy,
    Lion,
    Lion8Bit,
    DAdaptAdaGrad,
    CAME,
    SgdNesterov,
}

/// Display label of an optimizer.
pub open spec fn optimizer_label(o: OptimizerKind) -> Seq<char> {
    match o {
        OptimizerKind::AdamW => "AdamW"@,
        OptimizerKind::AdamW8Bit => "AdamW8bit"@,
        OptimizerKind::Adafactor => "Adafactor"@,
        OptimizerKind::Prodigy => "Prodigy"@,
        OptimizerKind::Lion => "Lion"@,
        OptimizerKind::Lion8Bit => "Lion8bit"@,
        OptimizerKind::DAdaptAdaGrad => "DAdaptAdaGrad"@,
        OptimizerKind::CAME => "CAME (pytorch_optimizer)"@,
        OptimizerKind::SgdNesterov => "SGDNesterov"@,
    }
}

impl OptimizerKind {
    pub fn label(&self) -> (r: &'static str)
        ensures
            r@ == optimizer_label(*self),
    {
        match self {
            OptimizerKind::AdamW => "AdamW",
            OptimizerKind::AdamW8Bit => "AdamW8bit",
            OptimizerKind::Adafactor => "Adafactor",
            OptimizerKind::Prodigy => "Prodigy",
            OptimizerKind::Lion => "Lion",
            OptimizerKind::Lion8Bit => "Lion8bit",
            OptimizerKind::DAdaptAdaGrad => "DAdaptAdaGrad",
            OptimizerKind::CAME => "CAME (pytorch_optimizer)",
            OptimizerKind::SgdNesterov => "SGDNesterov",
        }
    }
}

/// Learning-rate scheduler.
#[derive(Debug, Clone, Copy, PartialEq, Eq, Structural)]
pub enum SchedulerKind {
    Constant,
    ConstantWithWarmup,
    Cosine,
    CosineWithRestarts,
    Linear,
    Polynomial,
    InverseSqrt,
}

/// Label of a scheduler (also its sd-scripts name).
pub open spec fn scheduler_label(s: SchedulerKind) -> Seq<char> {
    match s {
        SchedulerKind::Constant => "constant"@,
        SchedulerKind::ConstantWithWarmup => "constant_with_warmup"@,
        SchedulerKind::Cosine => "cosine"@,
        SchedulerKind::CosineWithRestarts => "cosine_with_restarts"@,
        SchedulerKind::Linear => "linear"@,
        SchedulerKind::Polynomial => "polynomial"@,
        SchedulerKind::InverseSqrt => "inverse_sqrt"@,
    }
}

impl SchedulerKind {
    pub fn label(&self) -> (r: &'static str)
        ensures
            r@ == scheduler_label(*self),
    {
        match self {
            SchedulerKind::Constant => "constant",
            SchedulerKind::ConstantWithWarmup => "constant_with_warmup",
            SchedulerKind::Cosine => "cosine",
            SchedulerKind::CosineWithRestarts => "cosine_with_restarts",
            SchedulerKind::Linear => "linear",
            SchedulerKind::Polynomial => "polynomial",
            SchedulerKind::InverseSqrt => "inverse_sqrt",
        }
    }
}

/// LoRA network structure.
#[derive(Debug, Clone, Copy, PartialEq, Eq, Structural)]
pub enum NetworkType {
    Lora,
    Locon,
    Lokr,
    LoHa,
    Ia3,
    DoRa,
    Tlora,
}

/// Display label of a network structure.
pub open spec fn network_label(n: NetworkType) -> Seq<char> {
    match n {
        NetworkType::Lora => "LoRA"@,
        NetworkType::Locon => "LoCon"@,
        NetworkType::Lokr => "LoKr"@,
        NetworkType::LoHa => "LoHa"@,
        NetworkType::Ia3 => "iA3"@,
        NetworkType::DoRa => "DoRA"@,
        NetworkType::Tlora => "T-LoRA"@,
    }
}

impl NetworkType {
    pub fn label(&self) -> (r: &'static str)
        ensures
            r@ == network_label(*self),
    {
        match self {
            NetworkType::Lora => "LoRA",
            NetworkType::Locon => "LoCon",
            NetworkType::Lokr => "LoKr",
            NetworkType::LoHa => "LoHa",
            NetworkType::Ia3 => "iA3",
            NetworkType::DoRa => "DoRA",
            NetworkType::Tlora => "T-LoRA",
        }
    }
}

/// Mixed precision.
#[derive(Debug, Clone, Copy, PartialEq, Eq, Structural)]
pub enum Precision {
    Fp16,
    Bf16,
    Fp32,
}

/// Prediction target (mapped to sd-scripts `v_parameterization` for SDXL).
#[derive(Debug, Clone, Copy, PartialEq, Eq, Structural)]
pub enum PredictionType {
    Epsilon,
    V,
    Sample,
}

/// Display label of a prediction target.
pub open spec fn prediction_label(p: PredictionType) -> Seq<char> {
    match p {
        PredictionType::Epsilon => "epsilon（常规）"@,
        PredictionType::V => "v（速度场）"@,
        PredictionType::Sample => "sample（x0）"@,
    }
}

impl PredictionType {
    pub fn label(&self) -> (r: &'static str)
        ensures
            r@ == prediction_label(*self),
    {
        match self {
            PredictionType::Epsilon => "epsilon（常规）",
            PredictionType::V => "v（速度场）",
            PredictionType::Sample => "sample（x0）",
        }
    }
}

/// Recipe data.
#[derive(Debug, Clone)]
pub struct RecipeData {
    // ---- basics ----
    pub learning_rate: Real,
    pub text_encoder_lr: Option<Real>,
    pub unet_lr: Option<Real>,
    pub optimizer: OptimizerKind,
    pub lr_scheduler: SchedulerKind,
    /// Warm-up as a share of all steps (0..1).
    pub lr_warmup_ratio: Real,
    pub network_dim: u32,
    pub network_alpha: u32,
    pub network_type: NetworkType,
    pub max_train_epochs: u32,
    pub batch_size: u32,
    pub resolution: u32,
    pub enable_bucket: bool,
    // ---- caching and precision ----
    pub cache_latents: bool,
    pub cache_text_encoder_outputs: bool,
    pub mixed_precision: Precision,
    pub gradient_checkpointing: bool,
    pub gradient_accumulation_steps: u32,
    pub max_grad_norm: Real,
    pub seed: u64,
    // ---- quality tricks ----
    pub min_snr_gamma: Option<Real>,
    pub noise_offset: Option<Real>,
    pub shuffle_caption: bool,
    pub keep_tokens: u32,
    pub caption_dropout_rate: Option<Real>,
    // ---- saving and sampling ----
    pub save_every_n_epochs: u32,
    pub sample_every_n_epochs: u32,
    pub sample_prompts: Vec<String>,
    pub sample_sampler: String,
    // ---- advanced ----
    pub network_dropout: Option<Real>,
    pub rank_dropout: Option<Real>,
    pub module_dropout: Option<Real>,
    pub conv_dim: Option<u32>,
    pub conv_alpha: Option<u32>,
    pub num_repeats: Option<u32>,
    pub max_train_steps: Option<u32>,
    pub save_every_n_steps: Option<u32>,
    pub save_state: bool,
    pub save_last_n_states: Option<u32>,
    pub zero_terminal_snr: bool,
    pub adaptive_noise_scale: Option<Real>,
    pub multires_noise_iterations: Option<u32>,
    pub multires_noise_discount: Option<Real>,
    pub min_timestep: Option<u32>,
    pub max_timestep: Option<u32>,
    pub clip_skip: Option<u32>,
    pub max_token_length: Option<u32>,
    pub sample_steps: Option<u32>,
    pub guidance_scale: Option<Real>,
    pub negative_prompt: Option<String>,
    pub cache_text_encoder_outputs_to_disk: bool,
    // ---- SDXL family only ----
    pub block_weights: Option<String>,
    pub trigger_word: Option<String>,
    pub prediction_type: Option<PredictionType>,
    // ---- text encoder training ----
    pub train_text_encoder: Option<bool>,
    // ---- extended sd-scripts keys ----
    pub network_weights: Option<String>,
    pub scale_weight_norms: Option<Real>,
    pub network_args_custom: Vec<String>,
    pub optimizer_args_custom: Vec<String>,
    pub reg_data_dir: Option<String>,
    pub min_bucket_reso: Option<u32>,
    pub max_bucket_reso: Option<u32>,
    pub bucket_reso_steps: Option<u32>,
    pub bucket_no_upscale: Option<bool>,
    pub weighted_captions: Option<bool>,
    pub caption_dropout_every_n_epochs: Option<u32>,
    pub caption_tag_dropout_rate: Option<Real>,
    pub persistent_data_loader_workers: Option<bool>,
    pub vae_batch_size: Option<u32>,
    pub prior_loss_weight: Option<Real>,
    pub loss_type: Option<String>,
    pub lr_scheduler_num_cycles: Option<u32>,
    pub full_fp16: Option<bool>,
    pub full_bf16: Option<bool>,
    pub no_half_vae: Option<bool>,
    pub xformers: Option<bool>,
    pub lowram: Option<bool>,
    pub save_precision: Option<String>,
    pub save_last_n_epochs_state: Option<u32>,
    // ---- fields the front end stores with a recipe ----
    pub model_path: Option<String>,
    pub vae_path: Option<String>,
    pub te_path: Option<String>,
    pub dataset_dir: Option<String>,
    pub full_finetune: Option<bool>,
}

impl RecipeData {
    /// Every known family can carry a recipe.
    pub fn family_supported(family: ModelFamily) -> (r: bool)
        ensures
            r,
    {
        match family {
            ModelFamily::Sdxl1 | ModelFamily::DitAnima | ModelFamily::DitKrea2 => true,
        }
    }
}

/// The default recipe: a valid SDXL starting point.
pub open spec fn is_default_recipe(d: RecipeData) -> bool {
    &&& d.learning_rate.bits == 0x3F1A36E2EB1C432D && d.learning_rate.text@ == "0.0001"@
    &&& d.text_encoder_lr is Some && d.text_encoder_lr->0.bits == 0x3F0A36E2EB1C432D && d.text_encoder_lr->0.text@ == "0.00005"@
    &&& d.unet_lr is None
    &&& d.optimizer == OptimizerKind::AdamW8Bit
    &&& d.lr_scheduler == SchedulerKind::Cosine
    &&& d.lr_warmup_ratio.bits == 0x3FB999999999999A && d.lr_warmup_ratio.text@ == "0.1"@
    &&& d.network_dim == 16
    &&& d.network_alpha == 16
    &&& d.network_type == NetworkType::Lora
    &&& d.max_train_epochs == 10
    &&& d.batch_size == 1
    &&& d.resolution == 1024
    &&& d.enable_bucket
    &&& d.cache_latents
    &&& d.cache_text_encoder_outputs
    &&& d.mixed_precision == Precision::Bf16
    &&& d.gradient_checkpointing
    &&& d.gradient_accumulation_steps == 1
    &&& d.max_grad_norm.bits == 0x3FF0000000000000 && d.max_grad_norm.text@ == "1"@
    &&& d.seed == 42
    &&& d.min_snr_gamma is Some && d.min_snr_gamma->0.bits == 0x4014000000000000 && d.min_snr_gamma->0.text@ == "5"@
    &&& d.noise_offset is None
    &&& d.shuffle_caption
    &&& d.keep_tokens == 1
    &&& d.caption_dropout_rate is Some && d.caption_dropout_rate->0.bits == 0x3FA999999999999A && d.caption_dropout_rate->0.text@ == "0.05"@
    &&& d.save_every_n_epochs == 1
    &&& d.sample_every_n_epochs == 5
    &&& d.sample_prompts@.len() == 1 && d.sample_prompts@[0]@ == "1girl, masterpiece, best quality"@
    &&& d.sample_sampler@ == "euler_a"@
    &&& d.network_dropout is None
    &&& d.rank_dropout is None
    &&& d.module_dropout is None
    &&& d.conv_dim is None
    &&& d.conv_alpha is None
    &&& d.num_repeats is None
    &&& d.max_train_steps is None
    &&& d.save_every_n_steps is None
    &&& !d.save_state
    &&& d.save_last_n_states is None
    &&& !d.zero_terminal_snr
    &&& d.adaptive_noise_scale is None
    &&& d.multires_noise_iterations is None
    &&& d.multires_noise_discount is None
    &&& d.min_timestep is None
    &&& d.max_timestep is None
    &&& d.clip_skip is None
    &&& d.max_token_length is None
    &&& d.sample_steps is None
    &&& d.guidance_scale is None
    &&& d.negative_prompt is None
    &&& !d.cache_text_encoder_outputs_to_disk
    &&& d.block_weights is None
    &&& d.trigger_word is None
    &&& d.prediction_type is None
    &&& d.train_text_encoder is None
    &&& d.network_weights is None
    &&& d.scale_weight_norms is None
    &&& d.network_args_custom@.len() == 0
    &&& d.optimizer_args_custom@.len() == 0
    &&& d.reg_data_dir is None
    &&& d.min_bucket_reso is None
    &&& d.max_bucket_reso is None
    &&& d.bucket_reso_steps is None
    &&& d.bucket_no_upscale is None
    &&& d.weighted_captions is None
    &&& d.caption_dropout_every_n_epochs is None
    &&& d.caption_tag_dropout_rate is None
    &&& d.persistent_data_loader_workers is None
    &&& d.vae_batch_size is None
    &&& d.prior_loss_weight is None
    &&& d.loss_type is None
    &&& d.lr_scheduler_num_cycles is None
    &&& d.full_fp16 is None
    &&& d.full_bf16 is None
    &&& d.no_half_vae is None
    &&& d.xformers is None
    &&& d.lowram is None
    &&& d.save_precision is None
    &&& d.save_last_n_epochs_state is None
    &&& d.model_path is None
    &&& d.vae_path is None
    &&& d.te_path is None
    &&& d.dataset_dir is None
    &&& d.full_finetune is None
}

impl Default for RecipeData {
    fn default() -> (d: Self)
        ensures
            is_default_recipe(d),
    {
        RecipeData {
        learning_rate: real_of(0x3F1A36E2EB1C432D, "0.0001"),
        text_encoder_lr: Some(real_of(0x3F0A36E2EB1C432D, "0.00005")),
        unet_lr: None,
        optimizer: OptimizerKind::AdamW8Bit,
        lr_scheduler: SchedulerKind::Cosine,
        lr_warmup_ratio: real_of(0x3FB999999999999A, "0.1"),
        network_dim: 16,
        network_alpha: 16,
        network_type: NetworkType::Lora,
        max_train_epochs: 10,
        batch_size: 1,
        resolution: 1024,
        enable_bucket: true,
        cache_latents: true,
        cache_text_encoder_outputs: true,
        mixed_precision: Precision::Bf16,
        gradient_checkpointing: true,
        gradient_accumulation_steps: 1,
        max_grad_norm: real_of(0x3FF0000000000000, "1"),
        seed: 42,
        min_snr_gamma: Some(real_of(0x4014000000000000, "5")),
        noise_offset: None,
        shuffle_caption: true,
        keep_tokens: 1,
        caption_dropout_rate: Some(real_of(0x3FA999999999999A, "0.05")),
        save_every_n_epochs: 1,
        sample_every_n_epochs: 5,
        sample_prompts: vec![String::from_str("1girl, masterpiece, best quality")],
        sample_sampler: String::from_str("euler_a"),
        network_dropout: None,
        rank_dropout: None,
        module_dropout: None,
        conv_dim: None,
        conv_alpha: None,
        num_repeats: None,
        max_train_steps: None,
        save_every_n_steps: None,
        save_state: false,
        save_last_n_states: None,
        zero_terminal_snr: false,
        adaptive_noise_scale: None,
        multires_noise_iterations: None,
        multires_noise_discount: None,
        min_timestep: None,
        max_timestep: None,
        clip_skip: None,
        max_token_length: None,
        sample_steps: None,
        guidance_scale: None,
        negative_prompt: None,
        cache_text_encoder_outputs_to_disk: false,
        block_weights: None,
        trigger_word: None,
        prediction_type: None,
        train_text_encoder: None,
        network_weights: None,
        scale_weight_norms: None,
        network_args_custom: vec![],
        optimizer_args_custom: vec![],
        reg_data_dir: None,
        min_bucket_reso: None,
        max_bucket_reso: None,
        bucket_reso_steps: None,
        bucket_no_upscale: None,
        weighted_captions: None,
        caption_dropout_every_n_epochs: None,
        caption_tag_dropout_rate: None,
        persistent_data_loader_workers: None,
        vae_batch_size: None,
        prior_loss_weight: None,
        loss_type: None,
        lr_scheduler_num_cycles: None,
        full_fp16: None,
        full_bf16: None,
        no_half_vae: None,
        xformers: None,
        lowram: None,
        save_precision: None,
        save_last_n_epochs_state: None,
        model_path: None,
        vae_path: None,
        te_path: None,
        dataset_dir: None,
        full_finetune: None,
    }
    }
}

} // verus!
