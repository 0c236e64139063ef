//! Built-in presets: one tested starting point per model family.

use vstd::prelude::*;

use crate::family::ModelFamily;
use crate::number::{lemma_positive_finite, real_of};
use crate::recipe::file::{is_new_meta, RecipeFile};
use crate::recipe::schema::{NetworkType, OptimizerKind, Precision, RecipeData, SchedulerKind};
use crate::number::{TENTH_BITS, ZERO_BITS};
use crate::recipe::validate::{
    cache_findings, has_error, lemma_has_error_concat, lemma_lr_no_error, lr_findings, network_findings,
    other_findings, recipe_findings, run_findings, scale_findings,
};

verus! {

/// Data of the SDXL entry preset (NoobAI / Illusion).
pub open spec fn is_sdxl_noobai_entry_data(d: RecipeData) -> bool {
    &&& d.learning_rate.bits == 0x3F1A36E2EB1C432D && d.learning_rate.text@ == "0.0001"@
    &&& d.text_encoder_lr is Some && d.text_encoder_lr->0.bits == 0x3F0A36E2EB1C432D && d.text_encoder_lr->0.text@ == "0.00005"@
    &&& d.unet_lr is None
    &&& d.optimizer == OptimizerKind::AdamW8Bit
    &&& d.lr_scheduler == SchedulerKind::Cosine
    &&& d.lr_warmup_ratio.bits == 0x3FB999999999999A && d.lr_warmup_ratio.text@ == "0.1"@
    &&& d.network_dim == 16
    &&& d.network_alpha == 16
    &&& d.network_type == NetworkType::Lora
    &&& d.max_train_epochs == 10
    &&& d.batch_size == 1
    &&& d.resolution == 1024
    &&& d.enable_bucket
    &&& d.cache_latents
    &&& d.cache_text_encoder_outputs
    &&& d.mixed_precision == Precision::Bf16
    &&& d.gradient_checkpointing
    &&& d.gradient_accumulation_steps == 1
    &&& d.max_grad_norm.bits == 0x3FF0000000000000 && d.max_grad_norm.text@ == "1"@
    &&& d.seed == 42
    &&& d.min_snr_gamma is Some && d.min_snr_gamma->0.bits == 0x4014000000000000 && d.min_snr_gamma->0.text@ == "5"@
    &&& d.noise_offset is None
    &&& d.shuffle_caption
    &&& d.keep_tokens == 1
    &&& d.caption_dropout_rate is Some && d.caption_dropout_rate->0.bits == 0x3FA999999999999A && d.caption_dropout_rate->0.text@ == "0.05"@
    &&& d.save_every_n_epochs == 1
    &&& d.sample_every_n_epochs == 5
    &&& d.sample_prompts@.len() == 1 && d.sample_prompts@[0]@ == "1girl, masterpiece, best quality, detailed"@
    &&& d.sample_sampler@ == "euler_a"@
    &&& d.network_dropout is None
    &&& d.rank_dropout is None
    &&& d.module_dropout is None
    &&& d.conv_dim is None
    &&& d.conv_alpha is None
    &&& d.num_repeats is None
    &&& d.max_train_steps is None
    &&& d.save_every_n_steps is None
    &&& !d.save_state
    &&& d.save_last_n_states is None
    &&& !d.zero_terminal_snr
    &&& d.adaptive_noise_scale is None
    &&& d.multires_noise_iterations is None
    &&& d.multires_noise_discount is None
    &&& d.min_timestep is None
    &&& d.max_timestep is None
    &&& d.clip_skip is None
    &&& d.max_token_length is None
    &&& d.sample_steps is None
    &&& d.guidance_scale is None
    &&& d.negative_prompt is None
    &&& !d.cache_text_encoder_outputs_to_disk
    &&& d.block_weights is None
    &&& d.trigger_word is None
    &&& d.prediction_type is None
    &&& d.train_text_encoder is None
    &&& d.network_weights is None
    &&& d.scale_weight_norms is None
    &&& d.network_args_custom@.len() == 0
    &&& d.optimizer_args_custom@.len() == 0
    &&& d.reg_data_dir is None
    &&& d.min_bucket_reso is None
    &&& d.max_bucket_reso is None
    &&& d.bucket_reso_steps is None
    &&& d.bucket_no_upscale is None
    &&& d.weighted_captions is None
    &&& d.caption_dropout_every_n_epochs is None
    &&& d.caption_tag_dropout_rate is None
    &&& d.persistent_data_loader_workers is None
    &&& d.vae_batch_size is None
    &&& d.prior_loss_weight is None
    &&& d.loss_type is None
    &&& d.lr_scheduler_num_cycles is None
    &&& d.full_fp16 is None
    &&& d.full_bf16 is None
    &&& d.no_half_vae is None
    &&& d.xformers is None
    &&& d.lowram is None
    &&& d.save_precision is None
    &&& d.save_last_n_epochs_state is None
    &&& d.model_path is None
    &&& d.vae_path is None
    &&& d.te_path is None
    &&& d.dataset_dir is None
    &&& d.full_finetune is None
}

/// The preset "SDXL 入门（NoobAI/Illusion）".
pub fn sdxl_noobai_entry() -> (r: RecipeFile)
    ensures
        r.meta.name@ == "SDXL 入门（NoobAI/Illusion）"@,
        is_new_meta(r.meta, ModelFamily::Sdxl1),
        is_sdxl_noobai_entry_data(r.data),
{
    let data = RecipeData {
            learning_rate: real_of(0x3F1A36E2EB1C432D, "0.0001"),
            text_encoder_lr: Some(real_of(0x3F0A36E2EB1C432D, "0.00005")),
            unet_lr: None,
            optimizer: OptimizerKind::AdamW8Bit,
            lr_scheduler: SchedulerKind::Cosine,
            lr_warmup_ratio: real_of(0x3FB999999999999A, "0.1"),
            network_dim: 16,
            network_alpha: 16,
            network_type: NetworkType::Lora,
            max_train_epochs: 10,
            batch_size: 1,
            resolution: 1024,
            enable_bucket: true,
            cache_latents: true,
            cache_text_encoder_outputs: true,
            mixed_precision: Precision::Bf16,
            gradient_checkpointing: true,
            gradient_accumulation_steps: 1,
            max_grad_norm: real_of(0x3FF0000000000000, "1"),
            seed: 42,
            min_snr_gamma: Some(real_of(0x4014000000000000, "5")),
            noise_offset: None,
            shuffle_caption: true,
            keep_tokens: 1,
            caption_dropout_rate: Some(real_of(0x3FA999999999999A, "0.05")),
            save_every_n_epochs: 1,
            sample_every_n_epochs: 5,
            sample_prompts: vec![String::from_str("1girl, masterpiece, best quality, detailed")],
            sample_sampler: String::from_str("euler_a"),
            network_dropout: None,
            rank_dropout: None,
            module_dropout: None,
            conv_dim: None,
            conv_alpha: None,
            num_repeats: None,
            max_train_steps: None,
            save_every_n_steps: None,
            save_state: false,
            save_last_n_states: None,
            zero_terminal_snr: false,
            adaptive_noise_scale: None,
            multires_noise_iterations: None,
            multires_noise_discount: None,
            min_timestep: None,
            max_timestep: None,
            clip_skip: None,
            max_token_length: None,
            sample_steps: None,
            guidance_scale: None,
            negative_prompt: None,
            cache_text_encoder_outputs_to_disk: false,
            block_weights: None,
            trigger_word: None,
            prediction_type: None,
            train_text_encoder: None,
            network_weights: None,
            scale_weight_norms: None,
            network_args_custom: vec![],
            optimizer_args_custom: vec![],
            reg_data_dir: None,
            min_bucket_reso: None,
            max_bucket_reso: None,
            bucket_reso_steps: None,
            bucket_no_upscale: None,
            weighted_captions: None,
            caption_dropout_every_n_epochs: None,
            caption_tag_dropout_rate: None,
            persistent_data_loader_workers: None,
            vae_batch_size: None,
            prior_loss_weight: None,
            loss_type: None,
            lr_scheduler_num_cycles: None,
            full_fp16: None,
            full_bf16: None,
            no_half_vae: None,
            xformers: None,
            lowram: None,
            save_precision: None,
            save_last_n_epochs_state: None,
            model_path: None,
            vae_path: None,
            te_path: None,
            dataset_dir: None,
            full_finetune: None,
        };
    RecipeFile::new("SDXL 入门（NoobAI/Illusion）", ModelFamily::Sdxl1, data)
}

/// Data of the SDXL advanced preset (low LR, LoCon, block weights).
pub open spec fn is_sdxl_advanced_data(d: RecipeData) -> bool {
    &&& d.learning_rate.bits == 0x3F14F8B588E368F1 && d.learning_rate.text@ == "0.00008"@
    &&& d.text_encoder_lr is Some && d.text_encoder_lr->0.bits == 0x3EF4F8B588E368F1 && d.text_encoder_lr->0.text@ == "0.00002"@
    &&& d.unet_lr is None
    &&& d.optimizer == OptimizerKind::Prodigy
    &&& d.lr_scheduler == SchedulerKind::ConstantWithWarmup
    &&& d.lr_warmup_ratio.bits == 0x3FA999999999999A && d.lr_warmup_ratio.text@ == "0.05"@
    &&& d.network_dim == 32
    &&& d.network_alpha == 16
    &&& d.network_type == NetworkType::Locon
    &&& d.max_train_epochs == 20
    &&& d.batch_size == 1
    &&& d.resolution == 1024
    &&& d.enable_bucket
    &&& d.cache_latents
    &&& d.cache_text_encoder_outputs
    &&& d.mixed_precision == Precision::Bf16
    &&& d.gradient_checkpointing
    &&& d.gradient_accumulation_steps == 2
    &&& d.max_grad_norm.bits == 0x3FF0000000000000 && d.max_grad_norm.text@ == "1"@
    &&& d.seed == 42
    &&& d.min_snr_gamma is Some && d.min_snr_gamma->0.bits == 0x4014000000000000 && d.min_snr_gamma->0.text@ == "5"@
    &&& d.noise_offset is Some && d.noise_offset->0.bits == 0x3F947AE147AE147B && d.noise_offset->0.text@ == "0.02"@
    &&& d.shuffle_caption
    &&& d.keep_tokens == 1
    &&& d.caption_dropout_rate is Some && d.caption_dropout_rate->0.bits == 0x3FB999999999999A && d.caption_dropout_rate->0.text@ == "0.1"@
    &&& d.save_every_n_epochs == 1
    &&& d.sample_every_n_epochs == 2
    &&& d.sample_prompts@.len() == 2 && d.sample_prompts@[0]@ == "1girl, masterpiece, best quality, detailed"@ && d.sample_prompts@[1]@ == "1boy, masterpiece, best quality"@
    &&& d.sample_sampler@ == "euler_a"@
    &&& d.network_dropout is None
    &&& d.rank_dropout is None
    &&& d.module_dropout is None
    &&& d.conv_dim is None
    &&& d.conv_alpha is None
    &&& d.num_repeats is None
    &&& d.max_train_steps is None
    &&& d.save_every_n_steps is None
    &&& !d.save_state
    &&& d.save_last_n_states is None
    &&& !d.zero_terminal_snr
    &&& d.adaptive_noise_scale is None
    &&& d.multires_noise_iterations is None
    &&& d.multires_noise_discount is None
    &&& d.min_timestep is None
    &&& d.max_timestep is None
    &&& d.clip_skip is None
    &&& d.max_token_length is None
    &&& d.sample_steps is None
    &&& d.guidance_scale is None
    &&& d.negative_prompt is None
    &&& !d.cache_text_encoder_outputs_to_disk
    &&& d.block_weights is Some && d.block_weights->0@ == "0,0,0,0,0,0,0,0,0,0,1,1,1,1,1,0,0,0,0,0,0,0,0,0,1"@
    &&& d.trigger_word is None
    &&& d.prediction_type is None
    &&& d.train_text_encoder is None
    &&& d.network_weights is None
    &&& d.scale_weight_norms is None
    &&& d.network_args_custom@.len() == 0
    &&& d.optimizer_args_custom@.len() == 0
    &&& d.reg_data_dir is None
    &&& d.min_bucket_reso is None
    &&& d.max_bucket_reso is None
    &&& d.bucket_reso_steps is None
    &&& d.bucket_no_upscale is None
    &&& d.weighted_captions is None
    &&& d.caption_dropout_every_n_epochs is None
    &&& d.caption_tag_dropout_rate is None
    &&& d.persistent_data_loader_workers is None
    &&& d.vae_batch_size is None
    &&& d.prior_loss_weight is None
    &&& d.loss_type is None
    &&& d.lr_scheduler_num_cycles is None
    &&& d.full_fp16 is None
    &&& d.full_bf16 is None
    &&& d.no_half_vae is None
    &&& d.xformers is None
    &&& d.lowram is None
    &&& d.save_precision is None
    &&& d.save_last_n_epochs_state is None
    &&& d.model_path is None
    &&& d.vae_path is None
    &&& d.te_path is None
    &&& d.dataset_dir is None
    &&& d.full_finetune is None
}

/// The preset "SDXL 进阶（低 LR + LoCon + 块权重）".
pub fn sdxl_advanced() -> (r: RecipeFile)
    ensures
        r.meta.name@ == "SDXL 进阶（低 LR + LoCon + 块权重）"@,
        is_new_meta(r.meta, ModelFamily::Sdxl1),
        is_sdxl_advanced_data(r.data),
{
    let data = RecipeData {
            learning_rate: real_of(0x3F14F8B588E368F1, "0.00008"),
            text_encoder_lr: Some(real_of(0x3EF4F8B588E368F1, "0.00002")),
            unet_lr: None,
            optimizer: OptimizerKind::Prodigy,
            lr_scheduler: SchedulerKind::ConstantWithWarmup,
            lr_warmup_ratio: real_of(0x3FA999999999999A, "0.05"),
            network_dim: 32,
            network_alpha: 16,
            network_type: NetworkType::Locon,
            max_train_epochs: 20,
            batch_size: 1,
            resolution: 1024,
            enable_bucket: true,
            cache_latents: true,
            cache_text_encoder_outputs: true,
            mixed_precision: Precision::Bf16,
            gradient_checkpointing: true,
            gradient_accumulation_steps: 2,
            max_grad_norm: real_of(0x3FF0000000000000, "1"),
            seed: 42,
            min_snr_gamma: Some(real_of(0x4014000000000000, "5")),
            noise_offset: Some(real_of(0x3F947AE147AE147B, "0.02")),
            shuffle_caption: true,
            keep_tokens: 1,
            caption_dropout_rate: Some(real_of(0x3FB999999999999A, "0.1")),
            save_every_n_epochs: 1,
            sample_every_n_epochs: 2,
            sample_prompts: vec![String::from_str("1girl, masterpiece, best quality, detailed"), String::from_str("1boy, masterpiece, best quality")],
            sample_sampler: String::from_str("euler_a"),
            network_dropout: None,
            rank_dropout: None,
            module_dropout: None,
            conv_dim: None,
            conv_alpha: None,
            num_repeats: None,
            max_train_steps: None,
            save_every_n_steps: None,
            save_state: false,
            save_last_n_states: None,
            zero_terminal_snr: false,
            adaptive_noise_scale: None,
            multires_noise_iterations: None,
            multires_noise_discount: None,
            min_timestep: None,
            max_timestep: None,
            clip_skip: None,
            max_token_length: None,
            sample_steps: None,
            guidance_scale: None,
            negative_prompt: None,
            cache_text_encoder_outputs_to_disk: false,
            block_weights: Some(String::from_str("0,0,0,0,0,0,0,0,0,0,1,1,1,1,1,0,0,0,0,0,0,0,0,0,1")),
            trigger_word: None,
            prediction_type: None,
            train_text_encoder: None,
            network_weights: None,
            scale_weight_norms: None,
            network_args_custom: vec![],
            optimizer_args_custom: vec![],
            reg_data_dir: None,
            min_bucket_reso: None,
            max_bucket_reso: None,
            bucket_reso_steps: None,
            bucket_no_upscale: None,
            weighted_captions: None,
            caption_dropout_every_n_epochs: None,
            caption_tag_dropout_rate: None,
            persistent_data_loader_workers: None,
            vae_batch_size: None,
            prior_loss_weight: None,
            loss_type: None,
            lr_scheduler_num_cycles: None,
            full_fp16: None,
            full_bf16: None,
            no_half_vae: None,
            xformers: None,
            lowram: None,
            save_precision: None,
            save_last_n_epochs_state: None,
            model_path: None,
            vae_path: None,
            te_path: None,
            dataset_dir: None,
            full_finetune: None,
        };
    RecipeFile::new("SDXL 进阶（低 LR + LoCon + 块权重）", ModelFamily::Sdxl1, data)
}

/// Data of the Anima entry preset.
pub open spec fn is_anima_entry_data(d: RecipeData) -> bool {
    &&& d.learning_rate.bits == 0x3F1A36E2EB1C432D && d.learning_rate.text@ == "0.0001"@
    &&& d.text_encoder_lr is None
    &&& d.unet_lr is None
    &&& d.optimizer == OptimizerKind::AdamW8Bit
    &&& d.lr_scheduler == SchedulerKind::Cosine
    &&& d.lr_warmup_ratio.bits == 0x3FB999999999999A && d.lr_warmup_ratio.text@ == "0.1"@
    &&& d.network_dim == 16
    &&& d.network_alpha == 16
    &&& d.network_type == NetworkType::Lora
    &&& d.max_train_epochs == 10
    &&& d.batch_size == 1
    &&& d.resolution == 1024
    &&& d.enable_bucket
    &&& d.cache_latents
    &&& d.cache_text_encoder_outputs
    &&& d.mixed_precision == Precision::Bf16
    &&& d.gradient_checkpointing
    &&& d.gradient_accumulation_steps == 1
    &&& d.max_grad_norm.bits == 0x3FF0000000000000 && d.max_grad_norm.text@ == "1"@
    &&& d.seed == 42
    &&& d.min_snr_gamma is None
    &&& d.noise_offset is None
    &&& d.shuffle_caption
    &&& d.keep_tokens == 1
    &&& d.caption_dropout_rate is Some && d.caption_dropout_rate->0.bits == 0x3FA999999999999A && d.caption_dropout_rate->0.text@ == "0.05"@
    &&& d.save_every_n_epochs == 1
    &&& d.sample_every_n_epochs == 5
    &&& d.sample_prompts@.len() == 1 && d.sample_prompts@[0]@ == "1girl, masterpiece, best quality, detailed"@
    &&& d.sample_sampler@ == "euler"@
    &&& d.network_dropout is None
    &&& d.rank_dropout is None
    &&& d.module_dropout is None
    &&& d.conv_dim is None
    &&& d.conv_alpha is None
    &&& d.num_repeats is None
    &&& d.max_train_steps is None
    &&& d.save_every_n_steps is None
    &&& !d.save_state
    &&& d.save_last_n_states is None
    &&& !d.zero_terminal_snr
    &&& d.adaptive_noise_scale is None
    &&& d.multires_noise_iterations is None
    &&& d.multires_noise_discount is None
    &&& d.min_timestep is None
    &&& d.max_timestep is None
    &&& d.clip_skip is None
    &&& d.max_token_length is None
    &&& d.sample_steps is None
    &&& d.guidance_scale is None
    &&& d.negative_prompt is None
    &&& !d.cache_text_encoder_outputs_to_disk
    &&& d.block_weights is None
    &&& d.trigger_word is None
    &&& d.prediction_type is None
    &&& d.train_text_encoder is None
    &&& d.network_weights is None
    &&& d.scale_weight_norms is None
    &&& d.network_args_custom@.len() == 0
    &&& d.optimizer_args_custom@.len() == 0
    &&& d.reg_data_dir is None
    &&& d.min_bucket_reso is None
    &&& d.max_bucket_reso is None
    &&& d.bucket_reso_steps is None
    &&& d.bucket_no_upscale is None
    &&& d.weighted_captions is None
    &&& d.caption_dropout_every_n_epochs is None
    &&& d.caption_tag_dropout_rate is None
    &&& d.persistent_data_loader_workers is None
    &&& d.vae_batch_size is None
    &&& d.prior_loss_weight is None
    &&& d.loss_type is None
    &&& d.lr_scheduler_num_cycles is None
    &&& d.full_fp16 is None
    &&& d.full_bf16 is None
    &&& d.no_half_vae is None
    &&& d.xformers is None
    &&& d.lowram is None
    &&& d.save_precision is None
    &&& d.save_last_n_epochs_state is None
    &&& d.model_path is None
    &&& d.vae_path is None
    &&& d.te_path is None
    &&& d.dataset_dir is None
    &&& d.full_finetune is None
}

/// The preset "Anima 入门（DiT）".
pub fn anima_entry() -> (r: RecipeFile)
    ensures
        r.meta.name@ == "Anima 入门（DiT）"@,
        is_new_meta(r.meta, ModelFamily::DitAnima),
        is_anima_entry_data(r.data),
{
    let data = RecipeData {
            learning_rate: real_of(0x3F1A36E2EB1C432D, "0.0001"),
            text_encoder_lr: None,
            unet_lr: None,
            optimizer: OptimizerKind::AdamW8Bit,
            lr_scheduler: SchedulerKind::Cosine,
            lr_warmup_ratio: real_of(0x3FB999999999999A, "0.1"),
            network_dim: 16,
            network_alpha: 16,
            network_type: NetworkType::Lora,
            max_train_epochs: 10,
            batch_size: 1,
            resolution: 1024,
            enable_bucket: true,
            cache_latents: true,
            cache_text_encoder_outputs: true,
            mixed_precision: Precision::Bf16,
            gradient_checkpointing: true,
            gradient_accumulation_steps: 1,
            max_grad_norm: real_of(0x3FF0000000000000, "1"),
            seed: 42,
            min_snr_gamma: None,
            noise_offset: None,
            shuffle_caption: true,
            keep_tokens: 1,
            caption_dropout_rate: Some(real_of(0x3FA999999999999A, "0.05")),
            save_every_n_epochs: 1,
            sample_every_n_epochs: 5,
            sample_prompts: vec![String::from_str("1girl, masterpiece, best quality, detailed")],
            sample_sampler: String::from_str("euler"),
            network_dropout: None,
            rank_dropout: None,
            module_dropout: None,
            conv_dim: None,
            conv_alpha: None,
            num_repeats: None,
            max_train_steps: None,
            save_every_n_steps: None,
            save_state: false,
            save_last_n_states: None,
            zero_terminal_snr: false,
            adaptive_noise_scale: None,
            multires_noise_iterations: None,
            multires_noise_discount: None,
            min_timestep: None,
            max_timestep: None,
            clip_skip: None,
            max_token_length: None,
            sample_steps: None,
            guidance_scale: None,
            negative_prompt: None,
            cache_text_encoder_outputs_to_disk: false,
            block_weights: None,
            trigger_word: None,
            prediction_type: None,
            train_text_encoder: None,
            network_weights: None,
            scale_weight_norms: None,
            network_args_custom: vec![],
            optimizer_args_custom: vec![],
            reg_data_dir: None,
            min_bucket_reso: None,
            max_bucket_reso: None,
            bucket_reso_steps: None,
            bucket_no_upscale: None,
            weighted_captions: None,
            caption_dropout_every_n_epochs: None,
            caption_tag_dropout_rate: None,
            persistent_data_loader_workers: None,
            vae_batch_size: None,
            prior_loss_weight: None,
            loss_type: None,
            lr_scheduler_num_cycles: None,
            full_fp16: None,
            full_bf16: None,
            no_half_vae: None,
            xformers: None,
            lowram: None,
            save_precision: None,
            save_last_n_epochs_state: None,
            model_path: None,
            vae_path: None,
            te_path: None,
            dataset_dir: None,
            full_finetune: None,
        };
    RecipeFile::new("Anima 入门（DiT）", ModelFamily::DitAnima, data)
}

/// Data of the Krea 2 entry preset.
pub open spec fn is_krea2_entry_data(d: RecipeData) -> bool {
    &&& d.learning_rate.bits == 0x3F40624DD2F1A9FC && d.learning_rate.text@ == "0.0005"@
    &&& d.text_encoder_lr is None
    &&& d.unet_lr is None
    &&& d.optimizer == OptimizerKind::AdamW
    &&& d.lr_scheduler == SchedulerKind::ConstantWithWarmup
    &&& d.lr_warmup_ratio.bits == 0x3FA999999999999A && d.lr_warmup_ratio.text@ == "0.05"@
    &&& d.network_dim == 16
    &&& d.network_alpha == 16
    &&& d.network_type == NetworkType::Lora
    &&& d.max_train_epochs == 10
    &&& d.batch_size == 1
    &&& d.resolution == 1024
    &&& d.enable_bucket
    &&& d.cache_latents
    &&& d.cache_text_encoder_outputs
    &&& d.mixed_precision == Precision::Bf16
    &&& d.gradient_checkpointing
    &&& d.gradient_accumulation_steps == 1
    &&& d.max_grad_norm.bits == 0x3FF0000000000000 && d.max_grad_norm.text@ == "1"@
    &&& d.seed == 42
    &&& d.min_snr_gamma is None
    &&& d.noise_offset is None
    &&& d.shuffle_caption
    &&& d.keep_tokens == 1
    &&& d.caption_dropout_rate is Some && d.caption_dropout_rate->0.bits == 0x3FA999999999999A && d.caption_dropout_rate->0.text@ == "0.05"@
    &&& d.save_every_n_epochs == 1
    &&& d.sample_every_n_epochs == 5
    &&& d.sample_prompts@.len() == 1 && d.sample_prompts@[0]@ == "a beautiful scene, masterpiece"@
    &&& d.sample_sampler@ == "euler"@
    &&& d.network_dropout is None
    &&& d.rank_dropout is None
    &&& d.module_dropout is None
    &&& d.conv_dim is None
    &&& d.conv_alpha is None
    &&& d.num_repeats is None
    &&& d.max_train_steps is None
    &&& d.save_every_n_steps is None
    &&& !d.save_state
    &&& d.save_last_n_states is None
    &&& !d.zero_terminal_snr
    &&& d.adaptive_noise_scale is None
    &&& d.multires_noise_iterations is None
    &&& d.multires_noise_discount is None
    &&& d.min_timestep is None
    &&& d.max_timestep is None
    &&& d.clip_skip is None
    &&& d.max_token_length is None
    &&& d.sample_steps is None
    &&& d.guidance_scale is None
    &&& d.negative_prompt is None
    &&& !d.cache_text_encoder_outputs_to_disk
    &&& d.block_weights is None
    &&& d.trigger_word is None
    &&& d.prediction_type is None
    &&& d.train_text_encoder is None
    &&& d.network_weights is None
    &&& d.scale_weight_norms is None
    &&& d.network_args_custom@.len() == 0
    &&& d.optimizer_args_custom@.len() == 0
    &&& d.reg_data_dir is None
    &&& d.min_bucket_reso is None
    &&& d.max_bucket_reso is None
    &&& d.bucket_reso_steps is None
    &&& d.bucket_no_upscale is None
    &&& d.weighted_captions is None
    &&& d.caption_dropout_every_n_epochs is None
    &&& d.caption_tag_dropout_rate is None
    &&& d.persistent_data_loader_workers is None
    &&& d.vae_batch_size is None
    &&& d.prior_loss_weight is None
    &&& d.loss_type is None
    &&& d.lr_scheduler_num_cycles is None
    &&& d.full_fp16 is None
    &&& d.full_bf16 is None
    &&& d.no_half_vae is None
    &&& d.xformers is None
    &&& d.lowram is None
    &&& d.save_precision is None
    &&& d.save_last_n_epochs_state is None
    &&& d.model_path is None
    &&& d.vae_path is None
    &&& d.te_path is None
    &&& d.dataset_dir is None
    &&& d.full_finetune is None
}

/// The preset "Krea 2 入门（DiT）".
pub fn krea2_entry() -> (r: RecipeFile)
    ensures
        r.meta.name@ == "Krea 2 入门（DiT）"@,
        is_new_meta(r.meta, ModelFamily::DitKrea2),
        is_krea2_entry_data(r.data),
{
    let data = RecipeData {
            learning_rate: real_of(0x3F40624DD2F1A9FC, "0.0005"),
            text_encoder_lr: None,
            unet_lr: None,
            optimizer: OptimizerKind::AdamW,
            lr_scheduler: SchedulerKind::ConstantWithWarmup,
            lr_warmup_ratio: real_of(0x3FA999999999999A, "0.05"),
            network_dim: 16,
            network_alpha: 16,
            network_type: NetworkType::Lora,
            max_train_epochs: 10,
            batch_size: 1,
            resolution: 1024,
            enable_bucket: true,
            cache_latents: true,
            cache_text_encoder_outputs: true,
            mixed_precision: Precision::Bf16,
            gradient_checkpointing: true,
            gradient_accumulation_steps: 1,
            max_grad_norm: real_of(0x3FF0000000000000, "1"),
            seed: 42,
            min_snr_gamma: None,
            noise_offset: None,
            shuffle_caption: true,
            keep_tokens: 1,
            caption_dropout_rate: Some(real_of(0x3FA999999999999A, "0.05")),
            save_every_n_epochs: 1,
            sample_every_n_epochs: 5,
            sample_prompts: vec![String::from_str("a beautiful scene, masterpiece")],
            sample_sampler: String::from_str("euler"),
            network_dropout: None,
            rank_dropout: None,
            module_dropout: None,
            conv_dim: None,
            conv_alpha: None,
            num_repeats: None,
            max_train_steps: None,
            save_every_n_steps: None,
            save_state: false,
            save_last_n_states: None,
            zero_terminal_snr: false,
            adaptive_noise_scale: None,
            multires_noise_iterations: None,
            multires_noise_discount: None,
            min_timestep: None,
            max_timestep: None,
            clip_skip: None,
            max_token_length: None,
            sample_steps: None,
            guidance_scale: None,
            negative_prompt: None,
            cache_text_encoder_outputs_to_disk: false,
            block_weights: None,
            trigger_word: None,
            prediction_type: None,
            train_text_encoder: None,
            network_weights: None,
            scale_weight_norms: None,
            network_args_custom: vec![],
            optimizer_args_custom: vec![],
            reg_data_dir: None,
            min_bucket_reso: None,
            max_bucket_reso: None,
            bucket_reso_steps: None,
            bucket_no_upscale: None,
            weighted_captions: None,
            caption_dropout_every_n_epochs: None,
            caption_tag_dropout_rate: None,
            persistent_data_loader_workers: None,
            vae_batch_size: None,
            prior_loss_weight: None,
            loss_type: None,
            lr_scheduler_num_cycles: None,
            full_fp16: None,
            full_bf16: None,
            no_half_vae: None,
            xformers: None,
            lowram: None,
            save_precision: None,
            save_last_n_epochs_state: None,
            model_path: None,
            vae_path: None,
            te_path: None,
            dataset_dir: None,
            full_finetune: None,
        };
    RecipeFile::new("Krea 2 入门（DiT）", ModelFamily::DitKrea2, data)
}

/// The built-in presets, in the order the catalogue lists them.
pub fn builtin_presets() -> (r: Vec<RecipeFile>)
    ensures
        r@.len() == 4,
        r@[0].meta.name@ == "SDXL 入门（NoobAI/Illusion）"@,
        is_new_meta(r@[0].meta, ModelFamily::Sdxl1),
        is_sdxl_noobai_entry_data(r@[0].data),
        r@[1].meta.name@ == "SDXL 进阶（低 LR + LoCon + 块权重）"@,
        is_new_meta(r@[1].meta, ModelFamily::Sdxl1),
        is_sdxl_advanced_data(r@[1].data),
        r@[2].meta.name@ == "Anima 入门（DiT）"@,
        is_new_meta(r@[2].meta, ModelFamily::DitAnima),
        is_anima_entry_data(r@[2].data),
        r@[3].meta.name@ == "Krea 2 入门（DiT）"@,
        is_new_meta(r@[3].meta, ModelFamily::DitKrea2),
        is_krea2_entry_data(r@[3].data),
{
    let mut r: Vec<RecipeFile> = Vec::new();
    r.push(sdxl_noobai_entry());
    r.push(sdxl_advanced());
    r.push(anima_entry());
    r.push(krea2_entry());
    r
}


/// Each built-in preset passes validation for its own family without an error.
pub proof fn lemma_preset_data_valid(family: ModelFamily, d: RecipeData)
    requires
        (family == ModelFamily::Sdxl1 && is_sdxl_noobai_entry_data(d)) || (family == ModelFamily::Sdxl1
            && is_sdxl_advanced_data(d)) || (family == ModelFamily::DitAnima && is_anima_entry_data(d)) || (
        family == ModelFamily::DitKrea2 && is_krea2_entry_data(d)),
    ensures
        !has_error(recipe_findings(family, d)),
{
    lemma_positive_finite(d.learning_rate.bits);
    lemma_positive_finite(TENTH_BITS);
    lemma_positive_finite(ZERO_BITS);
    if d.text_encoder_lr is Some {
        lemma_positive_finite(d.text_encoder_lr->0.bits);
    }
    lemma_lr_no_error(d);
    assert(!has_error(network_findings(family, d)));
    assert(!has_error(scale_findings(d)));
    assert(!has_error(run_findings(family, d)));
    assert(!has_error(cache_findings(d)));
    lemma_has_error_concat(run_findings(family, d), cache_findings(d));
    lemma_has_error_concat(lr_findings(d), network_findings(family, d));
    lemma_has_error_concat(lr_findings(d) + network_findings(family, d), scale_findings(d));
    lemma_has_error_concat(
        lr_findings(d) + network_findings(family, d) + scale_findings(d),
        other_findings(family, d),
    );
}

} // verus!
