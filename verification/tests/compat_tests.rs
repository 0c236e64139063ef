use tiandi::compat::aitk::{build_aitk_yaml, AitkPaths};
use tiandi::compat::escape::{custom_args_toml, toml_quote, trim_text};
use tiandi::compat::launch::{
    aitk_total_steps, anima_assets, check_anima_assets, kernel_mode_for, launch_env, output_name_or, plan_launch,
    sample_prompts_content, train_script, warmup_applies,
};
use tiandi::compat::kernel::{
    event_from_kernel, line_ends_run, plain_output_line, unexpected_exit_line, AitkEnv, KernelEnv, KernelError,
    KernelLine, KernelMode, Krea2Assets,
};
use tiandi::supervisor::Event;
use tiandi::compat::sdscripts::{build_sdscripts_toml, build_sdscripts_toml_full, TrainPaths};
use tiandi::engine::EngineError;
use tiandi::family::ModelFamily;
use tiandi::number::Real;
use tiandi::recipe::schema::{NetworkType, PredictionType, RecipeData, SchedulerKind};

fn float(x: f64) -> Real {
    Real { bits: x.to_bits(), text: format!("{}", x) }
}

fn paths() -> TrainPaths {
    TrainPaths {
        base_model: r"D:\models\noobai.safetensors".into(),
        dataset_dir: r"D:\ds".into(),
        output_dir: r"D:\runs\r1".into(),
        output_name: "noobai-lora".into(),
        logging_dir: r"D:\runs\r1\logs".into(),
        repeats: 1,
        resume: None,
        tokenizer: None,
        tokenizer2: None,
        anima_qwen3: None,
        anima_vae: None,
        anima_t5_tokenizer: None,
        anima_qwen3_tokenizer: None,
        sample_prompts_file: Some(r"D:\runs\r1\sample_prompts.txt".into()),
    }
}

/// Warm-up steps when the dataset size is unknown: epochs × 1000 × warm-up share.
fn warmup(r: &RecipeData) -> u64 {
    ((r.max_train_epochs as f64 * 1000.0) * f64::from_bits(r.lr_warmup_ratio.bits)).round() as u64
}

fn lora(r: &RecipeData, f: ModelFamily, p: &TrainPaths) -> String {
    build_sdscripts_toml(r, f, p, warmup(r))
}

fn full(r: &RecipeData, f: ModelFamily, p: &TrainPaths, te: bool) -> String {
    build_sdscripts_toml_full(r, f, p, warmup(r), te)
}

#[test]
fn resume_is_emitted_when_present() {
    let recipe = RecipeData::default();
    let mut paths = paths();
    paths.resume = Some(r"D:\runs\r1\checkpoints\noobai-lora-000010.state".into());
    let toml = lora(&recipe, ModelFamily::Sdxl1, &paths);
    assert!(toml.contains("resume = \"D:/runs/r1/checkpoints/noobai-lora-000010.state\""), "{toml}");
}

#[test]
fn toml_contains_kohya_keys() {
    let recipe = RecipeData::default();
    let toml = lora(&recipe, ModelFamily::Sdxl1, &paths());
    for key in [
        "[model]",
        "[network]",
        "[optimizer]",
        "[training]",
        "[dataset]",
        "[logging]",
        "pretrained_model_name_or_path",
        "network_module = \"networks.lora\"",
        "optimizer_type = \"AdamW8bit\"",
        "learning_rate = 0.0001",
        "lr_scheduler = \"cosine\"",
        "mixed_precision = \"bf16\"",
        "cache_latents = true",
        "cache_text_encoder_outputs = true",
        "enable_bucket = true",
        "caption_extension = \".txt\"",
        "min_snr_gamma = 5",
        "save_model_as = \"safetensors\"",
        "train_data_dir = \"D:/ds\"",
    ] {
        assert!(toml.contains(key), "missing {key}:\n{toml}");
    }
}

#[test]
fn windows_paths_are_forward_slashed() {
    let recipe = RecipeData::default();
    let toml = lora(&recipe, ModelFamily::Sdxl1, &paths());
    assert!(!toml.contains("D:\\"));
}

#[test]
fn train_batch_size_emitted_in_training() {
    let recipe = RecipeData { batch_size: 4, ..RecipeData::default() };
    let toml = lora(&recipe, ModelFamily::Sdxl1, &paths());
    assert!(toml.contains("train_batch_size = 4"), "{toml}");
    let f = full(&recipe, ModelFamily::Sdxl1, &paths(), false);
    assert!(f.contains("train_batch_size = 4"), "{f}");
}

#[test]
fn anima_tlora_maps_to_lora_anima() {
    let recipe = RecipeData { network_type: NetworkType::Tlora, ..RecipeData::default() };
    let toml = lora(&recipe, ModelFamily::DitAnima, &paths());
    assert!(toml.contains("network_module = \"networks.lora_anima\""), "{toml}");
    assert!(!toml.contains("tlora_anima"), "{toml}");
    let l = RecipeData { network_type: NetworkType::Lora, ..RecipeData::default() };
    let toml = lora(&l, ModelFamily::DitAnima, &paths());
    assert!(toml.contains("network_module = \"networks.lora_anima\""));
}

#[test]
fn toml_strings_are_escaped() {
    let recipe = RecipeData {
        trigger_word: Some("say \"hi\" \\ ok".into()),
        sample_prompts: vec!["a \"quote\" prompt".into(), "back\\slash".into()],
        negative_prompt: Some("bad \"x\"".into()),
        ..RecipeData::default()
    };
    let toml = lora(&recipe, ModelFamily::Sdxl1, &paths());
    assert!(toml.contains(r#"trigger_word = "say \"hi\" \\ ok""#), "{toml}");
    assert!(toml.contains(r#"sample_prompts = "D:/runs/r1/sample_prompts.txt""#), "{toml}");
    assert!(toml.contains(r#"negative_prompt = "bad \"x\"""#), "{toml}");
}

#[test]
fn trigger_word_included() {
    let recipe = RecipeData { trigger_word: Some("zhongzi".into()), ..RecipeData::default() };
    let toml = lora(&recipe, ModelFamily::Sdxl1, &paths());
    assert!(toml.contains("trigger_word = \"zhongzi\""));
}

#[test]
fn sampling_switch_and_prompt_fallback() {
    let toml = lora(&RecipeData::default(), ModelFamily::Sdxl1, &paths());
    assert!(toml.contains("[sampling]"), "{toml}");
    assert!(toml.contains(r#"sample_prompts = "D:/runs/r1/sample_prompts.txt""#), "{toml}");
    let no_sample = TrainPaths { sample_prompts_file: None, ..paths() };
    let toml2 = lora(&RecipeData::default(), ModelFamily::Sdxl1, &no_sample);
    assert!(!toml2.contains("[sampling]"), "{toml2}");
}

#[test]
fn v_prediction_emits_v_parameterization_sdxl_only() {
    let recipe = RecipeData { prediction_type: Some(PredictionType::V), ..RecipeData::default() };
    let toml = lora(&recipe, ModelFamily::Sdxl1, &paths());
    assert!(toml.contains("v_parameterization = true"), "{toml}");
    let anima = lora(&recipe, ModelFamily::DitAnima, &paths());
    assert!(!anima.contains("v_parameterization"), "{anima}");
}

#[test]
fn epsilon_prediction_emits_explicit_false() {
    let recipe = RecipeData { prediction_type: Some(PredictionType::Epsilon), ..RecipeData::default() };
    let toml = lora(&recipe, ModelFamily::Sdxl1, &paths());
    assert!(toml.contains("v_parameterization = false"), "{toml}");
}

#[test]
fn train_text_encoder_emitted_and_disables_te_cache() {
    let d = lora(&RecipeData::default(), ModelFamily::Sdxl1, &paths());
    assert!(d.contains("train_text_encoder = false"), "{d}");
    assert!(d.contains("cache_text_encoder_outputs = true"), "{d}");
    let recipe = RecipeData { train_text_encoder: Some(true), ..RecipeData::default() };
    let toml = lora(&recipe, ModelFamily::Sdxl1, &paths());
    assert!(toml.contains("train_text_encoder = true"), "{toml}");
    assert!(toml.contains("cache_text_encoder_outputs = false"), "{toml}");
    let anima = lora(&recipe, ModelFamily::DitAnima, &paths());
    assert!(anima.contains("train_text_encoder = true"), "{anima}");
}

#[test]
fn dataset_ext_keys_emitted_in_both_builders() {
    let recipe = RecipeData {
        reg_data_dir: Some(r"D:\reg".into()),
        min_bucket_reso: Some(256),
        max_bucket_reso: Some(1024),
        bucket_reso_steps: Some(64),
        bucket_no_upscale: Some(true),
        weighted_captions: Some(true),
        caption_dropout_every_n_epochs: Some(5),
        caption_tag_dropout_rate: Some(float(0.1)),
        persistent_data_loader_workers: Some(true),
        vae_batch_size: Some(8),
        ..RecipeData::default()
    };
    let toml = lora(&recipe, ModelFamily::Sdxl1, &paths());
    for key in [
        "reg_data_dir = \"D:/reg\"",
        "min_bucket_reso = 256",
        "max_bucket_reso = 1024",
        "bucket_reso_steps = 64",
        "bucket_no_upscale = true",
        "weighted_captions = true",
        "caption_dropout_every_n_epochs = 5",
        "caption_tag_dropout_rate = 0.1",
        "persistent_data_loader_workers = true",
        "vae_batch_size = 8",
    ] {
        assert!(toml.contains(key), "missing {key}:\n{toml}");
    }
    assert!(!toml.contains("D:\\"), "{toml}");
    let f = full(&recipe, ModelFamily::Sdxl1, &paths(), false);
    for key in ["reg_data_dir = \"D:/reg\"", "min_bucket_reso = 256", "bucket_no_upscale = true", "vae_batch_size = 8"] {
        assert!(f.contains(key), "full missing {key}:\n{f}");
    }
}

#[test]
fn custom_args_join_as_toml_array() {
    let recipe = RecipeData {
        network_args_custom: vec![
            " conv_dim=32 ".into(),
            "conv_alpha=16".into(),
            "".into(),
            "   ".into(),
            "train_llm_adapter=True".into(),
        ],
        optimizer_args_custom: vec!["lr=1e-5".into(), "weight_decay=0.1".into(), "  ".into()],
        ..RecipeData::default()
    };
    let toml = lora(&recipe, ModelFamily::Sdxl1, &paths());
    assert!(toml.contains(r#"network_args = ["conv_dim=32", "conv_alpha=16", "train_llm_adapter=True"]"#), "{toml}");
    assert!(toml.contains(r#"optimizer_args = ["lr=1e-5", "weight_decay=0.1"]"#), "{toml}");
    let f = full(&recipe, ModelFamily::Sdxl1, &paths(), false);
    assert!(f.contains(r#"network_args = ["conv_dim=32", "conv_alpha=16", "train_llm_adapter=True"]"#), "{f}");
    assert!(f.contains(r#"optimizer_args = ["lr=1e-5", "weight_decay=0.1"]"#), "{f}");
}

#[test]
fn training_and_saving_ext_keys_emitted_in_both_builders() {
    let recipe = RecipeData {
        prior_loss_weight: Some(float(0.5)),
        loss_type: Some("huber".into()),
        lr_scheduler_num_cycles: Some(3),
        full_fp16: Some(true),
        full_bf16: Some(false),
        no_half_vae: Some(true),
        xformers: Some(true),
        lowram: Some(true),
        save_precision: Some("bf16".into()),
        save_last_n_epochs_state: Some(3),
        ..RecipeData::default()
    };
    let toml = lora(&recipe, ModelFamily::Sdxl1, &paths());
    for key in [
        "prior_loss_weight = 0.5",
        "loss_type = \"huber\"",
        "lr_scheduler_num_cycles = 3",
        "full_fp16 = true",
        "full_bf16 = false",
        "no_half_vae = true",
        "xformers = true",
        "lowram = true",
        "[saving]",
        "save_model_as = \"safetensors\"",
        "save_precision = \"bf16\"",
        "save_last_n_epochs_state = 3",
    ] {
        assert!(toml.contains(key), "missing {key}:\n{toml}");
    }
    let f = full(&recipe, ModelFamily::Sdxl1, &paths(), false);
    for key in ["prior_loss_weight = 0.5", "loss_type = \"huber\"", "save_precision = \"bf16\"", "save_last_n_epochs_state = 3", "[saving]"] {
        assert!(f.contains(key), "full missing {key}:\n{f}");
    }
}

#[test]
fn network_ext_keys_emitted_in_lora_and_full() {
    let recipe = RecipeData {
        network_weights: Some(r"D:\weights\base-lora.safetensors".into()),
        scale_weight_norms: Some(float(1.0)),
        network_args_custom: vec!["conv_dim=32".into()],
        ..RecipeData::default()
    };
    let toml = lora(&recipe, ModelFamily::Sdxl1, &paths());
    assert!(toml.contains("network_weights = \"D:/weights/base-lora.safetensors\""), "{toml}");
    assert!(toml.contains("scale_weight_norms = 1"), "{toml}");
    let f = full(&recipe, ModelFamily::Sdxl1, &paths(), false);
    assert!(f.contains("[network]"), "{f}");
    assert!(f.contains("network_weights = \"D:/weights/base-lora.safetensors\""), "{f}");
    let fd = full(&RecipeData::default(), ModelFamily::Sdxl1, &paths(), false);
    assert!(!fd.contains("[network]"), "{fd}");
}

#[test]
fn te_training_linkage_uses_recipe_lr_and_unet_only_false() {
    let recipe = RecipeData {
        train_text_encoder: Some(true),
        text_encoder_lr: Some(float(2e-5)),
        ..RecipeData::default()
    };
    let toml = lora(&recipe, ModelFamily::Sdxl1, &paths());
    assert!(toml.contains("network_train_unet_only = false"), "{toml}");
    assert!(toml.contains("text_encoder_lr = 0.00002"), "{toml}");
    assert!(!toml.contains("network_train_unet_only = true"), "{toml}");
    let recipe2 = RecipeData { train_text_encoder: Some(true), text_encoder_lr: None, ..RecipeData::default() };
    let toml2 = lora(&recipe2, ModelFamily::Sdxl1, &paths());
    assert!(toml2.contains("network_train_unet_only = false"), "{toml2}");
    assert!(!toml2.contains("text_encoder_lr"), "{toml2}");
    let toml3 = lora(&RecipeData::default(), ModelFamily::Sdxl1, &paths());
    assert!(toml3.contains("network_train_unet_only = true"), "{toml3}");
    assert!(toml3.contains("text_encoder_lr = 0"), "{toml3}");
    let f = full(&recipe, ModelFamily::Sdxl1, &paths(), true);
    assert!(f.contains("network_train_unet_only = false"), "{f}");
    assert!(f.contains("text_encoder_lr = 0.00002"), "{f}");
    let off = full(&RecipeData::default(), ModelFamily::Sdxl1, &paths(), false);
    assert!(off.contains("text_encoder_lr = 0"), "{off}");
    assert!(!off.contains("network_train_unet_only"), "{off}");
}

#[test]
fn none_fields_not_emitted() {
    let toml = lora(&RecipeData::default(), ModelFamily::Sdxl1, &paths());
    for key in [
        "reg_data_dir",
        "prior_loss_weight",
        "min_bucket_reso",
        "max_bucket_reso",
        "bucket_reso_steps",
        "bucket_no_upscale",
        "weighted_captions",
        "caption_dropout_every_n_epochs",
        "caption_tag_dropout_rate",
        "network_weights",
        "scale_weight_norms",
        "network_args",
        "loss_type",
        "lr_scheduler_num_cycles",
        "optimizer_args",
        "save_precision",
        "save_last_n_epochs_state",
        "full_fp16",
        "full_bf16",
        "no_half_vae",
        "xformers",
        "lowram",
        "persistent_data_loader_workers",
        "vae_batch_size",
    ] {
        assert!(!toml.contains(key), "default emits {key}:\n{toml}");
    }
    let f = full(&RecipeData::default(), ModelFamily::Sdxl1, &paths(), false);
    for key in ["reg_data_dir", "min_bucket_reso", "network_args", "optimizer_args", "save_precision", "save_last_n_epochs_state"] {
        assert!(!f.contains(key), "full default emits {key}:\n{f}");
    }
}

#[test]
fn full_sampling_emits_steps_scale_and_negative_prompt() {
    let recipe = RecipeData {
        sample_steps: Some(28),
        guidance_scale: Some(float(6.5)),
        negative_prompt: Some("bad quality".into()),
        ..RecipeData::default()
    };
    let f = full(&recipe, ModelFamily::Sdxl1, &paths(), false);
    assert!(f.contains("sample_steps = 28"), "{f}");
    assert!(f.contains("guidance_scale = 6.5"), "{f}");
    assert!(f.contains("negative_prompt = \"bad quality\""), "{f}");
}

fn aitk_paths() -> AitkPaths {
    AitkPaths {
        base_model: r"D:\models\krea2_raw_bf16.safetensors".into(),
        dataset_dir: r"D:\ds".into(),
        training_folder: r"D:\runs\r1\checkpoints".into(),
        output_name: "krea2-lora".into(),
        text_encoder: r"D:\kernel\qwen3vl_4b".into(),
        vae_root: r"D:\kernel\krea2".into(),
        steps: 12,
    }
}

#[test]
fn yaml_contains_aitk_keys() {
    let recipe = RecipeData { trigger_word: Some("k2test".into()), ..RecipeData::default() };
    let yaml = build_aitk_yaml(&recipe, &aitk_paths());
    for key in [
        "job: extension",
        "type: 'sd_trainer'",
        "arch: 'krea2'",
        "noise_scheduler: 'flowmatch'",
        "timestep_type: 'linear'",
        "optimizer: 'adamw8bit'",
        "quantize: true",
        "quantize_te: true",
        "low_vram: true",
        "unload_text_encoder: true",
        "steps: 12",
        "trigger_word: \"k2test\"",
        "linear: 16",
        "save_every: 12",
    ] {
        assert!(yaml.contains(key), "missing {key}:\n{yaml}");
    }
    assert!(!yaml.contains("D:\\"), "{yaml}");
}

#[test]
fn krea2_yaml_roundtrip_parseable() {
    let yaml = build_aitk_yaml(&RecipeData::default(), &aitk_paths());
    assert!(yaml.contains("  process:\n    - type:"));
    assert!(yaml.contains("      model:\n        name_or_path:"));
    assert!(yaml.contains("      train:\n        batch_size:"));
}

#[test]
fn yaml_zero_steps_become_one_and_dropout_defaults_to_zero() {
    let mut p = aitk_paths();
    p.steps = 0;
    let r = RecipeData { caption_dropout_rate: None, ..RecipeData::default() };
    let yaml = build_aitk_yaml(&r, &p);
    assert!(yaml.contains("        steps: 1\n"), "{yaml}");
    assert!(yaml.contains("        save_every: 1\n"), "{yaml}");
    assert!(yaml.contains("          caption_dropout_rate: 0\n"), "{yaml}");
    assert!(yaml.contains("          resolution: [1024]\n"), "{yaml}");
}

#[test]
fn env_detection_does_not_panic() {
    let env = KernelEnv::detect_for(None, None);
    let _ = env.ready();
}

#[test]
fn steps_estimate_divides_by_batch_size() {
    assert_eq!(aitk_total_steps(4, 10, 2, 4), 20);
    assert_eq!(aitk_total_steps(4, 10, 2, 1000), 1);
}

#[test]
fn aitk_steps_floor_repeats_and_batch_at_one() {
    assert_eq!(aitk_total_steps(3, 2, 0, 0), 6);
    assert_eq!(aitk_total_steps(0, 10, 1, 1), 1);
}

#[test]
fn kernel_env_prefers_manifest_then_system_python() {
    let m = ("py".to_string(), Some("sd".to_string()), None);
    let e = KernelEnv::detect_for(Some(m), Some("system".into()));
    assert_eq!(e.python.as_deref(), Some("py"));
    assert_eq!(e.sd_scripts.as_deref(), Some("sd"));
    assert!(e.ready());
    let e = KernelEnv::detect_for(None, Some("python".into()));
    assert_eq!(e.python.as_deref(), Some("python"));
    assert!(e.sd_scripts.is_none() && e.message.is_none());
    let e = KernelEnv::detect_for(None, None);
    assert!(!e.ready());
    assert!(e.message.unwrap().starts_with("未检测到 Python"));
}

#[test]
fn kernel_mode_names_and_choice() {
    assert_eq!(KernelMode::Mock.as_str(), "mock");
    assert_eq!(KernelMode::SdScripts.as_str(), "sdscripts");
    assert_eq!(KernelMode::Aitk.as_str(), "aitk");
    assert_eq!(KernelMode::Tagger.as_str(), "tagger");
    assert_eq!(kernel_mode_for(false, ModelFamily::DitKrea2), KernelMode::Mock);
    assert_eq!(kernel_mode_for(true, ModelFamily::DitKrea2), KernelMode::Aitk);
    assert_eq!(kernel_mode_for(true, ModelFamily::Sdxl1), KernelMode::SdScripts);
    assert_eq!(train_script(ModelFamily::Sdxl1, true), "sdxl_train.py");
    assert_eq!(train_script(ModelFamily::DitAnima, false), "anima_train_network.py");
    assert_eq!(train_script(ModelFamily::DitKrea2, true), "krea2_train_network.py");
}

#[test]
fn launch_env_lists_run_offline_job_and_script() {
    let job = vec![("HF_ENDPOINT".to_string(), "https://m".to_string())];
    let env = launch_env("r1", "/s", &job, KernelMode::SdScripts, ModelFamily::Sdxl1, false);
    let pairs: Vec<(&str, &str)> = env.iter().map(|(k, v)| (k.as_str(), v.as_str())).collect();
    assert_eq!(
        pairs,
        vec![
            ("TIANDI_RUN_ID", "r1"),
            ("TIANDI_SAMPLE_DIR", "/s"),
            ("HF_HUB_OFFLINE", "1"),
            ("TRANSFORMERS_OFFLINE", "1"),
            ("HF_ENDPOINT", "https://m"),
            ("TIANDI_TRAIN_SCRIPT", "sdxl_train_network.py"),
        ]
    );
    let mock = launch_env("r2", "/s", &[], KernelMode::Mock, ModelFamily::Sdxl1, false);
    assert_eq!(mock.len(), 6);
    assert_eq!(mock[4], ("TIANDI_MOCK_TOTAL".to_string(), "60".to_string()));
    assert_eq!(mock[5], ("TIANDI_MOCK_INTERVAL".to_string(), "0.15".to_string()));
}

#[test]
fn sample_prompt_file_falls_back_to_trigger_then_default() {
    let r = RecipeData::default();
    assert_eq!(sample_prompts_content(&r).unwrap(), "1girl, masterpiece, best quality\n");
    let r = RecipeData { sample_prompts: vec![], trigger_word: Some("zz".into()), ..RecipeData::default() };
    assert_eq!(sample_prompts_content(&r).unwrap(), "zz\n");
    let r = RecipeData { sample_prompts: vec![], trigger_word: Some("  ".into()), ..RecipeData::default() };
    assert_eq!(sample_prompts_content(&r).unwrap(), "masterpiece, best quality, 1girl\n");
    let r = RecipeData { sample_prompts: vec!["a".into(), "b".into()], ..RecipeData::default() };
    assert_eq!(sample_prompts_content(&r).unwrap(), "a\nb\n");
    let r = RecipeData { sample_every_n_epochs: 0, ..RecipeData::default() };
    assert!(sample_prompts_content(&r).is_none());
}

#[test]
fn anima_needs_qwen3_encoder() {
    let p = paths();
    match check_anima_assets(ModelFamily::DitAnima, &p) {
        Err(EngineError::Spawn(m)) => assert!(m.starts_with("Anima 底模缺少配套 Qwen3 文本编码器")),
        other => panic!("{other:?}"),
    }
    assert!(check_anima_assets(ModelFamily::Sdxl1, &p).is_ok());
    let p2 = TrainPaths { anima_qwen3: Some("q.safetensors".into()), ..paths() };
    assert!(check_anima_assets(ModelFamily::DitAnima, &p2).is_ok());
    assert_eq!(output_name_or(&None, "run-1"), "run-1");
    assert_eq!(output_name_or(&Some("n".into()), "run-1"), "n");
}

#[test]
fn quoting_and_custom_args() {
    assert_eq!(toml_quote("a\"b\\c"), "\"a\\\"b\\\\c\"");
    assert_eq!(toml_quote("x\ny\tz\r"), "\"x\\ny\\tz\\r\"");
    assert_eq!(toml_quote("\u{1}\u{7f}"), "\"\\u0001\\u007F\"");
    assert_eq!(toml_quote("中文"), "\"中文\"");
    assert_eq!(trim_text("  a b \t"), "a b");
    assert_eq!(trim_text("\u{3000}x\u{a0}"), "x");
    assert_eq!(custom_args_toml(&["  ".to_string(), "".to_string()]), None);
    assert_eq!(custom_args_toml(&[" a=1".to_string()]).as_deref(), Some("[\"a=1\"]"));
}

#[test]
fn constant_scheduler_writes_no_warmup() {
    let r = RecipeData { lr_scheduler: SchedulerKind::Constant, ..RecipeData::default() };
    let toml = build_sdscripts_toml(&r, ModelFamily::Sdxl1, &paths(), 77);
    assert!(toml.contains("lr_scheduler = \"constant\""));
    assert!(!toml.contains("lr_warmup_steps"));
    let toml = build_sdscripts_toml(&RecipeData::default(), ModelFamily::Sdxl1, &paths(), 77);
    assert!(toml.contains("lr_warmup_steps = 77\n"), "{toml}");
}

#[test]
fn lora_document_starts_with_model_section() {
    let toml = build_sdscripts_toml(&RecipeData::default(), ModelFamily::Sdxl1, &paths(), 1000);
    assert!(toml.starts_with(
        "[model]\npretrained_model_name_or_path = \"D:/models/noobai.safetensors\"\n\n[network]\nnetwork_module = \"networks.lora\"\nnetwork_dim = 16\nnetwork_alpha = 16\n\n[optimizer]\noptimizer_type = \"AdamW8bit\"\n\n[training]\nlearning_rate = 0.0001\ntrain_batch_size = 1\ntext_encoder_lr = 0\nnetwork_train_unet_only = true\nlr_scheduler = \"cosine\"\nlr_warmup_steps = 1000\n"
    ), "{toml}");
    assert!(toml.ends_with("[logging]\nlog_with = \"tensorboard\"\nlogging_dir = \"D:/runs/r1/logs\"\n\n"), "{toml}");
}

#[test]
fn kernel_error_messages() {
    assert_eq!(KernelError::CancelTimeout.message(), "取消超时（内核未在 5s 内退出，已强杀）");
    assert_eq!(KernelError::Io("x".into()).message(), "控制命令发送失败: x");
    assert_eq!(EngineError::NotReady("p".into()).message(), "引擎未就绪: p");
}

#[test]
fn full_finetune_text_encoder_flag_equals_recipe_field() {
    let r = RecipeData::default();
    let mut r2 = r.clone();
    r2.train_text_encoder = Some(true);
    let p = paths();
    let with_flag = build_sdscripts_toml_full(&r, ModelFamily::Sdxl1, &p, 7, true);
    assert_eq!(with_flag, build_sdscripts_toml_full(&r2, ModelFamily::Sdxl1, &p, 7, false));
    assert!(with_flag.contains("network_train_unet_only = false"), "{with_flag}");
    let without = build_sdscripts_toml_full(&r, ModelFamily::Sdxl1, &p, 7, false);
    assert!(without.contains("text_encoder_lr = 0\n"), "{without}");
    assert!(!without.contains("network_train_unet_only"), "{without}");
}

fn kernel_line(kind: &str) -> KernelLine {
    KernelLine {
        kind: Some(kind.to_string()),
        backend: None,
        version: None,
        step: None,
        eta_s: None,
        code: None,
        epoch: None,
        loss: None,
        lr: None,
        level: None,
        msg: None,
        path: None,
        tail: None,
    }
}

#[test]
fn parses_kernel_events() {
    let mut progress = kernel_line("progress");
    progress.step = Some(12);
    progress.epoch = Some(float(0.2f32 as f64));
    progress.loss = Some(float(0.31));
    progress.lr = Some(float(1e-4));
    progress.eta_s = Some(90);
    match event_from_kernel(&progress, "r1").unwrap() {
        Event::Progress { run_id, step, loss, eta_s, .. } => {
            assert_eq!(run_id, "r1");
            assert_eq!(step, 12);
            assert_eq!(f64::from_bits(loss.bits), 0.31);
            assert_eq!(eta_s, Some(90));
        }
        other => panic!("unexpected {other:?}"),
    }

    let mut done = kernel_line("done");
    done.code = Some(0);
    assert!(matches!(event_from_kernel(&done, "r1").unwrap(), Event::Done { code: 0, .. }));

    let mut fail = kernel_line("fail");
    fail.code = Some(1);
    fail.tail = Some("OOM".to_string());
    assert!(matches!(event_from_kernel(&fail, "r1").unwrap(), Event::Fail { code: 1, .. }));

    assert!(event_from_kernel(&kernel_line("x"), "r1").is_none());
}

#[test]
fn kernel_event_defaults() {
    match event_from_kernel(&kernel_line("fail"), "r2").unwrap() {
        Event::Fail { run_id, code, tail } => {
            assert_eq!((run_id.as_str(), code, tail.as_str()), ("r2", 1, ""));
        }
        other => panic!("unexpected {other:?}"),
    }
    match event_from_kernel(&kernel_line("log"), "r2").unwrap() {
        Event::Log { level, msg, .. } => assert_eq!((level.as_str(), msg.as_str()), ("info", "")),
        other => panic!("unexpected {other:?}"),
    }
    match event_from_kernel(&kernel_line("progress"), "r2").unwrap() {
        Event::Progress { step, epoch, loss, lr, eta_s, .. } => {
            assert_eq!(step, 0);
            assert_eq!((epoch.bits, epoch.text.as_str()), (0, "0"));
            assert_eq!((loss.bits, lr.bits), (0, 0));
            assert_eq!(eta_s, None);
        }
        other => panic!("unexpected {other:?}"),
    }
    assert!(event_from_kernel(&kernel_line("hello"), "r2").is_none());
    let mut hello = kernel_line("hello");
    hello.backend = Some("sd-scripts".into());
    hello.version = Some("1".into());
    assert!(matches!(event_from_kernel(&hello, "r2"), Some(Event::Hello { .. })));
    let mut big = kernel_line("done");
    big.code = Some((1u64 << 32) + 3);
    assert!(matches!(event_from_kernel(&big, "r2"), Some(Event::Done { code: 3, .. })));

    let stray = plain_output_line("Loading checkpoint shards: 50%").unwrap();
    match event_from_kernel(&stray, "r3").unwrap() {
        Event::Log { level, msg, .. } => {
            assert_eq!(level, "info");
            assert_eq!(msg, "Loading checkpoint shards: 50%");
        }
        other => panic!("unexpected {other:?}"),
    }
    assert!(plain_output_line("").is_none());
    let exit = unexpected_exit_line();
    assert!(line_ends_run(&exit));
    assert!(!line_ends_run(&stray));
    match event_from_kernel(&exit, "r3").unwrap() {
        Event::Fail { code, tail, .. } => {
            assert_eq!(code, 1);
            assert_eq!(tail, "内核进程意外退出（未收到 done/fail 事件）");
        }
        other => panic!("unexpected {other:?}"),
    }
}

#[test]
fn launch_plan_picks_python_config_and_folder() {
    let krea2 = Krea2Assets { mmdit: "m".into(), text_encoder: "te".into(), vae_root: "v".into() };
    let mut env = KernelEnv {
        python: Some("py".into()),
        sd_scripts: None,
        aitk: Some(AitkEnv { python: "apy".into(), repo: "arepo".into(), krea2: None }),
        message: Some("hint".into()),
    };
    let p = plan_launch(&env, KernelMode::SdScripts, false, "/runs/r1").unwrap();
    assert_eq!((p.python.as_str(), p.config_file.as_str(), p.cwd.as_str()), ("py", "train_config.toml", "/runs/r1"));
    assert!(matches!(plan_launch(&env, KernelMode::Aitk, false, "/runs/r1"), Err(EngineError::NotReady(m)) if m.contains("Krea 2")));
    env.aitk.as_mut().unwrap().krea2 = Some(krea2);
    assert!(matches!(plan_launch(&env, KernelMode::Aitk, true, "/runs/r1"), Err(EngineError::Spawn(_))));
    let a = plan_launch(&env, KernelMode::Aitk, false, "/runs/r1").unwrap();
    assert_eq!((a.python.as_str(), a.config_file.as_str(), a.cwd.as_str()), ("apy", "train_config.yaml", "arepo"));
    env.sd_scripts = Some("/sd".into());
    assert_eq!(plan_launch(&env, KernelMode::Mock, false, "/runs/r1").unwrap().cwd, "/sd");
    env.python = None;
    assert!(matches!(plan_launch(&env, KernelMode::SdScripts, false, "/r"), Err(EngineError::NotReady(m)) if m == "hint"));
}

#[test]
fn anima_assets_take_the_first_found() {
    let s = |x: &str| Some(x.to_string());
    let (te, vae, t5) = anima_assets(&None, &s("q"), &s("vo"), &s("v"), &None, &None, &s("found"));
    assert_eq!((te, vae, t5), (s("q"), s("vo"), s("found")));
    let (_, _, t5) = anima_assets(&None, &None, &None, &None, &s("k"), &s("b"), &s("f"));
    assert_eq!(t5, s("k"));
    assert!(!warmup_applies(SchedulerKind::Constant));
    assert!(warmup_applies(SchedulerKind::Cosine));
}
