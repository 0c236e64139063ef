use tiandi::family::ModelFamily;
use tiandi::number::{real_double, real_le, real_lt, Real};
use tiandi::recipe::file::{family_to_str, str_to_family, RecipeFile, RecipeFileError, RecipeMeta};
use tiandi::recipe::preset::builtin_presets;
use tiandi::recipe::schema::{NetworkType, OptimizerKind, Precision, PredictionType, RecipeData, SchedulerKind};
use tiandi::recipe::validate::{has_errors, validate_recipe, IssueLevel};

fn float(x: f64) -> Real {
    Real { bits: x.to_bits(), text: format!("{}", x) }
}

#[test]
fn defaults_are_valid_sdxl_starting_point() {
    let d = RecipeData::default();
    assert_eq!(d.resolution, 1024);
    assert_eq!(d.optimizer, OptimizerKind::AdamW8Bit);
    assert!(f64::from_bits(d.learning_rate.bits) > 0.0);
    assert_eq!(d.learning_rate.text, "0.0001");
}

#[test]
fn default_recipe_passes_for_sdxl() {
    let issues = validate_recipe(ModelFamily::Sdxl1, &RecipeData::default());
    assert!(issues.iter().all(|i| i.level != IssueLevel::Error), "{issues:?}");
}

#[test]
fn bad_lr_is_error() {
    let data = RecipeData { learning_rate: float(5.0), ..RecipeData::default() };
    let issues = validate_recipe(ModelFamily::Sdxl1, &data);
    assert!(issues.iter().any(|i| i.field == "learning_rate" && i.level == IssueLevel::Error));
    assert!(has_errors(&issues));
}

#[test]
fn block_weights_rejected_outside_sdxl() {
    let data = RecipeData {
        block_weights: Some("1,1,1,1,1,1,1,1,1,1,1,1,1,1,1,1,1,1,1,1,1,1,1,1,1".into()),
        ..RecipeData::default()
    };
    let issues = validate_recipe(ModelFamily::DitKrea2, &data);
    assert!(issues.iter().any(|i| i.field == "block_weights"));
    let issues = validate_recipe(ModelFamily::Sdxl1, &data);
    assert!(!issues.iter().any(|i| i.field == "block_weights"));
}

#[test]
fn anima_fp16_warns() {
    let data = RecipeData::default();
    let issues = validate_recipe(ModelFamily::DitAnima, &data);
    assert!(!issues.iter().any(|i| i.field == "mixed_precision"));
    let mut d = data;
    d.mixed_precision = Precision::Fp16;
    let issues = validate_recipe(ModelFamily::DitAnima, &d);
    assert!(issues.iter().any(|i| i.field == "mixed_precision"));
}

#[test]
fn all_presets_validate_without_errors() {
    for preset in builtin_presets() {
        let family = preset.family().unwrap();
        let issues = validate_recipe(family, &preset.data);
        assert!(issues.iter().all(|i| i.level == IssueLevel::Warning), "{} {issues:?}", preset.meta.name);
    }
}

#[test]
fn presets_have_distinct_families() {
    let families: Vec<_> = builtin_presets().iter().map(|p| p.family().unwrap()).collect();
    assert!(families.contains(&ModelFamily::Sdxl1));
    assert!(families.contains(&ModelFamily::DitAnima));
    assert!(families.contains(&ModelFamily::DitKrea2));
}

#[test]
fn unknown_family_rejected() {
    let f = RecipeFile {
        meta: RecipeMeta { name: "bad".into(), family: "unknown_family".into(), ..RecipeMeta::default() },
        data: RecipeData::default(),
    };
    assert!(f.family().is_err());
    match str_to_family("unknown_family") {
        Err(RecipeFileError::UnknownFamily(s)) => assert_eq!(s, "unknown_family"),
        other => panic!("{other:?}"),
    }
}

#[test]
fn family_names_roundtrip() {
    for f in [ModelFamily::Sdxl1, ModelFamily::DitAnima, ModelFamily::DitKrea2] {
        assert_eq!(str_to_family(family_to_str(f)).unwrap(), f);
    }
    assert_eq!(family_to_str(ModelFamily::DitAnima), "dit_anima");
}

#[test]
fn new_recipe_file_meta() {
    let f = RecipeFile::new("SDXL 入门", ModelFamily::Sdxl1, RecipeData::default());
    assert_eq!(f.meta.name, "SDXL 入门");
    assert_eq!(f.meta.family, "sdxl1");
    assert_eq!(f.meta.version, "1.0");
    assert!(f.meta.tags.is_empty() && f.meta.description.is_empty());
    assert_eq!(f.family().unwrap(), ModelFamily::Sdxl1);
    assert_eq!(RecipeMeta::default().version, "1.0");
}

#[test]
fn presets_are_the_catalogue() {
    let p = builtin_presets();
    let names: Vec<&str> = p.iter().map(|x| x.meta.name.as_str()).collect();
    assert_eq!(
        names,
        vec!["SDXL 入门（NoobAI/Illusion）", "SDXL 进阶（低 LR + LoCon + 块权重）", "Anima 入门（DiT）", "Krea 2 入门（DiT）"]
    );
    assert_eq!(p[1].data.network_type, NetworkType::Locon);
    assert_eq!(p[1].data.optimizer, OptimizerKind::Prodigy);
    assert_eq!(p[3].data.learning_rate.text, "0.0005");
    assert_eq!(p[3].data.lr_scheduler, SchedulerKind::ConstantWithWarmup);
    assert_eq!(p[2].data.sample_sampler, "euler");
}

#[test]
fn validator_findings_in_order() {
    let data = RecipeData {
        learning_rate: float(0.0),
        network_dim: 0,
        batch_size: 65,
        save_every_n_epochs: 0,
        lr_warmup_ratio: float(0.6),
        ..RecipeData::default()
    };
    let issues = validate_recipe(ModelFamily::Sdxl1, &data);
    let fields: Vec<&str> = issues.iter().map(|i| i.field.as_str()).collect();
    assert_eq!(
        fields,
        vec!["learning_rate", "network_dim", "batch_size", "lr_warmup_ratio", "save_every_n_epochs", "shuffle_caption", "caption_dropout_rate"]
    );
    assert_eq!(issues[0].message, "学习率 0 超出合理范围 (0, 0.1]");
    assert_eq!(issues[1].message, "network_dim 0 超出范围 [1, 256]");
    assert_eq!(issues[3].level, IssueLevel::Warning);
}

#[test]
fn nan_learning_rate_is_error() {
    let data = RecipeData { learning_rate: float(f64::NAN), ..RecipeData::default() };
    let issues = validate_recipe(ModelFamily::Sdxl1, &data);
    assert!(issues.iter().any(|i| i.field == "learning_rate" && i.level == IssueLevel::Error));
    // 0.1 itself is allowed.
    let data = RecipeData { learning_rate: float(0.1), ..RecipeData::default() };
    let issues = validate_recipe(ModelFamily::Sdxl1, &data);
    assert!(!issues.iter().any(|i| i.field == "learning_rate"));
}

#[test]
fn text_encoder_rate_far_above_unet_warns() {
    let data = RecipeData {
        text_encoder_lr: Some(float(0.001)),
        unet_lr: Some(float(0.0001)),
        ..RecipeData::default()
    };
    let issues = validate_recipe(ModelFamily::Sdxl1, &data);
    assert!(issues.iter().any(|i| i.field == "text_encoder_lr" && i.level == IssueLevel::Warning));
}

#[test]
fn binary64_comparisons() {
    let b = |x: f64| x.to_bits();
    assert!(real_lt(b(1.0), b(2.0)));
    assert!(!real_lt(b(f64::NAN), b(2.0)));
    assert!(real_le(b(-0.0), b(0.0)));
    assert!(real_lt(b(-3.0), b(-1.0)));
    assert_eq!(f64::from_bits(real_double(b(1.5))), 3.0);
    assert_eq!(f64::from_bits(real_double(b(f64::MAX))), f64::INFINITY);
    assert_eq!(float(0.5).bits, tiandi::number::HALF_BITS);
}

#[test]
fn labels_of_options() {
    assert_eq!(OptimizerKind::CAME.label(), "CAME (pytorch_optimizer)");
    assert_eq!(SchedulerKind::CosineWithRestarts.label(), "cosine_with_restarts");
    assert_eq!(NetworkType::Tlora.label(), "T-LoRA");
    assert_eq!(PredictionType::V.label(), "v（速度场）");
    assert!(RecipeData::family_supported(ModelFamily::DitKrea2));
}
