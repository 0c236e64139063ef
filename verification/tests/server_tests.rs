use tiandi::api::{check_recipe_issues, check_transition, not_found, parse_family, ApiError, ServerConfig};
use tiandi::family::ModelFamily;
use tiandi::naming::{
    caption_path_for, default_wrapper_path, normalize_group_name, repeats_from_dir, sample_step_hint,
    venv_python_path,
};
use tiandi::number::Real;
use tiandi::paths::{path_file_name, path_file_stem, path_join, path_with_extension};
use tiandi::recipe::schema::RecipeData;
use tiandi::recipe::validate::validate_recipe;
use tiandi::state::RunState;

fn components(p: &str) -> Vec<&str> {
    p.split(['/', '\\']).filter(|c| !c.is_empty()).collect()
}

#[test]
fn caption_path_follows_kohya_convention() {
    let p = caption_path_for(r"D:\ds", "10_cat/a.png", true);
    assert_eq!(components(&p), components(r"D:\ds\10_cat\a.txt"));
}

#[test]
fn caption_path_replaces_only_the_last_extension() {
    let p = caption_path_for("/ds", "10_cat/a.b.png", false);
    assert_eq!(p, "/ds/10_cat/a.b.txt");
    let q = caption_path_for("/ds", "10_cat/a.png", false);
    assert_eq!(q, "/ds/10_cat/a.txt");
}

#[test]
fn repeats_from_dir_name_prefix() {
    assert_eq!(repeats_from_dir("D:\\数据\\2_artstyle"), 2);
    assert_eq!(repeats_from_dir("D:\\数据\\10_cat"), 10);
    assert_eq!(repeats_from_dir("D:\\数据\\2-artstyle"), 2);
    assert_eq!(repeats_from_dir("D:\\数据\\tag"), 1);
    assert_eq!(repeats_from_dir("D:\\数据\\0_abc"), 1);
    assert_eq!(repeats_from_dir("D:\\数据\\123"), 1);
    assert_eq!(repeats_from_dir(""), 1);
}

#[test]
fn normalize_group_name_rules() {
    assert_eq!(normalize_group_name("tag"), "1_tag");
    assert_eq!(normalize_group_name("10_cat"), "10_cat");
    assert_eq!(normalize_group_name("2-artstyle"), "2_artstyle");
    assert_eq!(normalize_group_name("2 artstyle"), "2_artstyle");
    assert_eq!(normalize_group_name("123"), "1_123");
    assert_eq!(normalize_group_name("我的图"), "1_我的图");
}

#[test]
fn group_names_keep_the_rest_joined() {
    assert_eq!(normalize_group_name("3-a b"), "3_a_b");
    assert_eq!(normalize_group_name("x-"), "1_x-");
    assert_eq!(normalize_group_name("0-cat"), "1_cat");
    assert_eq!(normalize_group_name("+5_x"), "+5_x");
}

#[test]
fn sample_step_hints() {
    assert_eq!(sample_step_hint("mock-step-0010.png"), 10);
    assert_eq!(sample_step_hint("r1/checkpoints/sample/x-000420.png"), 420);
    assert_eq!(sample_step_hint("a.png"), 0);
    assert_eq!(sample_step_hint("x-99999999999.png"), 0);
    assert_eq!(sample_step_hint(""), 0);
}

#[test]
fn path_reading() {
    assert_eq!(path_file_name("a/b/c.txt"), Some("c.txt"));
    assert_eq!(path_file_name("a\\b\\"), Some("b"));
    assert_eq!(path_file_name("a/b/."), Some("b"));
    assert_eq!(path_file_name("a/.."), None);
    assert_eq!(path_file_name("/"), None);
    assert_eq!(path_file_stem("x/.hidden"), Some(".hidden"));
    assert_eq!(path_file_stem("x/a.tar.gz"), Some("a.tar"));
    assert_eq!(path_with_extension("a/b.png", "txt"), "a/b.txt");
    assert_eq!(path_with_extension("a/b.png", ""), "a/b");
    assert_eq!(path_with_extension("a/b/", "txt"), "a/b.txt");
    assert_eq!(path_join("/w", "bin/python", false), "/w/bin/python");
    assert_eq!(path_join("/w/", "x", false), "/w/x");
    assert_eq!(path_join("/w", "/abs", false), "/abs");
    assert_eq!(path_join("D:\\w", "x", true), "D:\\w\\x");
    assert_eq!(path_join("D:", "x", true), "D:x");
    assert_eq!(path_join("D:\\w", "\\root", true), "D:\\root");
    assert_eq!(path_join("", "x", false), "x");
}

#[test]
fn venv_and_wrapper_paths() {
    assert_eq!(venv_python_path("/ws/.kernel/venv", false), "/ws/.kernel/venv/bin/python");
    assert_eq!(venv_python_path("D:\\ws\\venv", true), "D:\\ws\\venv\\Scripts/python.exe");
    assert_eq!(
        default_wrapper_path("/src/crates/tiandi-server", false),
        "/src/crates/tiandi-server/../tiandi-engine-compat/assets/kernel_runner.py"
    );
}

#[test]
fn unknown_family_is_bad_request() {
    assert_eq!(parse_family("dit_krea2").unwrap(), ModelFamily::DitKrea2);
    match parse_family("sd15") {
        Err(ApiError::BadRequest(m)) => assert_eq!(m, "未知模型族：sd15（可选 sdxl1 / dit_anima / dit_krea2）"),
        other => panic!("{other:?}"),
    }
}

#[test]
fn illegal_transition_is_conflict() {
    assert!(check_transition(RunState::Queued, RunState::Preparing).is_ok());
    match check_transition(RunState::Done, RunState::Queued) {
        Err(ApiError::Conflict(m)) => {
            assert_eq!(m, "非法状态迁移：出炉（\"done\"）不可迁移到 排队中（\"queued\"）")
        }
        other => panic!("{other:?}"),
    }
}

#[test]
fn recipes_with_errors_are_refused() {
    assert!(check_recipe_issues(&validate_recipe(ModelFamily::Sdxl1, &RecipeData::default())).is_ok());
    let bad = RecipeData {
        learning_rate: Real { bits: 5.0f64.to_bits(), text: "5".into() },
        network_dim: 0,
        ..RecipeData::default()
    };
    match check_recipe_issues(&validate_recipe(ModelFamily::Sdxl1, &bad)) {
        Err(ApiError::BadRequest(m)) => assert_eq!(
            m,
            "丹方校验失败（2 项错误）：learning_rate: 学习率 5 超出合理范围 (0, 0.1]；network_dim: network_dim 0 超出范围 [1, 256]"
        ),
        other => panic!("{other:?}"),
    }
}

#[test]
fn server_address() {
    let c = ServerConfig::default();
    assert_eq!(c.base_url(), "http://127.0.0.1:18765");
    assert!(c.demo);
    match not_found("任务", "r1") {
        ApiError::NotFound(m) => assert_eq!(m, "任务 r1 不存在"),
        other => panic!("{other:?}"),
    }
}
