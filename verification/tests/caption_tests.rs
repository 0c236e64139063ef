use tiandi::api::{
    asset_kind_dir, check_deletable, check_enqueue, check_model_input, checkpoint_name, renamed_file, ApiError,
};
use tiandi::captions::{
    apply_rules, caption_tags, check_rules, log_tail, replace_in_captions, replace_text, tag_exit, tag_stats, tag_step,
    ReplaceRule, TagStep,
    LOG_TAIL_LINES,
};
use tiandi::compat::launch::{check_tag_mode, tagging_env};
use tiandi::domain::{Run, RunManifest};
use tiandi::family::ModelFamily;
use tiandi::hash::find_duplicates;
use tiandi::queue::{check_model_family, fails_run, is_interrupted, settings_env};
use tiandi::doctor::{disk_low, gpu_summary, kernel_ready, kernel_status, memory_ok, parse_gpu_query, KernelProbe};
use tiandi::mirror::mirror_group_names;
use tiandi::paths::escapes_root;
use tiandi::scan::{image_records, scan_order, scan_summary, ImageEntry};
use tiandi::state::RunState;

fn rule(find: &str, replace: &str, regex: Option<bool>) -> ReplaceRule {
    ReplaceRule { find: find.to_string(), replace: replace.to_string(), regex }
}

fn owned(v: &[&str]) -> Vec<String> {
    v.iter().map(|s| s.to_string()).collect()
}

#[test]
fn caption_tags_are_trimmed_and_blank_ones_dropped() {
    assert_eq!(caption_tags(" a, b ,, c "), owned(&["a", "b", "c"]));
    assert_eq!(caption_tags(""), Vec::<String>::new());
    assert_eq!(caption_tags(" , ,"), Vec::<String>::new());
    assert_eq!(caption_tags("1girl,\u{3000}solo"), owned(&["1girl", "solo"]));
}

#[test]
fn tag_stats_counts_desc_then_by_tag() {
    let caps = owned(&["a, b", "b, c", "b", "c"]);
    let stats = tag_stats(&caps);
    assert_eq!(stats, vec![("b".to_string(), 3), ("c".to_string(), 2), ("a".to_string(), 1)]);
    assert!(tag_stats(&[]).is_empty());
}

#[test]
fn replace_text_matches_str_replace() {
    assert_eq!(replace_text("aaa", "aa", "b"), "aaa".replace("aa", "b"));
    assert_eq!(replace_text("aaa", "aa", "b"), "ba");
    assert_eq!(replace_text("ab", "", "-"), "-a-b-");
    assert_eq!(replace_text("", "", "x"), "x");
    assert_eq!(replace_text("cat, dog", "cat", "kitten"), "kitten, dog");
    assert_eq!(replace_text("none here", "zzz", "y"), "none here");
}

#[test]
fn rules_apply_in_order_and_report_change() {
    let rules = vec![rule("cat", "dog", None), rule("d(o)g", "${1}x", Some(true))];
    assert!(check_rules(&rules).is_ok());
    assert_eq!(apply_rules("cat, cat", &rules), ("ox, ox".to_string(), true));
    let plain = vec![rule("zzz", "y", Some(false))];
    assert_eq!(apply_rules("a", &plain), ("a".to_string(), false));
    // A rule that rewrites to the same text is no change.
    let same = vec![rule("a", "a", None)];
    assert_eq!(apply_rules("a", &same), ("a".to_string(), false));
}

#[test]
fn bad_regex_refuses_the_batch() {
    let rules = vec![rule("x", "y", None), rule("(", "y", Some(true))];
    match check_rules(&rules) {
        Err(ApiError::BadRequest(m)) => assert_eq!(m, "正则无效：("),
        other => panic!("unexpected {other:?}"),
    }
    match replace_in_captions(&owned(&["x"]), &rules) {
        Err(ApiError::BadRequest(m)) => assert_eq!(m, "正则无效：("),
        other => panic!("unexpected {other:?}"),
    }
    // "(" as a plain rule is no regular expression.
    let plain = vec![rule("(", "[", None)];
    assert!(check_rules(&plain).is_ok());
}

#[test]
fn batch_replace_rewrites_each_caption() {
    let rules = vec![rule("red", "blue", None)];
    let out = replace_in_captions(&owned(&["red hair", "green", "red, red"]), &rules).unwrap();
    assert_eq!(
        out,
        vec![("blue hair".to_string(), true), ("green".to_string(), false), ("blue, blue".to_string(), true)]
    );
}

#[test]
fn log_tail_keeps_last_lines() {
    let text: Vec<String> = (0..305).map(|i| format!("l{i}")).collect();
    let tail = log_tail(&text.join("\n"));
    assert_eq!(tail.len(), LOG_TAIL_LINES);
    assert_eq!(tail[0], "l5");
    assert_eq!(tail[299], "l304");
    assert_eq!(log_tail("x\r\ny\n"), owned(&["x", "y"]));
    assert_eq!(log_tail(""), Vec::<String>::new());
    assert_eq!(log_tail("a\n\nb"), owned(&["a", "", "b"]));
}

#[test]
fn checkpoint_rename_rules() {
    assert_eq!(checkpoint_name("  final ").unwrap(), "final");
    for bad in ["", "   ", "a/b", r"a\b", "c:x"] {
        match checkpoint_name(bad) {
            Err(ApiError::BadRequest(m)) => assert_eq!(m, "名称不能为空且不能包含路径分隔符"),
            other => panic!("unexpected {other:?}"),
        }
    }
    assert_eq!(renamed_file("final", "safetensors"), "final.safetensors");
    assert_eq!(renamed_file("final", ""), "final");
}

#[test]
fn settings_reach_the_kernel_env() {
    let settings = vec![
        ("hf_endpoint".to_string(), "https://hf-mirror.com".to_string()),
        ("theme".to_string(), "dark".to_string()),
        ("pip_index".to_string(), "https://pypi.example/simple".to_string()),
    ];
    assert_eq!(
        settings_env(&settings),
        vec![
            ("HF_ENDPOINT".to_string(), "https://hf-mirror.com".to_string()),
            ("PIP_INDEX_URL".to_string(), "https://pypi.example/simple".to_string()),
        ]
    );
    assert!(settings_env(&[]).is_empty());
}

#[test]
fn model_family_must_match_recipe() {
    assert!(check_model_family(false, "m", ModelFamily::Sdxl1, ModelFamily::DitAnima).is_ok());
    assert!(check_model_family(true, "m", ModelFamily::DitAnima, ModelFamily::DitAnima).is_ok());
    let e = check_model_family(true, "noob", ModelFamily::Sdxl1, ModelFamily::DitAnima).unwrap_err();
    assert!(e.starts_with("底模「noob」属于 SDXL 1.0 族，与丹方 "));
    assert!(e.ends_with(" 族不匹配（会在模型加载阶段失败）。请在丹方页选择正确的底模或模型族"));
}

#[test]
fn interrupted_and_failing_states() {
    for s in [RunState::Preparing, RunState::Running, RunState::Paused, RunState::Sampling, RunState::Saving] {
        assert!(is_interrupted(s));
    }
    for s in [RunState::Created, RunState::Queued, RunState::Done, RunState::Failed, RunState::Canceled] {
        assert!(!is_interrupted(s));
    }
    assert!(fails_run(RunState::Running));
    assert!(fails_run(RunState::Queued));
    assert!(!fails_run(RunState::Done));
    assert!(!fails_run(RunState::Canceled));
}

#[test]
fn tag_mode_and_env() {
    assert_eq!(check_tag_mode(&None).unwrap(), "mock");
    assert_eq!(check_tag_mode(&Some("wd14".to_string())).unwrap(), "wd14");
    match check_tag_mode(&Some("clip".to_string())) {
        Err(ApiError::BadRequest(m)) => assert_eq!(m, "mode 仅支持 mock / wd14"),
        other => panic!("unexpected {other:?}"),
    }
    assert!(matches!(tagging_env("d1", "/ds", "wd14", &None), Err(ApiError::BadRequest(_))));
    let env = tagging_env("d1", "/ds", "wd14", &Some("/k/tag.py".to_string())).unwrap();
    assert_eq!(
        env,
        vec![
            ("TIANDI_RUN_ID".to_string(), "tag-d1".to_string()),
            ("TIANDI_TAGGER_DIR".to_string(), "/ds".to_string()),
            ("TIANDI_TAGGER_MODE".to_string(), "wd14".to_string()),
            ("TIANDI_WD14_SCRIPT".to_string(), "/k/tag.py".to_string()),
        ]
    );
    let mock = tagging_env("d1", "/ds", "mock", &Some("/k/tag.py".to_string())).unwrap();
    assert_eq!(mock.len(), 3);
}

#[test]
fn manifest_copies_run_fields() {
    let run = Run::new(Some("p".to_string()), Some("d".to_string()), None, None);
    let m = RunManifest::from_run(&run, serde_json::Value::Null);
    assert_eq!(m.run_id, run.id);
    assert_eq!(m.project_id.as_deref(), Some("p"));
    assert_eq!(m.dataset_id.as_deref(), Some("d"));
    assert_eq!(m.recipe_id, None);
    assert_eq!(m.state, RunState::Created);
    assert_eq!(m.created_at, run.created_at);
    assert_eq!(m.params, serde_json::Value::Null);
}

#[test]
fn seven_bits_apart_across_blocks_are_grouped() {
    let a: u64 = 0x8000_0000_0000_0001;
    let flip: u64 = (0b11 << 1) | (0b11 << 17) | (0b11 << 33) | (1 << 49);
    let b = a ^ flip;
    assert_eq!((a ^ b).count_ones(), 7);
    let groups = find_duplicates(&[("a.png".to_string(), a), ("b.png".to_string(), b)], 7);
    assert_eq!(groups.len(), 1);
    assert_eq!(groups[0].len(), 2);
    let none = find_duplicates(&[("a.png".to_string(), a), ("b.png".to_string(), b)], 6);
    assert!(none.is_empty());
}

#[test]
fn scan_order_is_stable_by_path() {
    let paths = owned(&["b.png", "a/x.png", "b.png", "a.png"]);
    assert_eq!(scan_order(&paths), vec![3, 1, 0, 2]);
    assert!(scan_order(&[]).is_empty());
}

#[test]
fn scan_summary_counts_groups_and_buckets() {
    let a: u64 = 0xF0F0_F0F0_F0F0_F0F0;
    let hashes = vec![
        ("a.png".to_string(), a),
        ("b.png".to_string(), a ^ 1),
        ("c.png".to_string(), !a),
        ("d.png".to_string(), 0),
    ];
    let dims = vec![(1024, 1024), (1024, 1024), (1536, 640), (10, 20)];
    let labels = vec![Some("1024x1024".to_string()), Some("1024x1024".to_string()), Some("1536x640".to_string()), None];
    let s = scan_summary(6, 1, &hashes, &dims, &labels, 5);
    assert_eq!(s.total, 4);
    assert_eq!(s.invalid, 2);
    assert_eq!(s.scan_errors, 1);
    assert_eq!(s.duplicate_groups, vec![owned(&["a.png", "b.png"])]);
    assert_eq!(s.buckets, vec![("1024x1024".to_string(), 2), ("1536x640".to_string(), 1)]);
    assert_eq!(s.sum_width, 1024 + 1024 + 1536 + 10);
    assert_eq!(s.sum_height, 1024 + 1024 + 640 + 20);
}

fn entry(path: &str) -> ImageEntry {
    ImageEntry {
        path: path.to_string(),
        width: 512,
        height: 768,
        dhash: "00000000000000ff".to_string(),
        bucket: Some("512x768".to_string()),
        thumb: None,
        exif: Some("{\"Make\":\"X\"}".to_string()),
    }
}

#[test]
fn duplicates_link_to_the_first_of_their_group() {
    let entries = vec![entry("a.png"), entry("b.png"), entry("c.png"), entry("d.png")];
    let groups = vec![owned(&["b.png", "a.png", "d.png"])];
    let recs = image_records("ds1", entries, &groups);
    assert_eq!(recs.len(), 4);
    assert_eq!(recs[0].path, "a.png");
    assert_eq!(recs[0].dataset_id, "ds1");
    assert_eq!(recs[0].width, Some(512));
    assert_eq!(recs[0].dhash.as_deref(), Some("00000000000000ff"));
    assert_eq!(recs[0].exif.as_deref(), Some("{\"Make\":\"X\"}"));
    assert!(recs[0].created_at.ends_with("+00:00"));
    assert_eq!(recs[0].id.len(), 36);
    assert_ne!(recs[0].id, recs[1].id);
    assert_eq!(recs[0].duplicate_of.as_deref(), Some(recs[1].id.as_str()));
    assert_eq!(recs[1].duplicate_of, None);
    assert_eq!(recs[2].duplicate_of, None);
    assert_eq!(recs[3].duplicate_of.as_deref(), Some(recs[1].id.as_str()));
    // A group whose first member is not among the images links nothing.
    let recs = image_records("ds1", vec![entry("a.png")], &[owned(&["zz.png", "a.png"])]);
    assert_eq!(recs[0].duplicate_of, None);
}

#[test]
fn mirror_group_names_prefix_and_dedupe() {
    assert_eq!(mirror_group_names(true, 2, &[]), owned(&["2_data"]));
    assert_eq!(mirror_group_names(false, 1, &owned(&["tag", "10_cat"])), owned(&["10_cat", "1_tag"]));
    assert_eq!(mirror_group_names(false, 1, &owned(&["tag", "1_tag"])), owned(&["1_tag", "1_tag_2"]));
    assert_eq!(mirror_group_names(true, 1, &owned(&["1_data"])), owned(&["1_data", "1_data_2"]));
    assert_eq!(
        mirror_group_names(true, 1, &owned(&["1_data", "data", "1-data"])),
        owned(&["1_data", "1_data_2", "1_data_3", "1_data_4"])
    );
    assert_eq!(mirror_group_names(false, 3, &owned(&["2-art", "我的图"])), owned(&["2_art", "1_我的图"]));
}

#[test]
fn tagging_follows_tagger_events() {
    assert!(matches!(tag_step(0, Some("progress"), Some(3), None), TagStep::Continue(3)));
    assert!(matches!(tag_step(7, Some("progress"), None, None), TagStep::Continue(7)));
    assert!(matches!(tag_step(7, Some("log"), Some(9), None), TagStep::Continue(7)));
    assert!(matches!(tag_step(7, None, Some(9), None), TagStep::Continue(7)));
    assert!(matches!(tag_step(7, Some("done"), None, None), TagStep::Stop));
    match tag_step(7, Some("fail"), None, Some("CUDA OOM")) {
        TagStep::Fail(t) => assert_eq!(t, "CUDA OOM"),
        other => panic!("unexpected {other:?}"),
    }
    match tag_step(7, Some("fail"), None, None) {
        TagStep::Fail(t) => assert_eq!(t, "打标失败"),
        other => panic!("unexpected {other:?}"),
    }
    assert!(tag_exit(true, Some(0)).is_ok());
    match tag_exit(false, Some(2)) {
        Err(ApiError::Internal(m)) => assert_eq!(m, "打标进程退出码 2"),
        other => panic!("unexpected {other:?}"),
    }
    match tag_exit(false, None) {
        Err(ApiError::Internal(m)) => assert_eq!(m, "打标进程退出码 -1"),
        other => panic!("unexpected {other:?}"),
    }
}

#[test]
fn doctor_judgements() {
    let gib: u64 = 1 << 30;
    assert!(memory_ok(8 * gib + 1));
    assert!(!memory_ok(8 * gib));
    assert!(disk_low(20 * gib - 1));
    assert!(!disk_low(20 * gib));
    let missing = kernel_status(&KernelProbe::Missing);
    assert!(missing.starts_with("未安装"));
    assert!(!kernel_ready(&missing));
    let ok = kernel_status(&KernelProbe::Installed {
        torch: "2.7.0+cu128".to_string(),
        commit: "068bcd7".to_string(),
        cuda: "True".to_string(),
    });
    assert_eq!(ok, "已安装（torch 2.7.0+cu128，commit 068bcd7，cuda=True）");
    assert!(kernel_ready(&ok));
    let no_cuda = kernel_status(&KernelProbe::Installed {
        torch: "2.7.0".to_string(),
        commit: "068bcd7".to_string(),
        cuda: "False".to_string(),
    });
    assert!(!kernel_ready(&no_cuda));
    assert!(!kernel_ready(&kernel_status(&KernelProbe::Corrupt)));
    assert_eq!(kernel_status(&KernelProbe::Unreadable), "已安装（清单不可读）");
}

#[test]
fn run_and_model_request_checks() {
    assert!(check_enqueue(RunState::Created).is_ok());
    assert!(check_enqueue(RunState::Failed).is_ok());
    match check_enqueue(RunState::Running) {
        Err(ApiError::Conflict(m)) => {
            assert!(m.starts_with("任务状态 "));
            assert!(m.ends_with(" 不可入队（需 已创建/炸炉）"));
        }
        other => panic!("unexpected {other:?}"),
    }
    assert!(check_deletable(RunState::Done).is_ok());
    assert!(check_deletable(RunState::Canceled).is_ok());
    assert!(matches!(check_deletable(RunState::Queued), Err(ApiError::Conflict(_))));
    assert!(matches!(check_model_input("noob", "sdxl1"), Ok(ModelFamily::Sdxl1)));
    match check_model_input("  ", "dit_anima") {
        Err(ApiError::BadRequest(m)) => assert_eq!(m, "模型名称不能为空"),
        other => panic!("unexpected {other:?}"),
    }
    match check_model_input("x", "sd15") {
        Err(ApiError::BadRequest(m)) => assert_eq!(m, "未知模型族：sd15（可选 sdxl1 / dit_anima / dit_krea2）"),
        other => panic!("unexpected {other:?}"),
    }
    assert_eq!(asset_kind_dir("vae").unwrap(), "vae");
    assert_eq!(asset_kind_dir("base_model").unwrap(), "base_model");
    match asset_kind_dir("lora") {
        Err(ApiError::BadRequest(m)) => assert_eq!(m, "未知资产类型：lora（base_model / vae / clip）"),
        other => panic!("unexpected {other:?}"),
    }
}

#[test]
fn gpu_query_parsing() {
    let g = parse_gpu_query(" NVIDIA GeForce RTX 5090, 1024, 32607, 3 \n").unwrap();
    assert_eq!(g.name, "NVIDIA GeForce RTX 5090");
    assert_eq!(g.mem_used_mb, 1024);
    assert_eq!(g.mem_total_mb, 32607);
    assert_eq!(g.util_percent, 3);
    assert!(parse_gpu_query("RTX, 1, 2").is_none());
    assert!(parse_gpu_query("RTX, 1, x, 2").is_none());
    assert!(parse_gpu_query("").is_none());
    assert_eq!(gpu_summary("  a, 1\nb, 2 \n"), Some("a, 1 | b, 2".to_string()));
    assert_eq!(gpu_summary(" \n "), None);
}

#[test]
fn artefact_paths_that_leave_the_output_root() {
    assert!(!escapes_root("run1/checkpoints/sample/a.png", false));
    assert!(!escapes_root("a/..b/...", false));
    assert!(escapes_root("../x.png", false));
    assert!(escapes_root("run1/../../etc/passwd", false));
    assert!(escapes_root("run1/..", false));
    assert!(escapes_root("/abs/x.png", false));
    assert!(!escapes_root(r"run1\..\x.png", false));
    assert!(escapes_root(r"run1\..\x.png", true));
    assert!(escapes_root(r"\x.png", true));
    assert!(escapes_root("C:x.png", true));
    assert!(!escapes_root("C:x.png", false));
    assert!(!escapes_root("", false));
}
