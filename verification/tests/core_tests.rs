use tiandi::domain::{BaseModel, Checkpoint, Dataset, Project, Recipe, Run};
use tiandi::family::ModelFamily;
use tiandi::state::{find_state_path, RunState, RunStateError};

const ALL: [RunState; 10] = [
    RunState::Created,
    RunState::Queued,
    RunState::Preparing,
    RunState::Running,
    RunState::Paused,
    RunState::Sampling,
    RunState::Saving,
    RunState::Done,
    RunState::Failed,
    RunState::Canceled,
];

fn is_uuid_v4(s: &str) -> bool {
    let b: Vec<char> = s.chars().collect();
    b.len() == 36
        && b.iter().enumerate().all(|(i, c)| {
            if [8, 13, 18, 23].contains(&i) {
                *c == '-'
            } else {
                c.is_ascii_digit() || ('a'..='f').contains(c)
            }
        })
        && b[14] == '4'
        && ['8', '9', 'a', 'b'].contains(&b[19])
}

#[test]
fn family_backend_routing() {
    assert_eq!(ModelFamily::Sdxl1.backend(), "sd-scripts");
    assert_eq!(ModelFamily::DitAnima.backend(), "sd-scripts");
    assert_eq!(ModelFamily::DitKrea2.backend(), "ai-toolkit");
}

#[test]
fn run_defaults_to_created() {
    let r = Run::new(None, None, None, None);
    assert_eq!(r.state, RunState::Created);
    assert!(r.updated_at >= r.created_at || r.updated_at == r.created_at);
}

#[test]
fn recipe_carries_family_and_data() {
    let data: serde_json::Value = serde_json::from_str(r#"{"lr": 1e-4}"#).unwrap();
    let r = Recipe::new("SDXL 入门", ModelFamily::Sdxl1, data);
    assert_eq!(r.family, ModelFamily::Sdxl1);
    assert_eq!(r.data["lr"], serde_json::Value::from(1e-4));
}

#[test]
fn happy_path_created_to_done() {
    let chain = [
        RunState::Created,
        RunState::Queued,
        RunState::Preparing,
        RunState::Running,
        RunState::Sampling,
        RunState::Saving,
        RunState::Done,
    ];
    for pair in chain.windows(2) {
        assert!(pair[0].can_transition_to(pair[1]), "{:?} -> {:?}", pair[0], pair[1]);
    }
}

#[test]
fn pause_and_resume() {
    assert!(RunState::Running.can_transition_to(RunState::Paused));
    assert!(RunState::Paused.can_transition_to(RunState::Running));
    assert!(!RunState::Paused.can_transition_to(RunState::Done));
}

#[test]
fn failed_is_restartable_but_terminal() {
    assert!(RunState::Failed.is_terminal());
    assert!(!RunState::Failed.can_transition_to(RunState::Queued));
}

#[test]
fn terminal_states_accept_nothing() {
    for terminal in [RunState::Done, RunState::Failed, RunState::Canceled] {
        for other in ALL {
            assert!(!terminal.can_transition_to(other));
        }
    }
}

#[test]
fn labels_are_non_empty() {
    for s in ALL {
        assert!(!s.as_str().is_empty());
        assert!(!s.label().is_empty());
    }
}

#[test]
fn state_names_and_labels() {
    assert_eq!(RunState::Queued.as_str(), "queued");
    assert_eq!(RunState::Canceled.as_str(), "canceled");
    assert_eq!(RunState::Done.label(), "出炉");
    assert_eq!(RunState::Failed.label(), "炸炉");
    assert_eq!(ModelFamily::DitAnima.label(), "Anima (DiT)");
}

#[test]
fn legal_transitions_agree_with_can_transition_to() {
    for a in ALL {
        let legal = a.legal_transitions();
        for b in ALL {
            assert_eq!(legal.contains(&b), a.can_transition_to(b), "{a:?} -> {b:?}");
        }
        // A state accepts a move exactly when it is not terminal.
        assert_eq!(legal.is_empty(), a.is_terminal());
    }
}

#[test]
fn index_roundtrip() {
    for (i, s) in ALL.iter().enumerate() {
        assert_eq!(s.index(), i);
        assert_eq!(RunState::from_index(i), *s);
    }
}

#[test]
fn state_path_walks_legal_moves() {
    let p = find_state_path(RunState::Preparing, RunState::Done);
    assert_eq!(p, vec![RunState::Preparing, RunState::Running, RunState::Done]);
    assert!(find_state_path(RunState::Done, RunState::Running).is_empty());
    assert!(find_state_path(RunState::Running, RunState::Running).is_empty());
    for a in ALL {
        for b in ALL {
            let p = find_state_path(a, b);
            if !p.is_empty() {
                assert_eq!(p[0], a);
                assert_eq!(*p.last().unwrap(), b);
                for w in p.windows(2) {
                    assert!(w[0].can_transition_to(w[1]));
                }
            }
        }
    }
}

#[test]
fn state_path_is_the_shortest() {
    assert_eq!(
        find_state_path(RunState::Created, RunState::Done),
        vec![RunState::Created, RunState::Queued, RunState::Preparing, RunState::Running, RunState::Done]
    );
    assert_eq!(find_state_path(RunState::Sampling, RunState::Done), vec![RunState::Sampling, RunState::Done]);
    assert_eq!(
        find_state_path(RunState::Paused, RunState::Saving),
        vec![RunState::Paused, RunState::Running, RunState::Saving]
    );
}

#[test]
fn run_state_error_keeps_states() {
    let e = RunStateError::new(RunState::Done, RunState::Queued);
    assert_eq!(e.from, RunState::Done);
    assert_eq!(e.to, RunState::Queued);
}

#[test]
fn new_entities_get_ids_and_times() {
    let p = Project::new("测试项目", "D:\\tiandi-ws");
    assert!(is_uuid_v4(&p.id), "{}", p.id);
    assert_eq!(p.root_dir, "D:\\tiandi-ws");
    assert!(p.created_at.ends_with("+00:00"), "{}", p.created_at);
    let m = BaseModel::new("noobai", ModelFamily::Sdxl1, Some("D:/m.safetensors".into()), None, None);
    assert_eq!(m.family, ModelFamily::Sdxl1);
    assert_eq!(m.path.as_deref(), Some("D:/m.safetensors"));
    let d = Dataset::new("ds", "D:/ds");
    assert_eq!(d.image_count, 0);
    let c = Checkpoint::new("r1", "lora", "r1/a.safetensors");
    assert_eq!(c.kind, "lora");
    assert_ne!(Project::new("a", "b").id, Project::new("a", "b").id);
    let r = Run::new(Some("p".into()), None, None, None);
    assert_eq!(r.updated_at, r.created_at);
    assert_eq!(r.project_id.as_deref(), Some("p"));
    assert!(r.manifest_path.is_none());
}
