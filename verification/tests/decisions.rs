use replicator::config::{
    check_startup_choices, record_binding, restorable_bindings, Binding, BindingProfile, StartupChoiceError,
};
use replicator::editor_view::{editor_can_run, editor_rows, Lane};
use replicator::job_document::JobDocument;
use replicator::machine::FrameView;
use replicator::runner::{classify_takeover_sample, TakeoverDecision};

fn names(v: &[&str]) -> Vec<String> {
    v.iter().map(|s| s.to_string()).collect()
}

fn choices(v: &[(usize, &str)]) -> Vec<(usize, String)> {
    v.iter().map(|(i, s)| (*i, s.to_string())).collect()
}

#[test]
fn startup_choices_are_checked_in_order() {
    let wanted = names(&["山", "能天使"]);
    let cards = vec![0, 1, 2];
    assert!(check_startup_choices(&choices(&[(0, "山"), (2, "能天使")]), &wanted, &cards).is_ok());
    assert!(check_startup_choices(&choices(&[]), &wanted, &cards).is_ok());
    match check_startup_choices(&choices(&[(0, "山"), (1, "陈")]), &wanted, &cards) {
        Err(e @ StartupChoiceError::NotWanted { .. }) => {
            assert_eq!(e.message(), "绑定名称「陈」不在当前开局编队中")
        }
        other => panic!("{other:?}"),
    }
    match check_startup_choices(&choices(&[(0, "山"), (1, "山")]), &wanted, &cards) {
        Err(e @ StartupChoiceError::Duplicate { .. }) => {
            assert_eq!(e.message(), "开局绑定中目标「山」被分配给多张卡片")
        }
        other => panic!("{other:?}"),
    }
    match check_startup_choices(&choices(&[(7, "山"), (1, "陈")]), &wanted, &cards) {
        Err(e @ StartupChoiceError::NoSuchCard { index: 7 }) => {
            assert_eq!(e.message(), "卡片序号 7 不存在")
        }
        other => panic!("{other:?}"),
    }
}

fn binding(name: &str, index: usize) -> Binding {
    Binding {
        name: name.into(),
        index,
        role: "近卫".into(),
        width: 60,
        height: 60,
        avatar_base64: String::new(),
    }
}

#[test]
fn a_new_binding_replaces_its_name_and_its_card() {
    let mut profile = BindingProfile {
        stage_name: "1-7".into(),
        bindings: vec![binding("山", 0), binding("陈", 1), binding("能天使", 2)],
    };
    record_binding(&mut profile, binding("山", 1));
    let got: Vec<(String, usize)> = profile.bindings.iter().map(|b| (b.name.clone(), b.index)).collect();
    assert_eq!(got, vec![("能天使".to_string(), 2), ("山".to_string(), 1)]);
    assert_eq!(profile.stage_name, "1-7");
}

fn view(elapsed: i64, paused: Option<bool>) -> FrameView {
    FrameView {
        frame_id: 9,
        elapsed,
        in_battle: true,
        paused,
        one_x: true,
        trustworthy: true,
        battle_state: "1x_paused".into(),
    }
}

#[test]
fn takeover_samples_are_decided_in_order() {
    assert_eq!(classify_takeover_sample(&view(50, Some(true)), 40, 60), TakeoverDecision::Accept);
    assert_eq!(classify_takeover_sample(&view(40, Some(false)), 40, 60), TakeoverDecision::Accept);
    assert_eq!(classify_takeover_sample(&view(50, None), 40, 60), TakeoverDecision::Ignore);
    assert_eq!(classify_takeover_sample(&view(39, Some(true)), 40, 60), TakeoverDecision::BeforeCutoff);
    assert_eq!(classify_takeover_sample(&view(61, Some(true)), 40, 60), TakeoverDecision::MissedStart);
    let mut v = view(50, Some(true));
    v.one_x = false;
    assert_eq!(classify_takeover_sample(&v, 40, 60), TakeoverDecision::NotOneX);
    v.in_battle = false;
    assert_eq!(classify_takeover_sample(&v, 40, 60), TakeoverDecision::LeftBattle);
    v.trustworthy = false;
    assert_eq!(classify_takeover_sample(&v, 40, 60), TakeoverDecision::Ignore);
}

const LANES: &str = r#"{"stage_name":"x","frame_replicator":true,"opers":[{"name":"A"}],"actions":[
    {"type":"Deploy","frame":10,"name":"A","location":[1,1]},
    {"type":"output","frame":11,"doc":"hi"},
    {"type":"SKILL","frame":12,"location":[2,2]},
    {"type":"Retreat","frame":13},
    {"type":"Deploy","frame":5,"name":"A","location":[1,1]}
]}"#;

#[test]
fn editor_rows_place_actions_on_their_tracks() {
    let document = JobDocument::parse(LANES).unwrap();
    let second = document.actions()[1].id;
    let rows = editor_rows(&document, Some(second));
    assert_eq!(rows.len(), 5);
    let lanes: Vec<Lane> = rows.iter().map(|r| r.lane).collect();
    assert_eq!(lanes, vec![Lane::Operator, Lane::Output, Lane::MapDevice, Lane::Unassigned, Lane::Operator]);
    assert!(!rows[0].selected && rows[1].selected);
    // The retreat without a target is an error; the last deploy goes back in time.
    assert_eq!(rows[3].severity, 2);
    assert_eq!(rows[1].severity, 0);
    assert!(!editor_can_run(&document));
}

#[test]
fn deploy_retreat_deploy_is_clean_and_runnable() {
    let document = JobDocument::parse(
        r#"{"stage_name":"x","frame_replicator":true,"opers":[{"name":"A"}],"actions":[{"type":"Deploy","frame":10,"name":"A","location":[1,1]},{"type":"Retreat","frame":20,"name":"A"},{"type":"Deploy","frame":30,"name":"A","location":[2,2]}]}"#,
    )
    .unwrap();
    assert!(document.diagnostics().is_empty());
    assert!(!document.has_errors());
    assert!(document.compile().is_ok());
    assert!(editor_can_run(&document));
    assert!(editor_rows(&document, None).iter().all(|r| r.severity == 0 && !r.selected));
}

#[test]
fn saved_bindings_restore_wanted_unbound_names_on_visible_cards() {
    let saved = vec![binding("山", 0), binding("陈", 1), binding("能天使", 9), binding("山", 2), binding("W", 3)];
    let got = restorable_bindings(&saved, &names(&["山", "能天使", "W"]), &names(&["W"]), &vec![0, 1, 2, 3]);
    assert_eq!(got, vec![(0, "山".to_string())]);
}
