use replicator::progress_view::{card_choice, finish_summary, overshoot_warning, unbound_names};

fn strings(v: &[&str]) -> Vec<String> {
    v.iter().map(|s| s.to_string()).collect()
}

#[test]
fn binding_panel_preselects_the_assigned_option() {
    let options = strings(&["山", "能天使", "陈"]);
    let assignments = vec![(4, "陈".to_string()), (2, "山".to_string()), (4, "山".to_string())];
    assert_eq!(card_choice(4, &options, &assignments), 3);
    assert_eq!(card_choice(2, &options, &assignments), 1);
    assert_eq!(card_choice(7, &options, &assignments), 0);
    let unknown = vec![(1, "W".to_string())];
    assert_eq!(card_choice(1, &options, &unknown), 0);
}

#[test]
fn unbound_names_skip_assigned_ones_in_order() {
    let opers = strings(&["山", "能天使", "陈", "W"]);
    let assignments = vec![(0, "能天使".to_string()), (1, "W".to_string())];
    assert_eq!(unbound_names(&opers, &assignments), strings(&["山", "陈"]));
}

#[test]
fn finish_summary_marks_continued_runs() {
    assert_eq!(finish_summary(12, 3, 0, 0, false), "复刻完成。脉冲 12 次（空脉冲 3，跨帧 0）");
    assert_eq!(
        finish_summary(7, 1, 2, 4, true),
        "带风险完成，4 个动作为用户确认完成。后续脉冲 7 次（空脉冲 1，跨帧 2）；本次不能计入精确复刻验收"
    );
    assert!(overshoot_warning(0).is_none());
    assert!(overshoot_warning(2).unwrap().starts_with("警告：AFA 逐帧动作出现过跨帧"));
}
