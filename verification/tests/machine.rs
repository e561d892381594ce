use replicator::copilot::Copilot;
use replicator::machine::{
    AbortReason, Command, Completion, FrameView, Machine, Phase, FRAME_LEAD,
    PAUSE_PROBE_LIMIT, POINT_TWO_GRACE_LIMIT, PULSE_PAUSED_CONFIRM_SAMPLES,
    PULSE_SETTLE_SAMPLE_LIMIT, RUNTIME_PAUSE_MAX_ADVANCE_FRAMES,
};
use replicator::stepping::MIN_GAP_MS;

const JOB: &str = r#"{
    "stage_name": "1-7",
    "frame_replicator": { "after_last_action": "resume" },
    "opers": [{"name": "山"}],
    "actions": [
        {"type":"Deploy","frame":0,"name":"山","location":[3,2]},
        {"type":"Skill","frame":60,"name":"山"},
        {"type":"Retreat","frame":200,"name":"山"}
    ]
}"#;

fn machine() -> Machine {
    Machine::new(Copilot::parse(JOB).unwrap())
}

fn view(frame_id: u64, elapsed: i64, paused: bool) -> FrameView {
    FrameView {
        frame_id,
        elapsed,
        in_battle: true,
        paused: Some(paused),
        one_x: true,
        trustworthy: true,
        battle_state: if paused { "1x_paused" } else { "1x_running" }.into(),
    }
}

/// 走完"等开局 → AFA 自动暂停 → 编队"，返回一台停在第 0 帧、绑定已完成的状态机。
fn machine_at_zero() -> Machine {
    let mut m = machine();
    m.start();
    assert_eq!(m.next_command(), Command::ArmBattleStart);
    m.observe(&view(1, 0, false));
    m.completed(Completion::OpeningPauseDelegated);
    assert_eq!(m.phase(), Phase::ConfirmingZero);
    m.observe(&view(2, 0, true));
    assert_eq!(m.phase(), Phase::BindingFormation);
    assert_eq!(m.next_command(), Command::BindFormation);
    m.completed(Completion::FormationBound);
    m
}

fn confirm_runtime_pause(m: &mut Machine, frame_id: u64, elapsed: i64) {
    assert!(matches!(m.next_command(), Command::AwaitFrame { .. }));
    assert!(m.observe(&view(frame_id, elapsed, true)));
    assert!(!m.pause_in_flight());
    assert!(m.paused());
}

fn confirm_pulse_without_running(m: &mut Machine, frame_id: &mut u64, elapsed: i64) {
    for _ in 0..PULSE_PAUSED_CONFIRM_SAMPLES {
        assert!(m.observe(&view(*frame_id, elapsed, true)));
        *frame_id += 1;
    }
    assert!(!m.pulse_in_flight());
}

#[test]
fn happy_path_reaches_frame_zero_and_injects_immediately() {
    let mut m = machine_at_zero();
    assert_eq!(m.origin(), 0);
    assert_eq!(m.cursor(), 0);
    // 第一个动作就在第 0 帧，应当立刻注入
    assert_eq!(m.next_command(), Command::Execute { index: 0 });
    m.completed(Completion::ActionExecuted);
    assert_eq!(m.progress(), (1, 3));
    assert_eq!(m.target(), Some(60));
}

#[test]
fn opening_pause_is_delegated_to_afa_without_a_pause_command() {
    let mut m = machine();
    m.start();
    assert_eq!(m.next_command(), Command::ArmBattleStart);

    m.observe(&view(1, 0, false));
    m.completed(Completion::OpeningPauseDelegated);
    assert_eq!(m.phase(), Phase::ConfirmingZero);
    assert!(matches!(m.next_command(), Command::AwaitFrame { .. }));

    m.observe(&view(2, 0, true));
    assert_eq!(m.phase(), Phase::BindingFormation);
}

#[test]
fn far_target_cruises_then_pauses_early_then_steps() {
    let mut m = machine_at_zero();
    m.completed(Completion::ActionExecuted); // 第 0 帧的部署做完，目标变成 60

    // 60 - 0 = 60 > FRAME_LEAD，且当前是暂停态 => 先恢复运行
    assert_eq!(m.next_command(), Command::Resume);
    m.completed(Completion::ResumeSent);
    assert_eq!(m.phase(), Phase::Cruising);

    // 巡航：只等帧，不做别的
    assert!(matches!(m.next_command(), Command::AwaitFrame { .. }));
    m.observe(&view(10, 30, false));
    assert_eq!(m.cursor(), 30);
    assert!(matches!(m.next_command(), Command::AwaitFrame { .. }));

    // 进入 FRAME_LEAD 区间 => 提前暂停
    m.observe(&view(11, 60 - FRAME_LEAD, false));
    assert_eq!(m.next_command(), Command::Pause);
    m.completed(Completion::PauseSent);
    confirm_runtime_pause(&mut m, 12, 60 - FRAME_LEAD);
    assert_eq!(m.phase(), Phase::Stepping);

    // 之后就是逐帧脉冲
    assert!(matches!(m.next_command(), Command::Pulse { .. }));
}

#[test]
fn resume_waits_for_running_and_ignores_new_paused_backlog() {
    let mut m = machine_at_zero();
    m.completed(Completion::ActionExecuted); // 第 0 帧动作完成，下一目标为 60

    assert_eq!(m.next_command(), Command::Resume);
    m.completed(Completion::ResumeSent);

    // PRE_ACTION_PAUSE 期间已经进入尺子管线的暂停画面仍会带着新的 frame_id
    // 陆续到达。它们不能证明本次 Resume 失败，也不能触发重复 Resume。
    assert!(!m.observe(&view(3, 0, true)));
    assert!(matches!(m.next_command(), Command::AwaitFrame { .. }));
    assert!(!m.observe(&view(4, 0, true)));
    assert!(matches!(m.next_command(), Command::AwaitFrame { .. }));

    // 只有第一条可信运行态样本才确认 Resume 已经落地。
    assert!(m.observe(&view(5, 2, false)));
    assert!(!m.paused());

    // 此时仍离目标很远，只能继续巡航等待，不能再次 Resume。
    assert!(matches!(m.next_command(), Command::AwaitFrame { .. }));
}

#[test]
fn final_step_uses_the_minimum_gap() {
    // 最后一步（remaining == 1）必须用最短 gap：那是唯一 +2 会致命的位置，
    // 解暂停窗口越短越安全。之前的步子照常用整定器的 gap。
    let mut m = machine_at_zero();
    m.completed(Completion::ActionExecuted); // 目标变成 60
    m.completed(Completion::ResumeSent);
    m.observe(&view(10, 58, false)); // remaining = 2
    m.completed(Completion::PauseSent);
    confirm_runtime_pause(&mut m, 11, 58);

    let Command::Pulse { gap } = m.next_command() else {
        panic!("应当发脉冲");
    };
    assert_eq!(
        gap.as_millis() as u32,
        m.tuner().gap_ms(),
        "remaining=2 时用整定器的 gap"
    );
    m.completed(Completion::PulseSent);
    let mut frame_id = 12;
    confirm_pulse_without_running(&mut m, &mut frame_id, 59); // remaining = 1

    let Command::Pulse { gap } = m.next_command() else {
        panic!("应当发脉冲");
    };
    assert_eq!(
        gap.as_millis() as u32,
        MIN_GAP_MS,
        "remaining=1 时必须用最短 gap"
    );
}

#[test]
fn stepping_advances_one_frame_at_a_time_until_target() {
    let mut m = machine_at_zero();
    m.completed(Completion::ActionExecuted);
    m.completed(Completion::ResumeSent);
    m.observe(&view(10, 55, false)); // 距目标 5 帧，进入提前暂停区间
    assert_eq!(m.next_command(), Command::Pause);
    m.completed(Completion::PauseSent);
    confirm_runtime_pause(&mut m, 11, 55);

    let mut frame_id = 12;
    for elapsed in 56..=60 {
        let cmd = m.next_command();
        assert!(
            matches!(cmd, Command::Pulse { .. }),
            "第 {elapsed} 帧前应当发脉冲，实际 {cmd:?}"
        );
        m.completed(Completion::PulseSent);
        confirm_pulse_without_running(&mut m, &mut frame_id, elapsed);
    }
    assert_eq!(m.cursor(), 60);
    assert_eq!(m.next_command(), Command::Execute { index: 1 });
}

#[test]
fn pulse_running_transition_waits_for_the_final_paused_sample() {
    let mut m = machine_at_zero();
    m.completed(Completion::ActionExecuted);
    m.completed(Completion::ResumeSent);
    m.observe(&view(10, 55, false));
    assert_eq!(m.next_command(), Command::Pause);
    m.completed(Completion::PauseSent);
    confirm_runtime_pause(&mut m, 11, 55);

    assert!(matches!(m.next_command(), Command::Pulse { .. }));
    m.completed(Completion::PulseSent);

    // 脉冲顺序是 ESC → pauseBattle，尺子可能先看到前半段的运行态。
    m.observe(&view(12, 56, false));
    assert_eq!(m.tuner().pulses, 0, "中间态不能提前结算脉冲");
    assert!(
        matches!(m.next_command(), Command::AwaitFrame { .. }),
        "脉冲中间态不能补发 Pause，否则会把游戏再次切回运行"
    );

    m.observe(&view(13, 56, true));
    assert_eq!(m.tuner().pulses, 1, "最终暂停态才结算一次脉冲");
    assert!(matches!(m.next_command(), Command::Pulse { .. }));
}

#[test]
fn pulse_does_not_settle_on_a_single_stale_paused_sample() {
    let mut m = machine_at_zero();
    m.completed(Completion::ActionExecuted);
    m.completed(Completion::ResumeSent);
    m.observe(&view(10, 59, false));
    m.completed(Completion::PauseSent);
    confirm_runtime_pause(&mut m, 11, 59);

    assert!(matches!(m.next_command(), Command::Pulse { .. }));
    m.completed(Completion::PulseSent);

    // 实机复现顺序：脉冲后先冒出一条旧 paused，随后才出现真实 running。
    // 第一条 paused 不能让状态机进入 Execute，否则动作前会发现 running，
    // 而这发尚未收尾的脉冲还会继续把游戏推到下一帧。
    m.observe(&view(12, 60, true));
    assert_eq!(m.tuner().pulses, 0, "单条旧 paused 不能结算脉冲");
    assert!(matches!(m.next_command(), Command::AwaitFrame { .. }));

    m.observe(&view(13, 60, false));
    assert!(matches!(m.next_command(), Command::AwaitFrame { .. }));

    m.observe(&view(14, 60, true));
    assert_eq!(m.tuner().pulses, 1);
    assert_eq!(m.next_command(), Command::Execute { index: 1 });
}

#[test]
fn runtime_pause_must_be_confirmed_before_the_first_pulse() {
    let mut m = machine_at_zero();
    m.completed(Completion::ActionExecuted);
    m.completed(Completion::ResumeSent);
    m.observe(&view(10, 55, false));
    assert_eq!(m.next_command(), Command::Pause);
    m.completed(Completion::PauseSent);

    assert!(
        matches!(m.next_command(), Command::AwaitFrame { .. }),
        "发送 Pause 不等于游戏已经暂停，不能直接进入 1 秒等待和脉冲"
    );
    m.observe(&view(11, 55, true));
    assert!(matches!(m.next_command(), Command::Pulse { .. }));
}

#[test]
fn runtime_pause_probe_ignores_repeated_running_samples_at_the_same_frame() {
    let mut m = machine_at_zero();
    m.completed(Completion::ActionExecuted);
    m.completed(Completion::ResumeSent);
    m.observe(&view(10, 52, false));
    assert_eq!(m.next_command(), Command::Pause);
    m.completed(Completion::PauseSent);

    // AFA 的 ESC 保持和尺子分析期间会连续产生多个新 frame_id，但逻辑帧可能
    // 仍停在原地。这些重复样本不是“暂停无效”的证据，不能消耗安全窗口。
    for frame_id in 11_u64..=14 {
        m.observe(&view(frame_id, 52, false));
    }
    assert_ne!(m.phase(), Phase::Aborted);
    assert!(m.pause_in_flight());

    m.observe(&view(15, 52, true));
    assert!(!m.pause_in_flight());
    assert!(m.paused());
}

#[test]
fn missed_runtime_pause_aborts_before_the_one_second_dwell() {
    let mut m = machine_at_zero();
    m.completed(Completion::ActionExecuted);
    m.completed(Completion::ResumeSent);
    m.observe(&view(10, 52, false));
    assert_eq!(m.next_command(), Command::Pause);
    m.completed(Completion::PauseSent);

    for advanced in 1..=RUNTIME_PAUSE_MAX_ADVANCE_FRAMES {
        m.observe(&view(10 + advanced as u64, 52 + advanced, false));
    }
    assert_eq!(m.cursor(), 58, "应在目标前保留 2 帧安全余量");
    assert_eq!(m.phase(), Phase::Aborted);
    assert!(matches!(
        m.abort_reason(),
        Some(AbortReason::PauseIneffective)
    ));
}

#[test]
fn pulse_that_never_returns_to_paused_aborts_boundedly() {
    let mut m = machine_at_zero();
    m.completed(Completion::ActionExecuted);
    m.completed(Completion::ResumeSent);
    m.observe(&view(10, 55, false));
    m.completed(Completion::PauseSent);
    confirm_runtime_pause(&mut m, 11, 55);
    assert!(matches!(m.next_command(), Command::Pulse { .. }));
    m.completed(Completion::PulseSent);

    for i in 0..PULSE_SETTLE_SAMPLE_LIMIT {
        m.observe(&view(12 + u64::from(i), 56, false));
    }
    assert_eq!(m.phase(), Phase::Aborted);
    assert!(matches!(
        m.abort_reason(),
        Some(AbortReason::PulseDidNotSettle { .. })
    ));
}

#[test]
fn empty_pulses_are_harmless_and_retried() {
    let mut m = machine_at_zero();
    m.completed(Completion::ActionExecuted);
    m.completed(Completion::ResumeSent);
    m.observe(&view(10, 58, false));
    m.completed(Completion::PauseSent);
    confirm_runtime_pause(&mut m, 11, 58);

    // 连发三次脉冲但帧数纹丝不动 —— 必须继续重试，而不是中止。
    // 实测空脉冲率约 42%，连着几次是常态；间隔也不该因此漂移
    // （实测证明加大间隔对推进量没有帮助，只增加跨帧风险）。
    let gap_before = m.tuner().gap_ms();
    let mut frame_id = 12;
    for _ in 0..3 {
        assert!(matches!(m.next_command(), Command::Pulse { .. }));
        m.completed(Completion::PulseSent);
        confirm_pulse_without_running(&mut m, &mut frame_id, 58);
    }
    assert_eq!(m.phase(), Phase::Stepping, "空脉冲不应中止");
    assert_eq!(m.tuner().gap_ms(), gap_before, "零星空脉冲不该改变间隔");
    assert_eq!(m.tuner().zero_frame_pulses, 3);
    assert!(!m.tuner().had_overshoot());

    // 继续空转到第 5 次才小幅加大 —— 那才说明间隔可能真的偏小
    for _ in 0..2 {
        assert!(matches!(m.next_command(), Command::Pulse { .. }));
        m.completed(Completion::PulseSent);
        confirm_pulse_without_running(&mut m, &mut frame_id, 58);
    }
    assert!(
        m.tuner().gap_ms() > gap_before,
        "连续 5 次空脉冲后应当试探性加大"
    );
}

#[test]
fn overshooting_the_target_aborts() {
    let mut m = machine_at_zero();
    m.completed(Completion::ActionExecuted);
    m.completed(Completion::ResumeSent);
    m.observe(&view(10, 59, false));
    m.completed(Completion::PauseSent);
    confirm_runtime_pause(&mut m, 11, 59);
    assert!(matches!(m.next_command(), Command::Pulse { .. }));
    m.completed(Completion::PulseSent);

    // 一发脉冲跨了两帧，直接越过 60
    m.observe(&view(12, 61, true));
    assert_eq!(m.phase(), Phase::Aborted);
    assert!(matches!(
        m.abort_reason(),
        Some(AbortReason::OvershotTarget {
            target: 60,
            actual: 61
        })
    ));
    // 报错要说清楚为什么没法补救
    assert!(m.abort_reason().unwrap().message().contains("倒带"));
}

#[test]
fn untrustworthy_samples_are_dropped_entirely() {
    let mut m = machine_at_zero();
    m.completed(Completion::ActionExecuted);
    m.completed(Completion::ResumeSent);
    m.observe(&view(10, 55, false));
    m.completed(Completion::PauseSent);
    confirm_runtime_pause(&mut m, 11, 55);
    assert!(matches!(m.next_command(), Command::Pulse { .. }));
    m.completed(Completion::PulseSent);

    // 光标遮挡：elapsed 停在旧值且不可信。若被当成"没推进"，
    // 整定器会误加间隔，最终导致跨帧。
    let mut blocked = view(12, 55, true);
    blocked.trustworthy = false;
    assert!(!m.observe(&blocked), "不可信样本必须被丢弃");
    assert_eq!(m.tuner().pulses, 0, "不可信样本不该喂给整定器");
    assert_eq!(m.cursor(), 55);

    // 恢复正常后才计数
    let mut frame_id = 13;
    confirm_pulse_without_running(&mut m, &mut frame_id, 56);
    assert_eq!(m.tuner().pulses, 1);
    assert_eq!(m.cursor(), 56);
}

#[test]
fn frame_cursor_advances_even_for_rejected_samples() {
    // 运行循环拿 last_frame_id() 去 wait_next；如果被拒绝的样本不推进游标，
    // 同一条不可信样本会被反复递送，等待循环就死锁在原地。
    let mut m = machine_at_zero();
    assert_eq!(m.last_frame_id(), 2);

    let mut blocked = view(7, 0, true);
    blocked.trustworthy = false;
    assert!(!m.observe(&blocked), "不可信样本应被拒绝");
    assert_eq!(m.last_frame_id(), 7, "但游标必须照样前进");
}

#[test]
fn stale_frame_ids_are_ignored() {
    let mut m = machine_at_zero();
    assert!(!m.observe(&view(2, 0, true)), "重复的 frame_id 应当被忽略");
    assert!(!m.observe(&view(1, 0, true)), "更旧的 frame_id 也要忽略");
}

#[test]
fn missing_the_start_aborts_with_a_clear_message() {
    let job = JOB.replace(r#""frame":0"#, r#""frame":5"#);
    let mut m = Machine::new(Copilot::parse(&job).unwrap());
    m.start();
    m.observe(&view(1, 0, false));
    m.completed(Completion::OpeningPauseDelegated);
    // 实际停在第 9 帧，已经晚于第一个动作（第 5 帧）
    m.observe(&view(2, 9, true));
    assert_eq!(m.phase(), Phase::Aborted);
    assert!(matches!(
        m.abort_reason(),
        Some(AbortReason::MissedStart {
            origin: 9,
            first_action: 5
        })
    ));
}

#[test]
fn landing_a_few_frames_late_is_accepted() {
    // 停在第 3 帧、第一个动作在第 5 帧 => 可以接受，正常往下走
    let job = JOB.replace(r#""frame":0"#, r#""frame":5"#);
    let mut m = Machine::new(Copilot::parse(&job).unwrap());
    m.start();
    m.observe(&view(1, 0, false));
    m.completed(Completion::OpeningPauseDelegated);
    m.observe(&view(2, 3, true));
    assert_eq!(m.phase(), Phase::BindingFormation);
    assert_eq!(m.origin(), 3);
    assert_eq!(m.cursor(), 3);
}

#[test]
fn afa_opening_pause_that_never_takes_effect_aborts() {
    let mut m = machine();
    m.start();
    m.observe(&view(1, 0, false));
    m.completed(Completion::OpeningPauseDelegated);
    // AFA 没有自动暂停，帧数一直在涨。
    // 要涨满 PAUSE_PROBE_LIMIT 条才判定 —— 前几条是按键与分析的固有延迟，
    // 帧数理应还在增长，不能急着判死刑。
    for i in 0..PAUSE_PROBE_LIMIT + 1 {
        let elapsed = i64::from(3 * (i + 1));
        m.observe(&view(10 + u64::from(i), elapsed, false));
    }
    assert_eq!(m.phase(), Phase::Aborted);
    assert!(matches!(
        m.abort_reason(),
        Some(AbortReason::OpeningPauseIneffective)
    ));
}

#[test]
fn short_growth_before_afa_opening_pause_is_tolerated() {
    // AFA 自动暂停生效前头几条样本帧数仍在增长是正常的；
    // 只要在 PAUSE_PROBE_LIMIT 之内出现了暂停态样本，就应当正常进入编队阶段。
    // 首个动作放在第 10 帧 —— 停在第 5 帧不算错过开局。
    let job = JOB.replace(r#""frame":0"#, r#""frame":10"#);
    let mut m = Machine::new(Copilot::parse(&job).unwrap());
    m.start();
    m.observe(&view(1, 0, false));
    m.completed(Completion::OpeningPauseDelegated);
    // 4 条仍在增长的样本（少于上限）
    for i in 0..4_u64 {
        m.observe(&view(10 + i, 1 + i as i64, false));
    }
    assert_eq!(m.phase(), Phase::ConfirmingZero, "尚未到上限，不该中止");
    // 暂停终于生效，停在第 5 帧
    m.observe(&view(20, 5, true));
    assert_eq!(m.phase(), Phase::BindingFormation);
    assert_eq!(m.origin(), 5);
}

#[test]
fn leaving_battle_aborts() {
    let mut m = machine_at_zero();
    let mut gone = view(20, 0, true);
    gone.in_battle = false;
    gone.battle_state = "before_or_after_battle".into();
    m.observe(&gone);
    assert_eq!(m.phase(), Phase::Aborted);
    assert!(matches!(
        m.abort_reason(),
        Some(AbortReason::LeftBattle { .. })
    ));
}

#[test]
fn speed_change_aborts() {
    let mut m = machine_at_zero();
    let mut fast = view(20, 0, false);
    fast.one_x = false;
    fast.battle_state = "2x_running".into();
    m.observe(&fast);
    assert_eq!(m.phase(), Phase::Aborted);
    assert!(matches!(
        m.abort_reason(),
        Some(AbortReason::NotOneX { .. })
    ));
    assert!(m.abort_reason().unwrap().message().contains("1x"));
}

#[test]
fn transient_point_two_speed_during_action_is_tolerated() {
    let mut m = machine_at_zero();
    assert_eq!(m.next_command(), Command::Execute { index: 0 });
    m.completed(Completion::ActionExecuted);
    let mut slow = view(10, 0, true);
    slow.one_x = false;
    slow.battle_state = "0.2x_running".into();

    // 选中干员时可能短暂经过 0.2x_running / 0.2x_paused；
    // 只要随后恢复 1x，就不应把这段过渡判成用户误开变速。
    for frame_id in 10..17 {
        slow.frame_id = frame_id;
        assert!(!m.observe(&slow));
        assert_ne!(m.phase(), Phase::Aborted);
    }

    slow.frame_id = 17;
    slow.battle_state = "1x_paused".into();
    slow.one_x = true;
    assert!(m.observe(&slow));
    assert_ne!(m.phase(), Phase::Aborted);
}

#[test]
fn persistent_point_two_speed_still_aborts() {
    let mut m = machine_at_zero();
    assert_eq!(m.next_command(), Command::Execute { index: 0 });
    m.completed(Completion::ActionExecuted);
    let mut slow = view(10, 0, true);
    slow.one_x = false;
    slow.battle_state = "0.2x_running".into();

    for frame_id in 10..(10 + u64::from(POINT_TWO_GRACE_LIMIT)) {
        slow.frame_id = frame_id;
        m.observe(&slow);
    }

    assert_eq!(m.phase(), Phase::Aborted);
    assert!(matches!(
        m.abort_reason(),
        Some(AbortReason::NotOneX { .. })
    ));
}

#[test]
fn point_two_before_action_still_aborts() {
    let mut m = machine_at_zero();
    let mut slow = view(10, 0, true);
    slow.one_x = false;
    slow.battle_state = "0.2x_running".into();

    m.observe(&slow);

    assert_eq!(m.phase(), Phase::Aborted);
    assert!(matches!(
        m.abort_reason(),
        Some(AbortReason::NotOneX { .. })
    ));
}

#[test]
fn backwards_frames_abort() {
    let mut m = machine_at_zero();
    m.completed(Completion::ActionExecuted);
    m.completed(Completion::ResumeSent);
    m.observe(&view(10, 40, false));
    m.observe(&view(11, 30, false));
    assert_eq!(m.phase(), Phase::Aborted);
    assert!(matches!(
        m.abort_reason(),
        Some(AbortReason::FrameWentBackwards { from: 40, to: 30 })
    ));
}

#[test]
fn same_frame_actions_execute_back_to_back() {
    let job = r#"{
        "stage_name": "1-7",
        "frame_replicator": {},
        "opers": [{"name":"山"},{"name":"能天使"}],
        "actions": [
            {"type":"Deploy","frame":0,"name":"山","location":[3,2]},
            {"type":"Deploy","frame":0,"name":"能天使","location":[4,1]}
        ]
    }"#;
    let mut m = Machine::new(Copilot::parse(job).unwrap());
    m.start();
    m.observe(&view(1, 0, false));
    m.completed(Completion::OpeningPauseDelegated);
    m.observe(&view(2, 0, true));
    m.completed(Completion::FormationBound);

    assert_eq!(m.next_command(), Command::Execute { index: 0 });
    m.completed(Completion::ActionExecuted);
    // 同一帧的第二个动作：不该插入任何脉冲或恢复
    assert_eq!(m.next_command(), Command::Execute { index: 1 });
    m.completed(Completion::ActionExecuted);
    assert_eq!(m.next_command(), Command::Finish);
}

#[test]
fn final_action_finishes_immediately_without_any_follow_up_input() {
    let job = r#"{
        "stage_name": "1-7",
        "frame_replicator": {"after_last_action":"resume"},
        "opers": [{"name":"山"}],
        "actions": [
            {"type":"Deploy","frame":0,"name":"山","location":[3,2]}
        ]
    }"#;
    let mut m = Machine::new(Copilot::parse(job).unwrap());
    m.start();
    m.observe(&view(1, 0, false));
    m.completed(Completion::OpeningPauseDelegated);
    m.observe(&view(2, 0, true));
    m.completed(Completion::FormationBound);

    assert_eq!(m.next_command(), Command::Execute { index: 0 });
    m.completed(Completion::ActionExecuted);
    assert_eq!(
        m.next_command(),
        Command::Finish,
        "最后一个动作已经给出最终输入，之后必须直接结束，不能再等帧、暂停或恢复"
    );
}

#[test]
fn user_abort_is_terminal() {
    let mut m = machine_at_zero();
    m.user_abort();
    assert_eq!(m.phase(), Phase::Aborted);
    assert!(matches!(
        m.next_command(),
        Command::Abort(AbortReason::UserAborted)
    ));
    // 中止后不再接受任何样本
    assert!(!m.observe(&view(99, 100, true)));
}

#[test]
fn frame_lead_covers_the_observed_round_trip() {
    // FRAME_LEAD must exceed the round trip "ruler sample + analysis + our pause
    // injection", or the game runs past the target before the pause lands. A concrete
    // time budget pins the constant down.
    let frame_ms = 1000.0 / f64::from(replicator::speed::Speed::One.frames_per_second());
    let worst_round_trip_ms = 16.7 /* capture */ + 5.0 /* analysis */ + 5.0 /* injection */;
    let needed_frames = (worst_round_trip_ms / frame_ms).ceil() as i64;
    assert!(
        FRAME_LEAD >= needed_frames * 2,
        "FRAME_LEAD={FRAME_LEAD} does not cover a round trip of {needed_frames} frames twice"
    );
    // Each single-frame step takes about 60 ms; too large a lead slows every action.
    let worst_case_ms = FRAME_LEAD as f64 * 60.0;
    assert!(worst_case_ms <= 600.0, "aligning one action takes up to {worst_case_ms} ms");
}

#[test]
fn an_abort_survives_late_completion_reports() {
    for completion in [
        Completion::OpeningPauseDelegated,
        Completion::PauseSent,
        Completion::ResumeSent,
        Completion::PulseSent,
        Completion::FormationBound,
        Completion::ActionExecuted,
    ] {
        let mut m = machine_at_zero();
        let before = m.progress();
        m.user_abort();
        m.completed(completion);
        assert_eq!(m.phase(), Phase::Aborted);
        assert_eq!(m.progress(), before);
        assert!(matches!(m.abort_reason(), Some(AbortReason::UserAborted)));
        assert!(matches!(m.next_command(), Command::Abort(AbortReason::UserAborted)));
        assert!(!m.observe(&view(99, 100, true)));
    }
}
