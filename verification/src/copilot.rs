//! The job file: a superset of the MAA copilot schema whose actions carry an absolute
//! logical frame.
//!
//! Only two things are added to the MAA schema: a top-level `frame_replicator` block,
//! which marks a frame job, and a `frame` on every action. MAA's own wait conditions
//! (`kills`, `costs`, ...) are accepted and ignored.
use vstd::prelude::*;

use crate::geom::{Direction, Point};
use crate::json::{self, JsonError, JsonValue};
use crate::sorting::views;
use crate::text;

verus! {

/// What happens after the last action.
#[derive(Clone, Copy, Debug, PartialEq, Eq, Structural)]
pub enum AfterLastAction {
    /// Resume and let the battle finish on its own.
    Resume,
    /// Keep the game paused and hand it back to the user.
    Pause,
}

/// Frame-replication metadata of a job.
#[derive(Clone, Debug)]
pub struct FrameReplicatorMeta {
    pub version: u32,
    /// Required battle speed; only `"1x"` is supported.
    pub speed: String,
    pub after_last_action: AfterLastAction,
    /// Summons and devices that a Deploy brings in later: they are targets of the job
    /// without being part of the starting formation.
    pub deferred_targets: Vec<String>,
}

/// The defaults of a `frame_replicator` block: version 1, speed `"1x"`, resume, no
/// deferred targets.
pub open spec fn is_default_meta(m: FrameReplicatorMeta) -> bool {
    m.version == 1 && m.speed@ == "1x"@ && m.after_last_action == AfterLastAction::Resume
        && m.deferred_targets@.len() == 0
}

/// `default_version`.
pub fn default_version() -> (v: u32)
    ensures
        v == 1,
{
    1
}

/// `default_speed`.
pub fn default_speed() -> (s: String)
    ensures
        s@ == "1x"@,
{
    String::from_str("1x")
}

impl FrameReplicatorMeta {
    pub fn default_meta() -> (m: Self)
        ensures
            is_default_meta(m),
    {
        FrameReplicatorMeta {
            version: default_version(),
            speed: default_speed(),
            after_last_action: AfterLastAction::Resume,
            deferred_targets: Vec::new(),
        }
    }
}

/// Action kinds.
#[derive(Clone, Copy, Debug, PartialEq, Eq, Structural)]
pub enum ActionType {
    Deploy,
    UseSkill,
    Retreat,
    /// A comment; sends no input.
    Output,
    SwitchSpeed,
    BulletTime,
    SkillUsage,
    SkillDaemon,
    MoveCamera,
    DrawCard,
    CheckIfStartOver,
}

pub open spec fn supported_spec(k: ActionType) -> bool {
    k == ActionType::Deploy || k == ActionType::UseSkill || k == ActionType::Retreat || k
        == ActionType::Output
}

pub open spec fn action_type_name(k: ActionType) -> Seq<char> {
    match k {
        ActionType::Deploy => "Deploy"@,
        ActionType::UseSkill => "Skill"@,
        ActionType::Retreat => "Retreat"@,
        ActionType::Output => "Output"@,
        ActionType::SwitchSpeed => "SpeedUp"@,
        ActionType::BulletTime => "BulletTime"@,
        ActionType::SkillUsage => "SkillUsage"@,
        ActionType::SkillDaemon => "SkillDaemon"@,
        ActionType::MoveCamera => "MoveCamera"@,
        ActionType::DrawCard => "DrawCard"@,
        ActionType::CheckIfStartOver => "CheckIfStartOver"@,
    }
}

/// The action kind named by an already lower-cased type string (MAA's alias table).
pub open spec fn action_type_from(n: Seq<char>) -> Option<ActionType> {
    if n == "deploy"@ || n == "部署"@ {
        Some(ActionType::Deploy)
    } else if n == "skill"@ || n == "技能"@ {
        Some(ActionType::UseSkill)
    } else if n == "retreat"@ || n == "撤退"@ {
        Some(ActionType::Retreat)
    } else if n == "output"@ || n == "输出"@ || n == "打印"@ {
        Some(ActionType::Output)
    } else if n == "speedup"@ || n == "二倍速"@ {
        Some(ActionType::SwitchSpeed)
    } else if n == "bullettime"@ || n == "子弹时间"@ {
        Some(ActionType::BulletTime)
    } else if n == "skillusage"@ || n == "技能用法"@ {
        Some(ActionType::SkillUsage)
    } else if n == "skilldaemon"@ || n == "donothing"@ || n == "摆完挂机"@ || n == "开摆"@ {
        Some(ActionType::SkillDaemon)
    } else if n == "movecamera"@ || n == "移动镜头"@ {
        Some(ActionType::MoveCamera)
    } else if n == "drawcard"@ || n == "抽卡"@ || n == "抽牌"@ || n == "调配"@ || n
        == "调配干员"@ {
        Some(ActionType::DrawCard)
    } else if n == "checkifstartover"@ || n == "检查重开"@ {
        Some(ActionType::CheckIfStartOver)
    } else {
        None
    }
}

/// Every kind's name reads back as that kind.
pub proof fn lemma_action_type_round_trip(k: ActionType)
    ensures
        action_type_from(text::ascii_lower(action_type_name(k))) == Some(k),
{
    match k {
        ActionType::Deploy => {
            reveal_strlit("Deploy");
            reveal_strlit("deploy");
            assert(text::ascii_lower("Deploy"@) =~= "deploy"@);
            assert(action_type_from("deploy"@) == Some(ActionType::Deploy));
        },
        ActionType::UseSkill => {
            reveal_strlit("Skill");
            reveal_strlit("deploy");
            reveal_strlit("部署");
            reveal_strlit("skill");
            assert(text::ascii_lower("Skill"@) =~= "skill"@);
            assert(action_type_from("skill"@) == Some(ActionType::UseSkill));
        },
        ActionType::Retreat => {
            reveal_strlit("Retreat");
            reveal_strlit("deploy");
            reveal_strlit("部署");
            reveal_strlit("skill");
            reveal_strlit("技能");
            reveal_strlit("retreat");
            assert(text::ascii_lower("Retreat"@) =~= "retreat"@);
            assert(action_type_from("retreat"@) == Some(ActionType::Retreat));
        },
        ActionType::Output => {
            reveal_strlit("Output");
            reveal_strlit("deploy");
            reveal_strlit("部署");
            reveal_strlit("skill");
            reveal_strlit("技能");
            reveal_strlit("retreat");
            reveal_strlit("撤退");
            reveal_strlit("output");
            assert(text::ascii_lower("Output"@) =~= "output"@);
            assert("output"@[0] != "deploy"@[0]);
            assert(action_type_from("output"@) == Some(ActionType::Output));
        },
        ActionType::SwitchSpeed => {
            reveal_strlit("SpeedUp");
            reveal_strlit("deploy");
            reveal_strlit("部署");
            reveal_strlit("skill");
            reveal_strlit("技能");
            reveal_strlit("retreat");
            reveal_strlit("撤退");
            reveal_strlit("output");
            reveal_strlit("输出");
            reveal_strlit("打印");
            reveal_strlit("speedup");
            assert(text::ascii_lower("SpeedUp"@) =~= "speedup"@);
            assert("speedup"@[0] != "retreat"@[0]);
            assert(action_type_from("speedup"@) == Some(ActionType::SwitchSpeed));
        },
        ActionType::BulletTime => {
            reveal_strlit("BulletTime");
            reveal_strlit("deploy");
            reveal_strlit("部署");
            reveal_strlit("skill");
            reveal_strlit("技能");
            reveal_strlit("retreat");
            reveal_strlit("撤退");
            reveal_strlit("output");
            reveal_strlit("输出");
            reveal_strlit("打印");
            reveal_strlit("speedup");
            reveal_strlit("二倍速");
            reveal_strlit("bullettime");
            assert(text::ascii_lower("BulletTime"@) =~= "bullettime"@);
            assert(action_type_from("bullettime"@) == Some(ActionType::BulletTime));
        },
        ActionType::SkillUsage => {
            reveal_strlit("SkillUsage");
            reveal_strlit("deploy");
            reveal_strlit("部署");
            reveal_strlit("skill");
            reveal_strlit("技能");
            reveal_strlit("retreat");
            reveal_strlit("撤退");
            reveal_strlit("output");
            reveal_strlit("输出");
            reveal_strlit("打印");
            reveal_strlit("speedup");
            reveal_strlit("二倍速");
            reveal_strlit("bullettime");
            reveal_strlit("子弹时间");
            reveal_strlit("skillusage");
            assert(text::ascii_lower("SkillUsage"@) =~= "skillusage"@);
            assert("skillusage"@[0] != "bullettime"@[0]);
            assert(action_type_from("skillusage"@) == Some(ActionType::SkillUsage));
        },
        ActionType::SkillDaemon => {
            reveal_strlit("SkillDaemon");
            reveal_strlit("deploy");
            reveal_strlit("部署");
            reveal_strlit("skill");
            reveal_strlit("技能");
            reveal_strlit("retreat");
            reveal_strlit("撤退");
            reveal_strlit("output");
            reveal_strlit("输出");
            reveal_strlit("打印");
            reveal_strlit("speedup");
            reveal_strlit("二倍速");
            reveal_strlit("bullettime");
            reveal_strlit("子弹时间");
            reveal_strlit("skillusage");
            reveal_strlit("技能用法");
            reveal_strlit("skilldaemon");
            assert(text::ascii_lower("SkillDaemon"@) =~= "skilldaemon"@);
            assert(action_type_from("skilldaemon"@) == Some(ActionType::SkillDaemon));
        },
        ActionType::MoveCamera => {
            reveal_strlit("MoveCamera");
            reveal_strlit("deploy");
            reveal_strlit("部署");
            reveal_strlit("skill");
            reveal_strlit("技能");
            reveal_strlit("retreat");
            reveal_strlit("撤退");
            reveal_strlit("output");
            reveal_strlit("输出");
            reveal_strlit("打印");
            reveal_strlit("speedup");
            reveal_strlit("二倍速");
            reveal_strlit("bullettime");
            reveal_strlit("子弹时间");
            reveal_strlit("skillusage");
            reveal_strlit("技能用法");
            reveal_strlit("skilldaemon");
            reveal_strlit("donothing");
            reveal_strlit("摆完挂机");
            reveal_strlit("开摆");
            reveal_strlit("movecamera");
            assert(text::ascii_lower("MoveCamera"@) =~= "movecamera"@);
            assert("movecamera"@[0] != "bullettime"@[0]);
            assert("movecamera"@[0] != "skillusage"@[0]);
            assert(action_type_from("movecamera"@) == Some(ActionType::MoveCamera));
        },
        ActionType::DrawCard => {
            reveal_strlit("DrawCard");
            reveal_strlit("deploy");
            reveal_strlit("部署");
            reveal_strlit("skill");
            reveal_strlit("技能");
            reveal_strlit("retreat");
            reveal_strlit("撤退");
            reveal_strlit("output");
            reveal_strlit("输出");
            reveal_strlit("打印");
            reveal_strlit("speedup");
            reveal_strlit("二倍速");
            reveal_strlit("bullettime");
            reveal_strlit("子弹时间");
            reveal_strlit("skillusage");
            reveal_strlit("技能用法");
            reveal_strlit("skilldaemon");
            reveal_strlit("donothing");
            reveal_strlit("摆完挂机");
            reveal_strlit("开摆");
            reveal_strlit("movecamera");
            reveal_strlit("移动镜头");
            reveal_strlit("drawcard");
            assert(text::ascii_lower("DrawCard"@) =~= "drawcard"@);
            assert(action_type_from("drawcard"@) == Some(ActionType::DrawCard));
        },
        ActionType::CheckIfStartOver => {
            reveal_strlit("CheckIfStartOver");
            reveal_strlit("deploy");
            reveal_strlit("部署");
            reveal_strlit("skill");
            reveal_strlit("技能");
            reveal_strlit("retreat");
            reveal_strlit("撤退");
            reveal_strlit("output");
            reveal_strlit("输出");
            reveal_strlit("打印");
            reveal_strlit("speedup");
            reveal_strlit("二倍速");
            reveal_strlit("bullettime");
            reveal_strlit("子弹时间");
            reveal_strlit("skillusage");
            reveal_strlit("技能用法");
            reveal_strlit("skilldaemon");
            reveal_strlit("donothing");
            reveal_strlit("摆完挂机");
            reveal_strlit("开摆");
            reveal_strlit("movecamera");
            reveal_strlit("移动镜头");
            reveal_strlit("drawcard");
            reveal_strlit("抽卡");
            reveal_strlit("抽牌");
            reveal_strlit("调配");
            reveal_strlit("调配干员");
            reveal_strlit("checkifstartover");
            assert(text::ascii_lower("CheckIfStartOver"@) =~= "checkifstartover"@);
            assert(action_type_from("checkifstartover"@) == Some(ActionType::CheckIfStartOver));
        },
    }
}

/// Type strings that differ only in ASCII case name the same kind: what
/// [`ActionType::parse`] gives for `s` it gives for `s` upper-cased and lower-cased.
pub proof fn lemma_action_type_ignores_ascii_case(s: Seq<char>)
    ensures
        action_type_from(text::ascii_lower(text::ascii_upper(s))) == action_type_from(
            text::ascii_lower(s),
        ),
        action_type_from(text::ascii_lower(text::ascii_lower(s))) == action_type_from(
            text::ascii_lower(s),
        ),
{
    text::lemma_ascii_lower_forgets_case(s);
}

impl ActionType {
    /// Whether the frame mode supports this kind. Speed-changing kinds are refused:
    /// they break the assumption of how long one logical frame lasts.
    pub fn supported_in_frame_mode(self) -> (b: bool)
        ensures
            b == supported_spec(self),
    {
        match self {
            ActionType::Deploy | ActionType::UseSkill | ActionType::Retreat
            | ActionType::Output => true,
            _ => false,
        }
    }

    /// The canonical type string of the job format.
    pub fn as_str(self) -> (s: &'static str)
        ensures
            s@ == action_type_name(self),
    {
        match self {
            ActionType::Deploy => "Deploy",
            ActionType::UseSkill => "Skill",
            ActionType::Retreat => "Retreat",
            ActionType::Output => "Output",
            ActionType::SwitchSpeed => "SpeedUp",
            ActionType::BulletTime => "BulletTime",
            ActionType::SkillUsage => "SkillUsage",
            ActionType::SkillDaemon => "SkillDaemon",
            ActionType::MoveCamera => "MoveCamera",
            ActionType::DrawCard => "DrawCard",
            ActionType::CheckIfStartOver => "CheckIfStartOver",
        }
    }

    /// Parses a type string; ASCII case is ignored.
    pub fn parse(raw: &str) -> (r: Option<Self>)
        ensures
            r == action_type_from(text::ascii_lower(raw@)),
    {
        let n = text::ascii_lower_chars(raw);
        if text::chars_eq_str(&n, "deploy") || text::chars_eq_str(&n, "部署") {
            Some(ActionType::Deploy)
        } else if text::chars_eq_str(&n, "skill") || text::chars_eq_str(&n, "技能") {
            Some(ActionType::UseSkill)
        } else if text::chars_eq_str(&n, "retreat") || text::chars_eq_str(&n, "撤退") {
            Some(ActionType::Retreat)
        } else if text::chars_eq_str(&n, "output") || text::chars_eq_str(&n, "输出")
            || text::chars_eq_str(&n, "打印") {
            Some(ActionType::Output)
        } else if text::chars_eq_str(&n, "speedup") || text::chars_eq_str(&n, "二倍速") {
            Some(ActionType::SwitchSpeed)
        } else if text::chars_eq_str(&n, "bullettime") || text::chars_eq_str(&n, "子弹时间") {
            Some(ActionType::BulletTime)
        } else if text::chars_eq_str(&n, "skillusage") || text::chars_eq_str(&n, "技能用法") {
            Some(ActionType::SkillUsage)
        } else if text::chars_eq_str(&n, "skilldaemon") || text::chars_eq_str(&n, "donothing")
            || text::chars_eq_str(&n, "摆完挂机") || text::chars_eq_str(&n, "开摆") {
            Some(ActionType::SkillDaemon)
        } else if text::chars_eq_str(&n, "movecamera") || text::chars_eq_str(&n, "移动镜头") {
            Some(ActionType::MoveCamera)
        } else if text::chars_eq_str(&n, "drawcard") || text::chars_eq_str(&n, "抽卡")
            || text::chars_eq_str(&n, "抽牌") || text::chars_eq_str(&n, "调配")
            || text::chars_eq_str(&n, "调配干员") {
            Some(ActionType::DrawCard)
        } else if text::chars_eq_str(&n, "checkifstartover") || text::chars_eq_str(
            &n,
            "检查重开",
        ) {
            Some(ActionType::CheckIfStartOver)
        } else {
            None
        }
    }
}

/// The facing named by a direction string; unknown strings face right.
pub open spec fn direction_from(raw: Seq<char>) -> Direction {
    let n = text::ascii_lower(raw);
    if n == "left"@ || n == "左"@ {
        Direction::Left
    } else if n == "up"@ || n == "上"@ {
        Direction::Up
    } else if n == "down"@ || n == "下"@ {
        Direction::Down
    } else if n == "none"@ || n == "无"@ {
        Direction::NoDirection
    } else {
        Direction::Right
    }
}

/// Parses a facing (MAA's alias table); anything unknown faces right.
pub fn parse_direction(raw: &str) -> (d: Direction)
    ensures
        d == direction_from(raw@),
{
    let n = text::ascii_lower_chars(raw);
    if text::chars_eq_str(&n, "left") || text::chars_eq_str(&n, "左") {
        Direction::Left
    } else if text::chars_eq_str(&n, "up") || text::chars_eq_str(&n, "上") {
        Direction::Up
    } else if text::chars_eq_str(&n, "down") || text::chars_eq_str(&n, "下") {
        Direction::Down
    } else if text::chars_eq_str(&n, "none") || text::chars_eq_str(&n, "无") {
        Direction::NoDirection
    } else {
        Direction::Right
    }
}

/// One action of a job.
#[derive(Clone, Debug)]
pub struct Action {
    /// Absolute logical frame: the only wait condition in frame mode.
    pub frame: i64,
    pub kind: ActionType,
    /// Target operator, as named in the job's `opers`.
    pub name: String,
    /// Tile; required for `Deploy`.
    pub location: Option<Point>,
    pub direction: Direction,
    /// Comment shown on the timeline.
    pub doc: String,
}

/// An operator declared by the job.
#[derive(Clone, Debug)]
pub struct Oper {
    pub name: String,
    /// Skill slot 0–3; 0 means the default.
    pub skill: u8,
}

/// A parsed and validated frame job.
#[derive(Clone, Debug)]
pub struct Copilot {
    pub stage_name: String,
    pub meta: FrameReplicatorMeta,
    pub opers: Vec<Oper>,
    pub actions: Vec<Action>,
    pub title: String,
    pub details: String,
}

/// Why a job was refused.
#[derive(Debug)]
pub enum CopilotError {
    Json(JsonError),
    MissingField(&'static str),
    NotAFrameReplicatorJob,
    UnsupportedSpeed(String),
    NoActions,
    UnknownActionType { index: usize, raw: String },
    UnsupportedAction { index: usize, kind: ActionType },
    MissingFrame { index: usize },
    FramesOutOfOrder { index: usize, previous: i64, current: i64 },
    DeployWithoutLocation { index: usize },
    DeployWithoutName { index: usize },
    TargetlessAction { index: usize, kind: ActionType },
    UndeclaredOper { index: usize, name: String },
}

/// The user-facing explanation of a refused job.
pub open spec fn copilot_error_message(e: CopilotError) -> Seq<char> {
    match e {
        CopilotError::Json(j) => "作业 JSON 解析失败："@ + j.message@,
        CopilotError::MissingField(f) => "作业缺少必填字段 `"@ + f@ + "`"@,
        CopilotError::NotAFrameReplicatorJob =>
            "这不是帧复刻作业：缺少顶层 `frame_replicator` 字段。普通 MAA 作业需要先给每个动作补上 `frame`"@,
        CopilotError::UnsupportedSpeed(s) => "暂不支持 `"@ + s@ + "` 倍速，首版只支持 1x"@,
        CopilotError::NoActions => "作业里一个动作都没有"@,
        CopilotError::UnknownActionType { index, raw } => "第 "@ + text::decimal(index as int)
            + " 个动作的类型 `"@ + raw@ + "` 无法识别"@,
        CopilotError::UnsupportedAction { index, kind } => "第 "@ + text::decimal(index as int)
            + " 个动作 `"@ + action_type_name(kind) + "` 在帧复刻模式下不支持（变速类动作会让帧率假设失效）"@,
        CopilotError::MissingFrame { index } => "第 "@ + text::decimal(index as int)
            + " 个动作缺少 `frame`（帧复刻模式下每个动作都必须指定绝对逻辑帧）"@,
        CopilotError::FramesOutOfOrder { index, previous, current } => "第 "@ + text::decimal(
            index as int,
        ) + " 个动作的帧号倒退了：上一个是 "@ + text::decimal(previous as int) + "，这个是 "@
            + text::decimal(current as int) + "。动作必须按帧号非递减排列"@,
        CopilotError::DeployWithoutLocation { index } => "第 "@ + text::decimal(index as int)
            + " 个动作是部署，但没有给 `location`"@,
        CopilotError::DeployWithoutName { index } => "第 "@ + text::decimal(index as int)
            + " 个动作是部署，但没有给 `name`"@,
        CopilotError::TargetlessAction { index, kind } => "第 "@ + text::decimal(index as int)
            + " 个动作 `"@ + action_type_name(kind) + "` 既没有 `name` 也没有 `location`，不知道该对谁生效"@,
        CopilotError::UndeclaredOper { index, name } => "第 "@ + text::decimal(index as int)
            + " 个动作引用了未在 `opers` 里声明的干员 `"@ + name@ + "`"@,
    }
}

fn indexed_message(index: usize, middle: &str) -> (s: String)
    ensures
        s@ == "第 "@ + text::decimal(index as int) + middle@,
{
    let mut s = String::from_str("第 ");
    text::push_decimal_u64(&mut s, index as u64);
    s.append(middle);
    s
}

impl CopilotError {
    /// The user-facing explanation; what `Display` would print.
    pub fn message(&self) -> (s: String)
        ensures
            s@ == copilot_error_message(*self),
    {
        match self {
            CopilotError::Json(j) => {
                let mut s = String::from_str("作业 JSON 解析失败：");
                s.append(j.message.as_str());
                s
            },
            CopilotError::MissingField(f) => {
                let mut s = String::from_str("作业缺少必填字段 `");
                s.append(f);
                s.append("`");
                s
            },
            CopilotError::NotAFrameReplicatorJob => String::from_str(
                "这不是帧复刻作业：缺少顶层 `frame_replicator` 字段。普通 MAA 作业需要先给每个动作补上 `frame`",
            ),
            CopilotError::UnsupportedSpeed(sp) => {
                let mut s = String::from_str("暂不支持 `");
                s.append(sp.as_str());
                s.append("` 倍速，首版只支持 1x");
                s
            },
            CopilotError::NoActions => String::from_str("作业里一个动作都没有"),
            CopilotError::UnknownActionType { index, raw } => {
                let mut s = indexed_message(*index, " 个动作的类型 `");
                s.append(raw.as_str());
                s.append("` 无法识别");
                s
            },
            CopilotError::UnsupportedAction { index, kind } => {
                let mut s = indexed_message(*index, " 个动作 `");
                s.append(kind.as_str());
                s.append("` 在帧复刻模式下不支持（变速类动作会让帧率假设失效）");
                s
            },
            CopilotError::MissingFrame { index } => indexed_message(
                *index,
                " 个动作缺少 `frame`（帧复刻模式下每个动作都必须指定绝对逻辑帧）",
            ),
            CopilotError::FramesOutOfOrder { index, previous, current } => {
                let mut s = indexed_message(*index, " 个动作的帧号倒退了：上一个是 ");
                text::push_decimal_i64(&mut s, *previous);
                s.append("，这个是 ");
                text::push_decimal_i64(&mut s, *current);
                s.append("。动作必须按帧号非递减排列");
                s
            },
            CopilotError::DeployWithoutLocation { index } => indexed_message(
                *index,
                " 个动作是部署，但没有给 `location`",
            ),
            CopilotError::DeployWithoutName { index } => indexed_message(
                *index,
                " 个动作是部署，但没有给 `name`",
            ),
            CopilotError::TargetlessAction { index, kind } => {
                let mut s = indexed_message(*index, " 个动作 `");
                s.append(kind.as_str());
                s.append("` 既没有 `name` 也没有 `location`，不知道该对谁生效");
                s
            },
            CopilotError::UndeclaredOper { index, name } => {
                let mut s = indexed_message(*index, " 个动作引用了未在 `opers` 里声明的干员 `");
                s.append(name.as_str());
                s.append("`");
                s
            },
        }
    }
}

/// The frame before which action `i` may not be scheduled: the previous action's frame,
/// or -1 for the first action.
pub open spec fn previous_frame(actions: Seq<Action>, i: int) -> i64 {
    if i == 0 {
        -1i64
    } else {
        actions[i - 1].frame
    }
}

/// The problem with action `i` alone, checked in the job format's order.
pub open spec fn action_problem(actions: Seq<Action>, i: int) -> Option<CopilotError> {
    let a = actions[i];
    let index = i as usize;
    let previous = previous_frame(actions, i);
    if !supported_spec(a.kind) {
        Some(CopilotError::UnsupportedAction { index, kind: a.kind })
    } else if a.frame < 0 {
        Some(CopilotError::MissingFrame { index })
    } else if a.frame < previous {
        Some(CopilotError::FramesOutOfOrder { index, previous, current: a.frame })
    } else if a.kind == ActionType::Deploy && a.location is None {
        Some(CopilotError::DeployWithoutLocation { index })
    } else if a.kind == ActionType::Deploy && text::is_blank(a.name@) {
        Some(CopilotError::DeployWithoutName { index })
    } else if (a.kind == ActionType::UseSkill || a.kind == ActionType::Retreat) && text::is_blank(
        a.name@,
    ) && a.location is None {
        Some(CopilotError::TargetlessAction { index, kind: a.kind })
    } else {
        None
    }
}

/// The first problem among actions `i..`.
pub open spec fn first_action_problem(actions: Seq<Action>, i: int) -> Option<CopilotError>
    decreases actions.len() - i,
{
    if i < 0 || i >= actions.len() {
        None
    } else {
        match action_problem(actions, i) {
            Some(e) => Some(e),
            None => first_action_problem(actions, i + 1),
        }
    }
}

/// Whether `name` is declared among `opers` or among the deferred targets.
pub open spec fn declared(opers: Seq<Oper>, deferred: Seq<Seq<char>>, name: Seq<char>) -> bool {
    (exists|k: int| 0 <= k < opers.len() && (#[trigger] opers[k]).name@ == name) || deferred.contains(
        name,
    )
}

/// The first action among `i..` that names a target the job does not declare.
pub open spec fn first_undeclared(
    actions: Seq<Action>,
    opers: Seq<Oper>,
    deferred: Seq<Seq<char>>,
    i: int,
) -> Option<CopilotError>
    decreases actions.len() - i,
{
    if i < 0 || i >= actions.len() {
        None
    } else if actions[i].name@.len() > 0 && !declared(opers, deferred, actions[i].name@) {
        Some(CopilotError::UndeclaredOper { index: i as usize, name: actions[i].name })
    } else {
        first_undeclared(actions, opers, deferred, i + 1)
    }
}

/// The deferred targets of a job.
pub open spec fn deferred_of(c: Copilot) -> Seq<Seq<char>> {
    views(c.meta.deferred_targets@)
}

/// Why the job is invalid, if it is: per-action problems first, then operators that
/// are used without being declared (checked only when `opers` is not empty).
pub open spec fn validation_error(c: Copilot) -> Option<CopilotError> {
    match first_action_problem(c.actions@, 0) {
        Some(e) => Some(e),
        None => if c.opers@.len() > 0 {
            first_undeclared(c.actions@, c.opers@, deferred_of(c), 0)
        } else {
            None
        },
    }
}

/// The operator names of a job: declared ones in order, then every other action
/// target that is not in `skip`, in order of first appearance.
pub open spec fn names_through(
    declared_names: Seq<Seq<char>>,
    actions: Seq<Action>,
    skip: Seq<Seq<char>>,
) -> Seq<Seq<char>>
    decreases actions.len(),
{
    if actions.len() == 0 {
        declared_names
    } else {
        let before = names_through(declared_names, actions.drop_last(), skip);
        let n = actions.last().name@;
        if n.len() > 0 && !before.contains(n) && !skip.contains(n) {
            before.push(n)
        } else {
            before
        }
    }
}

pub open spec fn oper_name_list(c: Copilot) -> Seq<Seq<char>> {
    names_through(c.opers@.map_values(|o: Oper| o.name@), c.actions@, deferred_of(c))
}

proof fn lemma_first_problem_step(actions: Seq<Action>, i: int)
    requires
        0 <= i < actions.len(),
        action_problem(actions, i) is None,
    ensures
        first_action_problem(actions, i) == first_action_problem(actions, i + 1),
{
}

/// In a job that passes validation, frames are non-negative and never decrease.
pub proof fn lemma_valid_frames_ordered(actions: Seq<Action>)
    requires
        first_action_problem(actions, 0) is None,
    ensures
        forall|i: int| 0 <= i < actions.len() ==> (#[trigger] actions[i]).frame >= 0,
        forall|i: int, j: int| 0 <= i <= j < actions.len() ==> actions[i].frame <= actions[j].frame,
        forall|i: int| 0 <= i < actions.len() ==> supported_spec((#[trigger] actions[i]).kind),
{
    lemma_no_problem_from(actions, 0);
    assert forall|i: int| 0 <= i < actions.len() implies (#[trigger] actions[i]).frame >= 0
        && supported_spec(actions[i].kind) by {
        assert(action_problem(actions, i) is None);
    }
    assert forall|i: int, j: int| 0 <= i <= j < actions.len() implies actions[i].frame
        <= actions[j].frame by {
        lemma_frames_chain(actions, i, j);
    }
}

proof fn lemma_none_undeclared_from(actions: Seq<Action>, opers: Seq<Oper>, deferred: Seq<Seq<char>>, i: int)
    requires
        0 <= i,
        first_undeclared(actions, opers, deferred, i) is None,
    ensures
        forall|k: int|
            i <= k < actions.len() && (#[trigger] actions[k]).name@.len() > 0 ==> declared(
                opers,
                deferred,
                actions[k].name@,
            ),
    decreases actions.len() - i,
{
    if i < actions.len() {
        lemma_none_undeclared_from(actions, opers, deferred, i + 1);
    }
}

/// What a valid job guarantees of every action: its kind runs in frame mode, its frame is
/// set (not negative) and not earlier than the one before; a Deploy has a tile and a
/// target name; a Skill or a Retreat has a target name or a tile; and, when the job
/// lists its operators, every named target is one of them or a deferred target.
pub proof fn lemma_valid_job_actions(c: Copilot)
    requires
        validation_error(c) is None,
    ensures
        forall|i: int|
            0 <= i < c.actions@.len() ==> {
                let a = #[trigger] c.actions@[i];
                &&& supported_spec(a.kind)
                &&& a.frame >= 0
                &&& i > 0 ==> c.actions@[i - 1].frame <= a.frame
                &&& a.kind == ActionType::Deploy ==> a.location is Some && !text::is_blank(a.name@)
                &&& (a.kind == ActionType::UseSkill || a.kind == ActionType::Retreat) ==> (
                !text::is_blank(a.name@) || a.location is Some)
                &&& c.opers@.len() > 0 && a.name@.len() > 0 ==> ((exists|k: int|
                    0 <= k < c.opers@.len() && (#[trigger] c.opers@[k]).name@ == a.name@)
                    || views(c.meta.deferred_targets@).contains(a.name@))
            },
{
    lemma_no_problem_from(c.actions@, 0);
    if c.opers@.len() > 0 {
        lemma_none_undeclared_from(c.actions@, c.opers@, deferred_of(c), 0);
    }
    assert forall|i: int| 0 <= i < c.actions@.len() implies {
        let a = #[trigger] c.actions@[i];
        &&& supported_spec(a.kind)
        &&& a.frame >= 0
        &&& i > 0 ==> c.actions@[i - 1].frame <= a.frame
        &&& a.kind == ActionType::Deploy ==> a.location is Some && !text::is_blank(a.name@)
        &&& (a.kind == ActionType::UseSkill || a.kind == ActionType::Retreat) ==> (!text::is_blank(
            a.name@,
        ) || a.location is Some)
        &&& c.opers@.len() > 0 && a.name@.len() > 0 ==> ((exists|k: int|
            0 <= k < c.opers@.len() && (#[trigger] c.opers@[k]).name@ == a.name@) || views(
            c.meta.deferred_targets@,
        ).contains(a.name@))
    } by {
        assert(action_problem(c.actions@, i) is None);
        if c.opers@.len() > 0 && c.actions@[i].name@.len() > 0 {
            assert(declared(c.opers@, deferred_of(c), c.actions@[i].name@));
        }
    }
}

proof fn lemma_no_problem_from(actions: Seq<Action>, i: int)
    requires
        0 <= i,
        first_action_problem(actions, i) is None,
    ensures
        forall|k: int| i <= k < actions.len() ==> action_problem(actions, k) is None,
    decreases actions.len() - i,
{
    if i < actions.len() {
        lemma_no_problem_from(actions, i + 1);
    }
}

proof fn lemma_frames_chain(actions: Seq<Action>, i: int, j: int)
    requires
        0 <= i <= j < actions.len(),
        forall|k: int| 0 <= k < actions.len() ==> action_problem(actions, k) is None,
    ensures
        actions[i].frame <= actions[j].frame,
    decreases j - i,
{
    if i < j {
        lemma_frames_chain(actions, i, j - 1);
        assert(action_problem(actions, j) is None);
    }
}

impl Copilot {
    /// Checks the job's structural rules; see [`validation_error`].
    pub fn validate(&self) -> (r: Result<(), CopilotError>)
        ensures
            match r {
                Ok(()) => validation_error(*self) is None,
                Err(e) => validation_error(*self) == Some(e),
            },
    {
        let n = self.actions.len();
        let mut previous: i64 = -1;
        let mut i: usize = 0;
        while i < n
            invariant
                n == self.actions@.len(),
                i <= n,
                previous == previous_frame(self.actions@, i as int),
                first_action_problem(self.actions@, 0) == first_action_problem(
                    self.actions@,
                    i as int,
                ),
            decreases n - i,
        {
            let action = &self.actions[i];
            let ghost problem = action_problem(self.actions@, i as int);
            if !action.kind.supported_in_frame_mode() {
                return Err(CopilotError::UnsupportedAction { index: i, kind: action.kind });
            }
            if action.frame < 0 {
                return Err(CopilotError::MissingFrame { index: i });
            }
            if action.frame < previous {
                return Err(
                    CopilotError::FramesOutOfOrder { index: i, previous, current: action.frame },
                );
            }
            let blank = text::is_blank_str(action.name.as_str());
            if action.kind == ActionType::Deploy {
                if action.location.is_none() {
                    return Err(CopilotError::DeployWithoutLocation { index: i });
                }
                if blank {
                    return Err(CopilotError::DeployWithoutName { index: i });
                }
            }
            if (action.kind == ActionType::UseSkill || action.kind == ActionType::Retreat) && blank
                && action.location.is_none() {
                return Err(CopilotError::TargetlessAction { index: i, kind: action.kind });
            }
            assert(problem is None);
            proof {
                lemma_first_problem_step(self.actions@, i as int);
            }
            previous = action.frame;
            i = i + 1;
        }
        if self.opers.len() > 0 {
            let mut i: usize = 0;
            while i < n
                invariant
                    n == self.actions@.len(),
                    i <= n,
                    first_action_problem(self.actions@, 0) is None,
                    self.opers@.len() > 0,
                    first_undeclared(self.actions@, self.opers@, deferred_of(*self), 0)
                        == first_undeclared(self.actions@, self.opers@, deferred_of(*self), i as int),
                decreases n - i,
            {
                let action = &self.actions[i];
                if action.name.as_str().unicode_len() > 0 {
                    let mut found = false;
                    let mut k: usize = 0;
                    while k < self.opers.len()
                        invariant
                            k <= self.opers@.len(),
                            found == exists|j: int|
                                0 <= j < k && (#[trigger] self.opers@[j]).name@ == action.name@,
                        decreases self.opers@.len() - k,
                    {
                        if self.opers[k].name == action.name {
                            found = true;
                        }
                        k = k + 1;
                    }
                    if !found {
                        found = crate::job_items::contains_text(
                            &self.meta.deferred_targets,
                            action.name.as_str(),
                        );
                    }
                    if !found {
                        return Err(CopilotError::UndeclaredOper { index: i, name: action.name.clone() });
                    }
                }
                i = i + 1;
            }
        }
        Ok(())
    }

    /// All operator names of the job, declared ones first, in order of first
    /// appearance.
    pub fn oper_names(&self) -> (names: Vec<String>)
        ensures
            names@.map_values(|s: String| s@) == oper_name_list(*self),
    {
        let mut names: Vec<String> = Vec::new();
        let mut k: usize = 0;
        while k < self.opers.len()
            invariant
                k <= self.opers@.len(),
                names@.map_values(|s: String| s@) == self.opers@.subrange(0, k as int).map_values(
                    |o: Oper| o.name@,
                ),
            decreases self.opers@.len() - k,
        {
            let ghost before = names@.map_values(|s: String| s@);
            names.push(self.opers[k].name.clone());
            assert(names@.map_values(|s: String| s@) =~= before.push(self.opers@[k as int].name@));
            assert(self.opers@.subrange(0, k + 1).map_values(|o: Oper| o.name@)
                =~= self.opers@.subrange(0, k as int).map_values(|o: Oper| o.name@).push(
                self.opers@[k as int].name@,
            ));
            k = k + 1;
        }
        assert(self.opers@.subrange(0, k as int) == self.opers@);
        let ghost start = self.opers@.map_values(|o: Oper| o.name@);
        let mut i: usize = 0;
        while i < self.actions.len()
            invariant
                i <= self.actions@.len(),
                names@.map_values(|s: String| s@) == names_through(
                    start,
                    self.actions@.subrange(0, i as int),
                    deferred_of(*self),
                ),
            decreases self.actions@.len() - i,
        {
            let action = &self.actions[i];
            let ghost before = names@.map_values(|s: String| s@);
            assert(self.actions@.subrange(0, i + 1).drop_last() =~= self.actions@.subrange(
                0,
                i as int,
            ));
            if action.name.as_str().unicode_len() > 0 && !crate::job_items::contains_text(
                &self.meta.deferred_targets,
                action.name.as_str(),
            ) {
                let mut found = false;
                let mut k: usize = 0;
                while k < names.len()
                    invariant
                        k <= names@.len(),
                        before == names@.map_values(|s: String| s@),
                        found == exists|j: int| 0 <= j < k && before[j] == action.name@,
                    decreases names@.len() - k,
                {
                    assert(before[k as int] == names@[k as int]@);
                    if names[k] == action.name {
                        found = true;
                    }
                    k = k + 1;
                }
                if !found {
                    names.push(action.name.clone());
                    assert(names@.map_values(|s: String| s@) =~= before.push(action.name@));
                } else {
                    assert(before.contains(action.name@));
                }
            }
            i = i + 1;
        }
        assert(self.actions@.subrange(0, i as int) == self.actions@);
        names
    }

    /// The deferred targets: names a Deploy brings in later, outside the starting
    /// formation.
    pub fn deferred_target_names(&self) -> (names: Vec<String>)
        ensures
            views(names@) == deferred_of(*self),
    {
        let mut names: Vec<String> = Vec::new();
        let mut k: usize = 0;
        while k < self.meta.deferred_targets.len()
            invariant
                k <= self.meta.deferred_targets@.len(),
                views(names@) == views(self.meta.deferred_targets@.subrange(0, k as int)),
            decreases self.meta.deferred_targets@.len() - k,
        {
            names.push(self.meta.deferred_targets[k].clone());
            assert(views(self.meta.deferred_targets@.subrange(0, k + 1)) =~= views(
                self.meta.deferred_targets@.subrange(0, k as int),
            ).push(self.meta.deferred_targets@[k as int]@));
            assert(views(names@) =~= views(self.meta.deferred_targets@.subrange(0, k + 1)));
            k = k + 1;
        }
        assert(self.meta.deferred_targets@.subrange(0, k as int) == self.meta.deferred_targets@);
        names
    }

    /// The frame of the last action (0 for a job without actions).
    pub fn last_frame(&self) -> (f: i64)
        ensures
            f == if self.actions@.len() == 0 {
                0
            } else {
                self.actions@.last().frame
            },
    {
        let n = self.actions.len();
        if n == 0 {
            0
        } else {
            self.actions[n - 1].frame
        }
    }
}


/// The text of member `key` when it is a string, `default` otherwise.
pub open spec fn text_or(v: JsonValue, key: Seq<char>, default: Seq<char>) -> Seq<char> {
    match v.field(key) {
        Some(f) => match f.text() {
            Some(t) => t,
            None => default,
        },
        None => default,
    }
}

/// The type string of an action object (`"Deploy"` when absent).
pub open spec fn action_type_text(v: JsonValue) -> Seq<char> {
    text_or(v, "type"@, "Deploy"@)
}

/// The frame of an action object (-1 when absent, so that validation reports it).
pub open spec fn action_frame_of(v: JsonValue) -> i64 {
    match v.field("frame"@) {
        Some(f) => match f.integer() {
            Some(i) => i,
            None => -1i64,
        },
        None => -1i64,
    }
}

/// The tile of an action object: the first two elements of `location`, when both are
/// integers (each truncated to `i32`).
pub open spec fn action_location_of(v: JsonValue) -> Option<Point> {
    match v.field("location"@) {
        Some(l) => match l.items() {
            Some(arr) => if arr.len() >= 2 && arr[0].integer() is Some && arr[1].integer() is Some {
                Some(
                    Point {
                        x: arr[0].integer().unwrap() as i32,
                        y: arr[1].integer().unwrap() as i32,
                    },
                )
            } else {
                None
            },
            None => None,
        },
        None => None,
    }
}

/// The facing of an action object (right when absent or not a string).
pub open spec fn action_direction_of(v: JsonValue) -> Direction {
    match v.field("direction"@) {
        Some(f) => match f.text() {
            Some(t) => direction_from(t),
            None => Direction::Right,
        },
        None => Direction::Right,
    }
}

/// `a` is the action that the object `v` describes.
pub open spec fn action_matches(a: Action, v: JsonValue) -> bool {
    &&& action_type_from(text::ascii_lower(action_type_text(v))) == Some(a.kind)
    &&& a.frame == action_frame_of(v)
    &&& a.location == action_location_of(v)
    &&& a.direction == action_direction_of(v)
    &&& a.name@ == text_or(v, "name"@, Seq::empty())
    &&& a.doc@ == text_or(v, "doc"@, Seq::empty())
}

/// Reads one action object. An unknown type string is the only error; everything else
/// that is missing or malformed is left for validation to report.
pub fn parse_action(value: &JsonValue, index: usize) -> (r: Result<Action, CopilotError>)
    ensures
        match r {
            Ok(a) => action_matches(a, *value),
            Err(e) => {
                &&& action_type_from(text::ascii_lower(action_type_text(*value))) is None
                &&& e matches CopilotError::UnknownActionType { index: i, raw } && i == index
                    && raw@ == action_type_text(*value)
            },
        },
{
    let type_str: &str = match value.get("type") {
        Some(t) => match t.as_str() {
            Some(s) => s,
            None => "Deploy",
        },
        None => "Deploy",
    };
    let kind = match ActionType::parse(type_str) {
        Some(k) => k,
        None => {
            return Err(CopilotError::UnknownActionType { index, raw: type_str.to_owned() });
        },
    };
    let frame: i64 = match value.get("frame") {
        Some(f) => match f.as_i64() {
            Some(i) => i,
            None => -1,
        },
        None => -1,
    };
    let location: Option<Point> = match value.get("location") {
        Some(l) => match l.as_array() {
            Some(arr) => if arr.len() >= 2 {
                match (arr[0].as_i64(), arr[1].as_i64()) {
                    (Some(x), Some(y)) => Some(Point::new(x as i32, y as i32)),
                    _ => None,
                }
            } else {
                None
            },
            None => None,
        },
        None => None,
    };
    let direction = match value.get("direction") {
        Some(d) => match d.as_str() {
            Some(t) => parse_direction(t),
            None => Direction::Right,
        },
        None => Direction::Right,
    };
    let name = text_member_or_empty(value, "name");
    let doc = text_member_or_empty(value, "doc");
    Ok(Action { frame, kind, name, location, direction, doc })
}

/// The text of member `key` when it is a string, the empty string otherwise.
pub fn text_member_or_empty(value: &JsonValue, key: &str) -> (s: String)
    ensures
        s@ == text_or(*value, key@, Seq::empty()),
{
    match value.get(key) {
        Some(f) => match f.as_str() {
            Some(t) => t.to_owned(),
            None => String::new(),
        },
        None => String::new(),
    }
}

/// The `after_last_action` strings the job format accepts.
pub open spec fn after_last_action_from(t: Seq<char>) -> Option<AfterLastAction> {
    if t == "resume"@ {
        Some(AfterLastAction::Resume)
    } else if t == "pause"@ {
        Some(AfterLastAction::Pause)
    } else {
        None
    }
}

/// The texts of an array of strings; `None` for anything else.
pub open spec fn text_list(v: JsonValue) -> Option<Seq<Seq<char>>> {
    match v.items() {
        Some(items) => if forall|i: int| 0 <= i < items.len() ==> (#[trigger] items[i]).text() is Some {
            Some(items.map_values(|x: JsonValue| x.text().unwrap()))
        } else {
            None
        },
        None => None,
    }
}

/// The metadata an object-form `frame_replicator` block describes, or `None` when one
/// of its fields has the wrong type. Absent fields take their defaults.
pub open spec fn meta_fields(b: JsonValue) -> Option<(u32, Seq<char>, AfterLastAction, Seq<Seq<char>>)> {
    let after = match b.field("after_last_action"@) {
        None => Some(AfterLastAction::Resume),
        Some(f) => match f.text() {
            Some(t) => after_last_action_from(t),
            None => None,
        },
    };
    let speed = match b.field("speed"@) {
        None => Some("1x"@),
        Some(f) => f.text(),
    };
    let version = match b.field("version"@) {
        None => Some(1u32),
        Some(f) => match f.uint() {
            Some(u) => if u <= u32::MAX {
                Some(u as u32)
            } else {
                None
            },
            None => None,
        },
    };
    let deferred = match b.field("deferred_targets"@) {
        None => Some(Seq::<Seq<char>>::empty()),
        Some(f) => text_list(f),
    };
    if after is Some && speed is Some && version is Some && deferred is Some {
        Some((version.unwrap(), speed.unwrap(), after.unwrap(), deferred.unwrap()))
    } else {
        None
    }
}

/// Reads an object-form `frame_replicator` block.
fn meta_from_object(b: &JsonValue) -> (r: Result<FrameReplicatorMeta, JsonError>)
    ensures
        match r {
            Ok(m) => meta_fields(*b) == Some(
                (m.version, m.speed@, m.after_last_action, views(m.deferred_targets@)),
            ),
            Err(_) => meta_fields(*b) is None,
        },
{
    let after_last_action = match b.get("after_last_action") {
        None => AfterLastAction::Resume,
        Some(f) => match f.as_str() {
            Some(t) => if text::str_eq(t, "resume") {
                AfterLastAction::Resume
            } else if text::str_eq(t, "pause") {
                AfterLastAction::Pause
            } else {
                return Err(
                    JsonError {
                        message: String::from_str(
                            "`after_last_action` must be \"resume\" or \"pause\"",
                        ),
                    },
                );
            },
            None => {
                return Err(
                    JsonError {
                        message: String::from_str("`after_last_action` must be a string"),
                    },
                );
            },
        },
    };
    let speed = match b.get("speed") {
        None => default_speed(),
        Some(f) => match f.as_str() {
            Some(t) => t.to_owned(),
            None => {
                return Err(JsonError { message: String::from_str("`speed` must be a string") });
            },
        },
    };
    let version = match b.get("version") {
        None => default_version(),
        Some(f) => match f.as_u64() {
            Some(u) => if u <= u32::MAX as u64 {
                u as u32
            } else {
                return Err(
                    JsonError { message: String::from_str("`version` does not fit in u32") },
                );
            },
            None => {
                return Err(
                    JsonError { message: String::from_str("`version` must be an unsigned integer") },
                );
            },
        },
    };
    let deferred_targets = match b.get("deferred_targets") {
        None => Vec::new(),
        Some(f) => match f.as_array() {
            Some(items) => {
                let mut names: Vec<String> = Vec::new();
                let mut i: usize = 0;
                while i < items.len()
                    invariant
                        b.field("deferred_targets"@) == Some(*f),
                        f.items() == Some(items@),
                        i <= items@.len(),
                        forall|j: int| 0 <= j < i ==> (#[trigger] items@[j]).text() is Some,
                        views(names@) == items@.subrange(0, i as int).map_values(
                            |x: JsonValue| x.text().unwrap(),
                        ),
                    decreases items@.len() - i,
                {
                    match items[i].as_str() {
                        Some(t) => {
                            let ghost before = views(names@);
                            names.push(t.to_owned());
                            assert(views(names@) =~= before.push(t@));
                            assert(items@.subrange(0, i + 1).map_values(|x: JsonValue| x.text().unwrap())
                                =~= items@.subrange(0, i as int).map_values(|x: JsonValue| x.text().unwrap()).push(
                                t@,
                            ));
                        },
                        None => {
                            assert(f.items() == Some(items@));
                            assert(items@[i as int].text() is None);
                            assert(!(forall|j: int| 0 <= j < items@.len() ==> (#[trigger] items@[j]).text() is Some));
                            assert(text_list(*f) is None);
                            return Err(
                                JsonError {
                                    message: String::from_str("`deferred_targets` must list strings"),
                                },
                            );
                        },
                    }
                    i = i + 1;
                }
                assert(items@.subrange(0, i as int) == items@);
                names
            },
            None => {
                return Err(
                    JsonError { message: String::from_str("`deferred_targets` must be a list") },
                );
            },
        },
    };
    Ok(FrameReplicatorMeta { version, speed, after_last_action, deferred_targets })
}

/// The operator an `opers` entry describes, or `None` when it is malformed. An entry is
/// an object with a string `name` and an optional `skill` in 0..=255, or an array
/// `[name]` / `[name, skill]`.
pub open spec fn oper_fields(v: JsonValue) -> Option<(Seq<char>, u8)> {
    match v {
        JsonValue::Object(_) => {
            let skill = match v.field("skill"@) {
                None => Some(0u8),
                Some(f) => match f.uint() {
                    Some(u) => if u <= 255 {
                        Some(u as u8)
                    } else {
                        None
                    },
                    None => None,
                },
            };
            match v.field("name"@) {
                Some(n) => match n.text() {
                    Some(t) => if skill is Some {
                        Some((t, skill.unwrap()))
                    } else {
                        None
                    },
                    None => None,
                },
                None => None,
            }
        },
        JsonValue::Array(a) => if a@.len() == 1 || a@.len() == 2 {
            let skill = if a@.len() == 1 {
                Some(0u8)
            } else {
                match a@[1].uint() {
                    Some(u) => if u <= 255 {
                        Some(u as u8)
                    } else {
                        None
                    },
                    None => None,
                }
            };
            match a@[0].text() {
                Some(t) => if skill is Some {
                    Some((t, skill.unwrap()))
                } else {
                    None
                },
                None => None,
            }
        } else {
            None
        },
        _ => None,
    }
}

fn skill_of(v: &JsonValue) -> (r: Option<u8>)
    ensures
        r == (match v.uint() {
            Some(u) => if u <= 255 {
                Some(u as u8)
            } else {
                None
            },
            None => None,
        }),
{
    match v.as_u64() {
        Some(u) => if u <= 255 {
            Some(u as u8)
        } else {
            None
        },
        None => None,
    }
}

fn oper_from(v: &JsonValue) -> (r: Option<Oper>)
    ensures
        match r {
            Some(o) => oper_fields(*v) == Some((o.name@, o.skill)),
            None => oper_fields(*v) is None,
        },
{
    match v {
        JsonValue::Object(_) => {
            let skill = match v.get("skill") {
                None => Some(0u8),
                Some(f) => skill_of(f),
            };
            match v.get("name") {
                Some(n) => match n.as_str() {
                    Some(t) => match skill {
                        Some(k) => Some(Oper { name: t.to_owned(), skill: k }),
                        None => None,
                    },
                    None => None,
                },
                None => None,
            }
        },
        JsonValue::Array(a) => if a.len() == 1 || a.len() == 2 {
            let skill = if a.len() == 1 {
                Some(0u8)
            } else {
                skill_of(&a[1])
            };
            match a[0].as_str() {
                Some(t) => match skill {
                    Some(k) => Some(Oper { name: t.to_owned(), skill: k }),
                    None => None,
                },
                None => None,
            }
        } else {
            None
        },
        _ => None,
    }
}

/// `opers` lists exactly the operators `v` describes.
pub open spec fn opers_match(v: JsonValue, opers: Seq<Oper>) -> bool {
    &&& v.items() is Some
    &&& opers.len() == v.items().unwrap().len()
    &&& forall|i: int|
        0 <= i < opers.len() ==> oper_fields(v.items().unwrap()[i]) == Some(
            ((#[trigger] opers[i]).name@, opers[i].skill),
        )
}

/// Whether `v` is an array of well-formed operator entries.
pub open spec fn opers_readable(v: JsonValue) -> bool {
    &&& v.items() is Some
    &&& forall|i: int|
        0 <= i < v.items().unwrap().len() ==> (#[trigger] oper_fields(v.items().unwrap()[i])) is Some
}

fn opers_from(v: &JsonValue) -> (r: Result<Vec<Oper>, JsonError>)
    ensures
        match r {
            Ok(opers) => opers_match(*v, opers@),
            Err(_) => !opers_readable(*v),
        },
{
    let items = match v.as_array() {
        Some(a) => a,
        None => {
            return Err(JsonError { message: String::from_str("`opers` must be an array") });
        },
    };
    let mut opers: Vec<Oper> = Vec::new();
    let mut i: usize = 0;
    while i < items.len()
        invariant
            v.items() == Some(items@),
            i <= items@.len(),
            opers@.len() == i,
            forall|j: int|
                0 <= j < i ==> oper_fields(items@[j]) == Some(
                    ((#[trigger] opers@[j]).name@, opers@[j].skill),
                ),
        decreases items@.len() - i,
    {
        match oper_from(&items[i]) {
            Some(o) => opers.push(o),
            None => {
                return Err(JsonError { message: String::from_str("malformed entry in `opers`") });
            },
        }
        i = i + 1;
    }
    Ok(opers)
}

/// The stage name of a job document, when it is a non-blank string.
pub open spec fn stage_name_of(doc: JsonValue) -> Option<Seq<char>> {
    match doc.field("stage_name"@) {
        Some(f) => match f.text() {
            Some(t) => if text::is_blank(t) {
                None
            } else {
                Some(t)
            },
            None => None,
        },
        None => None,
    }
}

/// The metadata of a job document: `None` when the block is missing, `Some(None)` when
/// it is malformed. A non-object block (such as `true`) means the defaults.
pub open spec fn job_meta(doc: JsonValue) -> Option<
    Option<(u32, Seq<char>, AfterLastAction, Seq<Seq<char>>)>,
> {
    match doc.field("frame_replicator"@) {
        None => None,
        Some(b) => if b.is_object_value() {
            Some(meta_fields(b))
        } else {
            Some(Some((1u32, "1x"@, AfterLastAction::Resume, Seq::<Seq<char>>::empty())))
        },
    }
}

/// Whether the `opers` of a job document can be read (an absent list is empty).
pub open spec fn job_opers_readable(doc: JsonValue) -> bool {
    match doc.field("opers"@) {
        Some(v) => opers_readable(v),
        None => true,
    }
}

pub open spec fn job_opers_match(doc: JsonValue, opers: Seq<Oper>) -> bool {
    match doc.field("opers"@) {
        Some(v) => opers_match(v, opers),
        None => opers.len() == 0,
    }
}

/// The action objects of a job document.
pub open spec fn job_action_items(doc: JsonValue) -> Option<Seq<JsonValue>> {
    match doc.field("actions"@) {
        Some(a) => a.items(),
        None => None,
    }
}

/// Index of the first action object whose type string is not known.
pub open spec fn first_unknown_type(items: Seq<JsonValue>, i: int) -> Option<int>
    decreases items.len() - i,
{
    if i < 0 || i >= items.len() {
        None
    } else if action_type_from(text::ascii_lower(action_type_text(items[i]))) is None {
        Some(i)
    } else {
        first_unknown_type(items, i + 1)
    }
}

/// The text at `/doc/<key>` of a job document, or the empty string.
pub open spec fn doc_text(doc: JsonValue, key: Seq<char>) -> Seq<char> {
    match doc.field("doc"@) {
        Some(d) => text_or(d, key, Seq::empty()),
        None => Seq::empty(),
    }
}

/// Every check that comes before validation passes.
pub open spec fn job_readable(doc: JsonValue) -> bool {
    &&& stage_name_of(doc) is Some
    &&& job_meta(doc) matches Some(Some(m)) && m.1 == "1x"@
    &&& job_opers_readable(doc)
    &&& job_action_items(doc) is Some
    &&& first_unknown_type(job_action_items(doc).unwrap(), 0) is None
    &&& job_action_items(doc).unwrap().len() > 0
}

/// `e` is the error reported by the first check before validation that fails.
pub open spec fn job_read_error(doc: JsonValue, e: CopilotError) -> bool {
    if stage_name_of(doc) is None {
        e matches CopilotError::MissingField(f) && f@ == "stage_name"@
    } else if job_meta(doc) is None {
        e is NotAFrameReplicatorJob
    } else if job_meta(doc).unwrap() is None {
        e is Json
    } else if job_meta(doc).unwrap().unwrap().1 != "1x"@ {
        e matches CopilotError::UnsupportedSpeed(s) && s@ == job_meta(doc).unwrap().unwrap().1
    } else if !job_opers_readable(doc) {
        e is Json
    } else if job_action_items(doc) is None {
        e matches CopilotError::MissingField(f) && f@ == "actions"@
    } else if first_unknown_type(job_action_items(doc).unwrap(), 0) is Some {
        let i = first_unknown_type(job_action_items(doc).unwrap(), 0).unwrap();
        e matches CopilotError::UnknownActionType { index, raw } && index == i && raw@
            == action_type_text(job_action_items(doc).unwrap()[i])
    } else if job_action_items(doc).unwrap().len() == 0 {
        e is NoActions
    } else {
        false
    }
}

/// `c` is the job that the document describes (before validation).
pub open spec fn job_matches(doc: JsonValue, c: Copilot) -> bool {
    &&& stage_name_of(doc) == Some(c.stage_name@)
    &&& job_meta(doc) == Some(
        Some((c.meta.version, c.meta.speed@, c.meta.after_last_action, deferred_of(c))),
    )
    &&& job_opers_match(doc, c.opers@)
    &&& job_action_items(doc) matches Some(items) && items.len() == c.actions@.len() && forall|
        i: int,
    | 0 <= i < items.len() ==> action_matches(#[trigger] c.actions@[i], items[i])
    &&& c.title@ == doc_text(doc, "title"@)
    &&& c.details@ == doc_text(doc, "details"@)
}

/// `r` is what parsing and validating the job text `text` gives.
pub open spec fn parse_outcome(text: Seq<char>, r: Result<Copilot, CopilotError>) -> bool {
    match json::json_document(text) {
        Err(je) => r matches Err(CopilotError::Json(e)) && e == je,
        Ok(doc) => match r {
            Ok(c) => job_readable(doc) && job_matches(doc, c) && validation_error(c) is None,
            Err(e) => job_read_error(doc, e) || (job_readable(doc) && exists|c: Copilot|
                job_matches(doc, c) && validation_error(c) == Some(e)),
        },
    }
}

/// Two actions that validation cannot tell apart.
pub open spec fn same_for_validation(a: Action, b: Action) -> bool {
    a.kind == b.kind && a.frame == b.frame && a.location == b.location && a.name@ == b.name@
}

proof fn lemma_problems_agree(a1: Seq<Action>, a2: Seq<Action>, i: int)
    requires
        a1.len() == a2.len(),
        forall|k: int| 0 <= k < a1.len() ==> same_for_validation(#[trigger] a1[k], a2[k]),
        0 <= i,
    ensures
        first_action_problem(a1, i) is None <==> first_action_problem(a2, i) is None,
    decreases a1.len() - i,
{
    if i < a1.len() {
        assert(same_for_validation(a1[i], a2[i]));
        if i > 0 {
            assert(same_for_validation(a1[i - 1], a2[i - 1]));
        }
        lemma_problems_agree(a1, a2, i + 1);
    }
}

proof fn lemma_undeclared_agree(
    a1: Seq<Action>,
    a2: Seq<Action>,
    o1: Seq<Oper>,
    o2: Seq<Oper>,
    deferred: Seq<Seq<char>>,
    i: int,
)
    requires
        a1.len() == a2.len(),
        forall|k: int| 0 <= k < a1.len() ==> same_for_validation(#[trigger] a1[k], a2[k]),
        o1.len() == o2.len(),
        forall|k: int| 0 <= k < o1.len() ==> (#[trigger] o1[k]).name@ == o2[k].name@,
        0 <= i,
    ensures
        first_undeclared(a1, o1, deferred, i) is None <==> first_undeclared(a2, o2, deferred, i) is None,
    decreases a1.len() - i,
{
    if i < a1.len() {
        assert(same_for_validation(a1[i], a2[i]));
        let n = a1[i].name@;
        assert(declared(o1, deferred, n) <==> declared(o2, deferred, n)) by {
            if exists|k: int| 0 <= k < o1.len() && (#[trigger] o1[k]).name@ == n {
                let k = choose|k: int| 0 <= k < o1.len() && (#[trigger] o1[k]).name@ == n;
                assert(o2[k].name@ == n);
            }
            if exists|k: int| 0 <= k < o2.len() && (#[trigger] o2[k]).name@ == n {
                let k = choose|k: int| 0 <= k < o2.len() && (#[trigger] o2[k]).name@ == n;
                assert(o1[k].name@ == n);
            }
        }
        lemma_undeclared_agree(a1, a2, o1, o2, deferred, i + 1);
    }
}

/// Two jobs read from one document are valid alike.
pub proof fn lemma_same_document_same_validity(doc: JsonValue, c1: Copilot, c2: Copilot)
    requires
        job_matches(doc, c1),
        job_matches(doc, c2),
    ensures
        validation_error(c1) is None <==> validation_error(c2) is None,
{
    let items = job_action_items(doc).unwrap();
    assert forall|k: int| 0 <= k < c1.actions@.len() implies same_for_validation(
        #[trigger] c1.actions@[k],
        c2.actions@[k],
    ) by {
        assert(action_matches(c1.actions@[k], items[k]));
        assert(action_matches(c2.actions@[k], items[k]));
    }
    lemma_problems_agree(c1.actions@, c2.actions@, 0);
    match doc.field("opers"@) {
        Some(v) => {
            assert forall|k: int| 0 <= k < c1.opers@.len() implies (#[trigger] c1.opers@[k]).name@
                == c2.opers@[k].name@ by {
                assert(oper_fields(v.items().unwrap()[k]) == Some((c1.opers@[k].name@, c1.opers@[k].skill)));
                assert(oper_fields(v.items().unwrap()[k]) == Some((c2.opers@[k].name@, c2.opers@[k].skill)));
            }
        },
        None => {},
    }
    assert(deferred_of(c1) == deferred_of(c2));
    lemma_undeclared_agree(c1.actions@, c2.actions@, c1.opers@, c2.opers@, deferred_of(c1), 0);
}

/// Parsing a text never both succeeds and fails: a job text that compiles has no
/// compile error.
pub proof fn lemma_parse_outcome_exclusive(text: Seq<char>, c: Copilot, e: CopilotError)
    requires
        parse_outcome(text, Ok(c)),
    ensures
        !parse_outcome(text, Err(e)),
{
    let doc = json::json_document(text)->Ok_0;
    if parse_outcome(text, Err(e)) {
        assert(!job_read_error(doc, e));
        let c2 = choose|c2: Copilot| job_matches(doc, c2) && validation_error(c2) == Some(e);
        lemma_same_document_same_validity(doc, c, c2);
    }
}

proof fn lemma_unknown_step(items: Seq<JsonValue>, i: int)
    requires
        0 <= i < items.len(),
        action_type_from(text::ascii_lower(action_type_text(items[i]))) is Some,
    ensures
        first_unknown_type(items, i) == first_unknown_type(items, i + 1),
{
}

impl Copilot {
    /// Reads and validates a job from its JSON document.
    pub fn from_json(doc: &JsonValue) -> (r: Result<Copilot, CopilotError>)
        ensures
            match r {
                Ok(c) => job_readable(*doc) && job_matches(*doc, c) && validation_error(c) is None,
                Err(e) => job_read_error(*doc, e) || (job_readable(*doc) && exists|c: Copilot|
                    job_matches(*doc, c) && validation_error(c) == Some(e)),
            },
    {
        let stage_name = match doc.get("stage_name") {
            Some(f) => match f.as_str() {
                Some(t) => t,
                None => {
                    return Err(CopilotError::MissingField("stage_name"));
                },
            },
            None => {
                return Err(CopilotError::MissingField("stage_name"));
            },
        };
        if text::is_blank_str(stage_name) {
            return Err(CopilotError::MissingField("stage_name"));
        }
        let meta = match doc.get("frame_replicator") {
            None => {
                return Err(CopilotError::NotAFrameReplicatorJob);
            },
            Some(b) => if b.is_object() {
                match meta_from_object(b) {
                    Ok(m) => m,
                    Err(e) => {
                        return Err(CopilotError::Json(e));
                    },
                }
            } else {
                let m = FrameReplicatorMeta::default_meta();
                assert(views(m.deferred_targets@) =~= Seq::<Seq<char>>::empty());
                m
            },
        };
        if !text::str_eq(meta.speed.as_str(), "1x") {
            return Err(CopilotError::UnsupportedSpeed(meta.speed));
        }
        let opers = match doc.get("opers") {
            Some(v) => match opers_from(v) {
                Ok(o) => o,
                Err(e) => {
                    return Err(CopilotError::Json(e));
                },
            },
            None => Vec::new(),
        };
        proof {
            if let Some(v) = doc.field("opers"@) {
                assert forall|i: int| 0 <= i < v.items().unwrap().len() implies (#[trigger] oper_fields(
                    v.items().unwrap()[i],
                )) is Some by {
                    assert(oper_fields(v.items().unwrap()[i]) == Some(
                        (opers@[i].name@, opers@[i].skill),
                    ));
                }
            }
            assert(job_opers_readable(*doc));
        }
        let items = match doc.get("actions") {
            Some(a) => match a.as_array() {
                Some(items) => items,
                None => {
                    return Err(CopilotError::MissingField("actions"));
                },
            },
            None => {
                return Err(CopilotError::MissingField("actions"));
            },
        };
        let mut actions: Vec<Action> = Vec::new();
        let mut i: usize = 0;
        while i < items.len()
            invariant
                stage_name_of(*doc) is Some,
                job_meta(*doc) matches Some(Some(m)) && m.1 == "1x"@,
                job_opers_readable(*doc),
                job_action_items(*doc) == Some(items@),
                i <= items@.len(),
                actions@.len() == i,
                first_unknown_type(items@, 0) == first_unknown_type(items@, i as int),
                forall|j: int| 0 <= j < i ==> action_matches(#[trigger] actions@[j], items@[j]),
            decreases items@.len() - i,
        {
            match parse_action(&items[i], i) {
                Ok(a) => {
                    proof {
                        lemma_unknown_step(items@, i as int);
                    }
                    actions.push(a);
                },
                Err(e) => {
                    assert(first_unknown_type(items@, i as int) == Some(i as int));
                    return Err(e);
                },
            }
            i = i + 1;
        }
        if actions.len() == 0 {
            return Err(CopilotError::NoActions);
        }
        let (title, details) = match doc.get("doc") {
            Some(d) => (text_member_or_empty(d, "title"), text_member_or_empty(d, "details")),
            None => (String::new(), String::new()),
        };
        let copilot = Copilot {
            stage_name: stage_name.to_owned(),
            meta,
            opers,
            actions,
            title,
            details,
        };
        match copilot.validate() {
            Ok(()) => Ok(copilot),
            Err(e) => Err(e),
        }
    }

    /// Parses and validates a job file.
    pub fn parse(text: &str) -> (r: Result<Copilot, CopilotError>)
        ensures
            parse_outcome(text@, r),
    {
        match json::parse_json(text) {
            Ok(doc) => Copilot::from_json(&doc),
            Err(e) => Err(CopilotError::Json(e)),
        }
    }
}

} // verus!
