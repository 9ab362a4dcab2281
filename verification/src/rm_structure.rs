//! The structure builder: normalizes the snapshot's heterogeneous upstream
//! records into canonical schedule groups with a navigable cycle of
//! `prev_sche`/`next_sche` links, and maps the festival feed into a
//! [`Splatfest`] record with loud winner determination.

use vstd::prelude::*;
use crate::schedule_data::{
    pair, pairV, trio, trioV, RotationData, dataV, regularScheduleV, bankaraScheduleV, xScheduleV,
    festScheduleV, eventScheduleV, salmonRunRotationV, eggstraWorkRotationV, vsStageV, vsRuleV,
    regularSchedule, bankaraSchedule, xSchedule, festSchedule, eventSchedule, salmonRunRotation,
    eggstraWorkRotation, vsStage, vsRule, timePeriodV,
};
use crate::splatfest_data::{SplatfestData, SplatfestDataV, splatfestV, teamV, resultV};
use crate::rm_write::Color;
use crate::text::replaced;

verus! {

/// The error taxonomy of the core.
#[derive(Clone, Copy, Debug, PartialEq, Eq, Structural)]
pub enum CoreError {
    /// Network or transport failure.
    FetchFailure,
    /// Malformed or schema-mismatched payload.
    ParseFailure,
    /// Fetched successfully but still stale per the freshness rule.
    PrematureData,
    /// A builder invariant was violated: a missing required field on an
    /// included record, or a winner-determination tie or absence.
    StructuralFailure,
    /// The local snapshot blob could not be read or written.
    PersistenceFailure,
    /// One image could not be retrieved.
    AssetFailure,
}

#[derive(Clone, Debug, PartialEq)]
pub struct Image {
    pub url: String,
}

pub struct ImageV {
    pub url: Seq<char>,
}

impl DeepView for Image {
    type V = ImageV;

    open spec fn deep_view(&self) -> ImageV {
        ImageV { url: self.url.deep_view() }
    }
}

#[derive(Clone, Debug, PartialEq)]
pub struct Stage {
    pub name: String,
    pub image: Image,
}

pub struct StageV {
    pub name: Seq<char>,
    pub image: ImageV,
}

impl DeepView for Stage {
    type V = StageV;

    open spec fn deep_view(&self) -> StageV {
        StageV { name: self.name.deep_view(), image: self.image.deep_view() }
    }
}

#[derive(Clone, Debug, PartialEq)]
pub struct VsRule {
    pub name: String,
}

pub struct VsRuleV {
    pub name: Seq<char>,
}

impl DeepView for VsRule {
    type V = VsRuleV;

    open spec fn deep_view(&self) -> VsRuleV {
        VsRuleV { name: self.name.deep_view() }
    }
}

#[derive(Clone, Debug, PartialEq)]
pub struct VsSetting {
    pub vs_rule: VsRule,
    pub vs_stages: pair<Stage>,
}

pub struct VsSettingV {
    pub vs_rule: VsRuleV,
    pub vs_stages: pairV<StageV>,
}

impl DeepView for VsSetting {
    type V = VsSettingV;

    open spec fn deep_view(&self) -> VsSettingV {
        VsSettingV { vs_rule: self.vs_rule.deep_view(), vs_stages: self.vs_stages.deep_view() }
    }
}

/// One event's time window. Valid windows satisfy `start < end`.
#[derive(Clone, Copy, Debug, PartialEq, Eq, Structural)]
pub struct TimeRange {
    pub start: i64,
    pub end: i64,
}

impl DeepView for TimeRange {
    type V = TimeRange;

    open spec fn deep_view(&self) -> TimeRange {
        *self
    }
}

#[derive(Clone, Debug, PartialEq)]
pub struct VsEvent {
    pub run_time: TimeRange,
    pub vs_setting: VsSetting,
}

pub struct VsEventV {
    pub run_time: TimeRange,
    pub vs_setting: VsSettingV,
}

impl DeepView for VsEvent {
    type V = VsEventV;

    open spec fn deep_view(&self) -> VsEventV {
        VsEventV { run_time: self.run_time, vs_setting: self.vs_setting.deep_view() }
    }
}

#[derive(Clone, Debug, PartialEq)]
pub struct ChalEvent {
    pub run_time: Vec<TimeRange>,
    pub vs_setting: VsSetting,
    pub title: String,
    pub desc: String,
    pub details: String,
}

pub struct ChalEventV {
    pub run_time: Seq<TimeRange>,
    pub vs_setting: VsSettingV,
    pub title: Seq<char>,
    pub desc: Seq<char>,
    pub details: Seq<char>,
}

impl DeepView for ChalEvent {
    type V = ChalEventV;

    open spec fn deep_view(&self) -> ChalEventV {
        ChalEventV {
            run_time: self.run_time.deep_view(),
            vs_setting: self.vs_setting.deep_view(),
            title: self.title.deep_view(),
            desc: self.desc.deep_view(),
            details: self.details.deep_view(),
        }
    }
}

#[derive(Clone, Debug, PartialEq)]
pub struct Weapon {
    pub name: String,
    pub image: Image,
}

pub struct WeaponV {
    pub name: Seq<char>,
    pub image: ImageV,
}

impl DeepView for Weapon {
    type V = WeaponV;

    open spec fn deep_view(&self) -> WeaponV {
        WeaponV { name: self.name.deep_view(), image: self.image.deep_view() }
    }
}

#[derive(Clone, Debug, PartialEq)]
pub struct SalmonRunSetting {
    pub coop_stage: Stage,
    pub weapons: Vec<Weapon>,
    pub special: bool,
}

pub struct SalmonRunSettingV {
    pub coop_stage: StageV,
    pub weapons: Seq<WeaponV>,
    pub special: bool,
}

impl DeepView for SalmonRunSetting {
    type V = SalmonRunSettingV;

    open spec fn deep_view(&self) -> SalmonRunSettingV {
        SalmonRunSettingV {
            coop_stage: self.coop_stage.deep_view(),
            weapons: self.weapons.deep_view(),
            special: self.special,
        }
    }
}

#[derive(Clone, Debug, PartialEq)]
pub struct SalmonRunEvent {
    pub run_time: TimeRange,
    pub coop_setting: SalmonRunSetting,
    pub king_guess: String,
}

pub struct SalmonRunEventV {
    pub run_time: TimeRange,
    pub coop_setting: SalmonRunSettingV,
    pub king_guess: Seq<char>,
}

impl DeepView for SalmonRunEvent {
    type V = SalmonRunEventV;

    open spec fn deep_view(&self) -> SalmonRunEventV {
        SalmonRunEventV {
            run_time: self.run_time,
            coop_setting: self.coop_setting.deep_view(),
            king_guess: self.king_guess.deep_view(),
        }
    }
}

/// One normalized event, over the fixed set of event kinds.
#[derive(Clone, Debug, PartialEq)]
pub enum EventRecord {
    Vs(VsEvent),
    Chal(ChalEvent),
    SalmonRun(SalmonRunEvent),
}

pub enum EventRecordV {
    Vs(VsEventV),
    Chal(ChalEventV),
    SalmonRun(SalmonRunEventV),
}

impl DeepView for EventRecord {
    type V = EventRecordV;

    open spec fn deep_view(&self) -> EventRecordV {
        match self {
            EventRecord::Vs(e) => EventRecordV::Vs(e.deep_view()),
            EventRecord::Chal(e) => EventRecordV::Chal(e.deep_view()),
            EventRecord::SalmonRun(e) => EventRecordV::SalmonRun(e.deep_view()),
        }
    }
}

/// One category of rotating content, rendered as one navigable screen.
#[derive(Clone, Debug, PartialEq)]
pub struct Schedule {
    pub title: String,
    pub id: String,
    pub prev_sche: String,
    pub next_sche: String,
    pub events: Vec<EventRecord>,
}

pub struct ScheduleV {
    pub title: Seq<char>,
    pub id: Seq<char>,
    pub prev_sche: Seq<char>,
    pub next_sche: Seq<char>,
    pub events: Seq<EventRecordV>,
}

impl DeepView for Schedule {
    type V = ScheduleV;

    open spec fn deep_view(&self) -> ScheduleV {
        ScheduleV {
            title: self.title.deep_view(),
            id: self.id.deep_view(),
            prev_sche: self.prev_sche.deep_view(),
            next_sche: self.next_sche.deep_view(),
            events: self.events.deep_view(),
        }
    }
}

#[derive(Clone, Debug, PartialEq)]
pub struct SplatfestTeam {
    pub name: String,
    pub color: Color,
    pub image: Image,
}

pub struct SplatfestTeamV {
    pub name: Seq<char>,
    pub color: Color,
    pub image: ImageV,
}

impl DeepView for SplatfestTeam {
    type V = SplatfestTeamV;

    open spec fn deep_view(&self) -> SplatfestTeamV {
        SplatfestTeamV {
            name: self.name.deep_view(),
            color: self.color,
            image: self.image.deep_view(),
        }
    }
}

/// One leading flag and ratio pair; the ratio is held in basis points
/// (1/10000ths of the whole).
#[derive(Clone, Copy, Debug, PartialEq, Eq, Structural)]
pub struct Ratio {
    pub is_leading: bool,
    pub basis_points: u32,
}

impl DeepView for Ratio {
    type V = Ratio;

    open spec fn deep_view(&self) -> Ratio {
        *self
    }
}

/// One team's five result rows: sneak peek, votes, open, pro, tricolor.
#[derive(Clone, Copy, Debug, PartialEq, Eq, Structural)]
pub struct SplatfestTeamResult {
    pub sneak_peak: Ratio,
    pub votes: Ratio,
    pub open: Ratio,
    pub pro: Ratio,
    pub tricolor: Ratio,
}

impl DeepView for SplatfestTeamResult {
    type V = SplatfestTeamResult;

    open spec fn deep_view(&self) -> SplatfestTeamResult {
        *self
    }
}

#[derive(Clone, Debug, PartialEq)]
pub struct SplatfestResults {
    pub winner: SplatfestTeam,
    pub team_results: trio<SplatfestTeamResult>,
}

pub struct SplatfestResultsV {
    pub winner: SplatfestTeamV,
    pub team_results: trioV<SplatfestTeamResult>,
}

impl DeepView for SplatfestResults {
    type V = SplatfestResultsV;

    open spec fn deep_view(&self) -> SplatfestResultsV {
        SplatfestResultsV {
            winner: self.winner.deep_view(),
            team_results: self.team_results.deep_view(),
        }
    }
}

#[derive(Clone, Debug, PartialEq)]
pub enum SplatfestState {
    /// No concurrent "current fest" detail record is available yet.
    MissingTricolor,
    /// Running, with its midpoint timestamp and tricolor stage.
    Active(i64, Stage),
    /// Over, with full results.
    Finished(SplatfestResults),
}

pub enum SplatfestStateV {
    MissingTricolor,
    Active(i64, StageV),
    Finished(SplatfestResultsV),
}

impl DeepView for SplatfestState {
    type V = SplatfestStateV;

    open spec fn deep_view(&self) -> SplatfestStateV {
        match self {
            SplatfestState::MissingTricolor => SplatfestStateV::MissingTricolor,
            SplatfestState::Active(t, s) => SplatfestStateV::Active(*t, s.deep_view()),
            SplatfestState::Finished(r) => SplatfestStateV::Finished(r.deep_view()),
        }
    }
}

#[derive(Clone, Debug, PartialEq)]
pub struct Splatfest {
    pub run_time: TimeRange,
    pub title: String,
    pub teams: trio<SplatfestTeam>,
    pub state: SplatfestState,
}

pub struct SplatfestV {
    pub run_time: TimeRange,
    pub title: Seq<char>,
    pub teams: trioV<SplatfestTeamV>,
    pub state: SplatfestStateV,
}

impl DeepView for Splatfest {
    type V = SplatfestV;

    open spec fn deep_view(&self) -> SplatfestV {
        SplatfestV {
            run_time: self.run_time,
            title: self.title.deep_view(),
            teams: self.teams.deep_view(),
            state: self.state.deep_view(),
        }
    }
}

/// The fully built, positioned-object-ready structure for one cycle.
#[derive(Clone, Debug, PartialEq)]
pub struct RmStructure {
    pub schedules: Vec<Schedule>,
    pub splatfest: Option<Splatfest>,
}

pub struct RmStructureV {
    pub schedules: Seq<ScheduleV>,
    pub splatfest: Option<SplatfestV>,
}

impl DeepView for RmStructure {
    type V = RmStructureV;

    open spec fn deep_view(&self) -> RmStructureV {
        RmStructureV {
            schedules: self.schedules.deep_view(),
            splatfest: self.splatfest.deep_view(),
        }
    }
}

// ---------------------------------------------------------------------------
// The fixed category set and its precedence order.
// ---------------------------------------------------------------------------

/// The fixed upstream record categories, in display precedence order.
#[derive(Clone, Copy, Debug, PartialEq, Eq, Structural)]
pub enum Category {
    Regular,
    BankaraSeries,
    BankaraOpen,
    XMatch,
    SplatfestOpen,
    SplatfestPro,
    Challenge,
    Coop,
}

pub open spec fn spec_cat_id(c: Category) -> Seq<char> {
    match c {
        Category::Regular => "RegSche"@,
        Category::BankaraSeries => "BanSeriesSche"@,
        Category::BankaraOpen => "BanOpenSche"@,
        Category::XMatch => "xSche"@,
        Category::SplatfestOpen => "SfOpenSche"@,
        Category::SplatfestPro => "SfProSche"@,
        Category::Challenge => "ChalSche"@,
        Category::Coop => "CoopSche"@,
    }
}

pub open spec fn spec_cat_title(c: Category) -> Seq<char> {
    match c {
        Category::Regular => "Regular"@,
        Category::BankaraSeries => "Series"@,
        Category::BankaraOpen => "Open"@,
        Category::XMatch => "X Battles"@,
        Category::SplatfestOpen => "Open"@,
        Category::SplatfestPro => "Pro"@,
        Category::Challenge => "Challenge"@,
        Category::Coop => "Salmon Run"@,
    }
}

// ---------------------------------------------------------------------------
// What each upstream record becomes.
// ---------------------------------------------------------------------------

pub open spec fn spec_stage(s: vsStageV) -> StageV {
    StageV { name: s.name, image: ImageV { url: s.image.url } }
}

pub open spec fn spec_vs_setting(stages: pairV<vsStageV>, rule: vsRuleV) -> VsSettingV {
    VsSettingV {
        vs_rule: VsRuleV { name: rule.name },
        vs_stages: pairV { first: spec_stage(stages.first), second: spec_stage(stages.second) },
    }
}

pub open spec fn spec_vs_event(start: i64, end: i64, stages: pairV<vsStageV>, rule: vsRuleV) -> EventRecordV {
    EventRecordV::Vs(
        VsEventV { run_time: TimeRange { start, end }, vs_setting: spec_vs_setting(stages, rule) },
    )
}

pub open spec fn spec_reg_included(n: regularScheduleV) -> bool {
    n.regularMatchSetting is Some
}

pub open spec fn spec_reg_event(n: regularScheduleV) -> EventRecordV {
    match n.regularMatchSetting {
        Some(s) => spec_vs_event(n.startTime, n.endTime, s.vsStages, s.vsRule),
        None => arbitrary(),
    }
}

/// An included regular record must name its rule.
pub open spec fn spec_reg_ok(n: regularScheduleV) -> bool {
    match n.regularMatchSetting {
        Some(s) => s.vsRule.name.len() > 0,
        None => true,
    }
}

pub open spec fn spec_reg_events(ns: Seq<regularScheduleV>) -> Seq<EventRecordV> {
    ns.filter(|n: regularScheduleV| spec_reg_included(n)).map_values(
        |n: regularScheduleV| spec_reg_event(n),
    )
}

pub open spec fn spec_ban_included(n: bankaraScheduleV) -> bool {
    n.bankaraMatchSettings is Some
}

pub open spec fn spec_ban_event(n: bankaraScheduleV, series: bool) -> EventRecordV {
    match n.bankaraMatchSettings {
        Some(p) => if series {
            spec_vs_event(n.startTime, n.endTime, p.first.vsStages, p.first.vsRule)
        } else {
            spec_vs_event(n.startTime, n.endTime, p.second.vsStages, p.second.vsRule)
        },
        None => arbitrary(),
    }
}

pub open spec fn spec_ban_ok(n: bankaraScheduleV) -> bool {
    match n.bankaraMatchSettings {
        Some(p) => p.first.vsRule.name.len() > 0 && p.second.vsRule.name.len() > 0,
        None => true,
    }
}

pub open spec fn spec_ban_events(ns: Seq<bankaraScheduleV>, series: bool) -> Seq<EventRecordV> {
    ns.filter(|n: bankaraScheduleV| spec_ban_included(n)).map_values(
        |n: bankaraScheduleV| spec_ban_event(n, series),
    )
}

pub open spec fn spec_x_included(n: xScheduleV) -> bool {
    n.xMatchSetting is Some
}

pub open spec fn spec_x_event(n: xScheduleV) -> EventRecordV {
    match n.xMatchSetting {
        Some(s) => spec_vs_event(n.startTime, n.endTime, s.vsStages, s.vsRule),
        None => arbitrary(),
    }
}

pub open spec fn spec_x_ok(n: xScheduleV) -> bool {
    match n.xMatchSetting {
        Some(s) => s.vsRule.name.len() > 0,
        None => true,
    }
}

pub open spec fn spec_x_events(ns: Seq<xScheduleV>) -> Seq<EventRecordV> {
    ns.filter(|n: xScheduleV| spec_x_included(n)).map_values(|n: xScheduleV| spec_x_event(n))
}

pub open spec fn spec_fest_included(n: festScheduleV) -> bool {
    n.festMatchSettings is Some
}

/// The paired festival record publishes the pro setting first and the open
/// setting second.
pub open spec fn spec_fest_event(n: festScheduleV, pro: bool) -> EventRecordV {
    match n.festMatchSettings {
        Some(p) => if pro {
            spec_vs_event(n.startTime, n.endTime, p.first.vsStages, p.first.vsRule)
        } else {
            spec_vs_event(n.startTime, n.endTime, p.second.vsStages, p.second.vsRule)
        },
        None => arbitrary(),
    }
}

pub open spec fn spec_fest_ok(n: festScheduleV) -> bool {
    match n.festMatchSettings {
        Some(p) => p.first.vsRule.name.len() > 0 && p.second.vsRule.name.len() > 0,
        None => true,
    }
}

pub open spec fn spec_fest_events(ns: Seq<festScheduleV>, pro: bool) -> Seq<EventRecordV> {
    ns.filter(|n: festScheduleV| spec_fest_included(n)).map_values(
        |n: festScheduleV| spec_fest_event(n, pro),
    )
}

pub open spec fn spec_chal_included(n: eventScheduleV) -> bool {
    n.leagueMatchSetting.vsRule is Some
}

pub open spec fn spec_chal_ok(n: eventScheduleV) -> bool {
    match n.leagueMatchSetting.vsRule {
        Some(r) => r.name.len() > 0,
        None => true,
    }
}

/// Challenge text is cleaned for single-line display: literal break tags
/// become spaces, and the bullet separator becomes an asterisk item mark.
pub open spec fn spec_clean_text(s: Seq<char>) -> Seq<char> {
    replaced(replaced(s, "<br />"@, " "@), "\u{30FB}"@, " *"@)
}

pub open spec fn spec_chal_event(n: eventScheduleV) -> EventRecordV {
    match n.leagueMatchSetting.vsRule {
        Some(r) => EventRecordV::Chal(
            ChalEventV {
                run_time: n.timePeriods.map_values(
                    |p: timePeriodV| TimeRange { start: p.startTime, end: p.endTime },
                ),
                vs_setting: spec_vs_setting(n.leagueMatchSetting.vsStages, r),
                title: n.leagueMatchSetting.leagueMatchEvent.name,
                desc: spec_clean_text(n.leagueMatchSetting.leagueMatchEvent.desc),
                details: spec_clean_text(n.leagueMatchSetting.leagueMatchEvent.regulation),
            },
        ),
        None => arbitrary(),
    }
}

pub open spec fn spec_chal_events(ns: Seq<eventScheduleV>) -> Seq<EventRecordV> {
    ns.filter(|n: eventScheduleV| spec_chal_included(n)).map_values(
        |n: eventScheduleV| spec_chal_event(n),
    )
}

pub open spec fn spec_salmon_event(n: salmonRunRotationV, special: bool) -> EventRecordV {
    EventRecordV::SalmonRun(
        SalmonRunEventV {
            run_time: TimeRange { start: n.startTime, end: n.endTime },
            coop_setting: SalmonRunSettingV {
                coop_stage: StageV {
                    name: n.setting.coopStage.name,
                    image: ImageV { url: n.setting.coopStage.image.url },
                },
                weapons: n.setting.weapons.map_values(
                    |w: crate::schedule_data::weaponV| WeaponV {
                        name: w.name,
                        image: ImageV { url: w.image.url },
                    },
                ),
                special,
            },
            king_guess: n.__splatoon3ink_king_salmonid_guess,
        },
    )
}

pub open spec fn spec_eggstra_event(n: eggstraWorkRotationV) -> EventRecordV {
    EventRecordV::SalmonRun(
        SalmonRunEventV {
            run_time: TimeRange { start: n.startTime, end: n.endTime },
            coop_setting: SalmonRunSettingV {
                coop_stage: StageV {
                    name: n.setting.coopStage.name,
                    image: ImageV { url: n.setting.coopStage.image.url },
                },
                weapons: n.setting.weapons.map_values(
                    |w: crate::schedule_data::weaponV| WeaponV {
                        name: w.name,
                        image: ImageV { url: w.image.url },
                    },
                ),
                special: true,
            },
            king_guess: "None"@,
        },
    )
}

/// The three salmon-run sub-feeds merged, unsorted: the regular shifts, the
/// big-run shifts, and the team-contest shifts in feed order.
pub open spec fn spec_coop_events(c: crate::schedule_data::coopGroupingScheduleV) -> Seq<
    EventRecordV,
> {
    c.regularSchedules.nodes.map_values(|n: salmonRunRotationV| spec_salmon_event(n, false))
        + c.bigRunSchedules.nodes.map_values(|n: salmonRunRotationV| spec_salmon_event(n, true))
        + c.teamContestSchedules.nodes.map_values(|n: eggstraWorkRotationV| spec_eggstra_event(n))
}

pub open spec fn spec_cat_events(d: dataV, c: Category) -> Seq<EventRecordV> {
    match c {
        Category::Regular => spec_reg_events(d.regularSchedules.nodes),
        Category::BankaraSeries => spec_ban_events(d.bankaraSchedules.nodes, true),
        Category::BankaraOpen => spec_ban_events(d.bankaraSchedules.nodes, false),
        Category::XMatch => spec_x_events(d.xSchedules.nodes),
        Category::SplatfestOpen => spec_fest_events(d.festSchedules.nodes, false),
        Category::SplatfestPro => spec_fest_events(d.festSchedules.nodes, true),
        Category::Challenge => spec_chal_events(d.eventSchedules.nodes),
        Category::Coop => spec_coop_events(d.coopGroupingSchedule),
    }
}

/// Every included record across all categories names its rule.
pub open spec fn spec_structural_ok(d: dataV) -> bool {
    &&& forall|i: int|
        0 <= i < d.regularSchedules.nodes.len() ==> spec_reg_ok(
            #[trigger] d.regularSchedules.nodes[i],
        )
    &&& forall|i: int|
        0 <= i < d.bankaraSchedules.nodes.len() ==> spec_ban_ok(
            #[trigger] d.bankaraSchedules.nodes[i],
        )
    &&& forall|i: int|
        0 <= i < d.xSchedules.nodes.len() ==> spec_x_ok(#[trigger] d.xSchedules.nodes[i])
    &&& forall|i: int|
        0 <= i < d.festSchedules.nodes.len() ==> spec_fest_ok(#[trigger] d.festSchedules.nodes[i])
    &&& forall|i: int|
        0 <= i < d.eventSchedules.nodes.len() ==> spec_chal_ok(#[trigger] d.eventSchedules.nodes[i])
}

pub open spec fn spec_cat_opt(d: dataV, c: Category) -> Seq<Category> {
    if spec_cat_events(d, c).len() > 0 {
        seq![c]
    } else {
        Seq::empty()
    }
}

/// The categories that survive filtering, in precedence order: exactly
/// those with at least one event.
pub open spec fn spec_active_cats(d: dataV) -> Seq<Category> {
    spec_cat_opt(d, Category::Regular) + spec_cat_opt(d, Category::BankaraSeries) + spec_cat_opt(
        d,
        Category::BankaraOpen,
    ) + spec_cat_opt(d, Category::XMatch) + spec_cat_opt(d, Category::SplatfestOpen) + spec_cat_opt(
        d,
        Category::SplatfestPro,
    ) + spec_cat_opt(d, Category::Challenge) + spec_cat_opt(d, Category::Coop)
}

/// The start time an event is ordered by.
pub open spec fn spec_ev_start(e: EventRecordV) -> int {
    match e {
        EventRecordV::Vs(v) => v.run_time.start as int,
        EventRecordV::SalmonRun(s) => s.run_time.start as int,
        EventRecordV::Chal(c) => if c.run_time.len() > 0 {
            c.run_time[0].start as int
        } else {
            0
        },
    }
}

pub open spec fn spec_sorted_events(s: Seq<EventRecordV>) -> bool {
    forall|i: int, j: int|
        0 <= i < j < s.len() ==> spec_ev_start(#[trigger] s[i]) <= spec_ev_start(#[trigger] s[j])
}

/// One built group carries its category's id, title, and events; the merged
/// salmon-run group holds the same events as the merge, time-sorted.
pub open spec fn spec_group_matches(g: ScheduleV, d: dataV, c: Category) -> bool {
    &&& g.id == spec_cat_id(c)
    &&& g.title == spec_cat_title(c)
    &&& if c is Coop {
        &&& g.events.to_multiset() == spec_cat_events(d, c).to_multiset()
        &&& spec_sorted_events(g.events)
    } else {
        g.events == spec_cat_events(d, c)
    }
}

pub open spec fn spec_groups_match(gs: Seq<ScheduleV>, d: dataV) -> bool {
    &&& gs.len() == spec_active_cats(d).len()
    &&& forall|i: int|
        0 <= i < gs.len() ==> spec_group_matches(#[trigger] gs[i], d, spec_active_cats(d)[i])
}

/// The prev/next links run through the groups as one circular sequence.
pub open spec fn spec_cycle_linked(gs: Seq<ScheduleV>) -> bool {
    forall|i: int|
        0 <= i < gs.len() ==> {
            &&& (#[trigger] gs[i]).prev_sche == gs[if i == 0 {
                gs.len() - 1
            } else {
                i - 1
            }].id
            &&& gs[i].next_sche == gs[if i == gs.len() - 1 {
                0int
            } else {
                i + 1
            }].id
        }
}

// ---------------------------------------------------------------------------
// The festival record.
// ---------------------------------------------------------------------------

pub open spec fn spec_fest_team(t: teamV) -> SplatfestTeamV {
    SplatfestTeamV {
        name: t.teamName,
        color: Color {
            r: t.color.r as i64,
            g: t.color.g as i64,
            b: t.color.b as i64,
            a: t.color.a as i64,
        },
        image: ImageV { url: t.image.url },
    }
}

pub open spec fn spec_team_result(r: resultV) -> SplatfestTeamResult {
    SplatfestTeamResult {
        sneak_peak: Ratio { is_leading: r.isHoragaiRatioTop, basis_points: r.horagaiRatio },
        votes: Ratio { is_leading: r.isVoteRatioTop, basis_points: r.voteRatio },
        open: Ratio {
            is_leading: r.isRegularContributionRatioTop,
            basis_points: r.regularContributionRatio,
        },
        pro: Ratio {
            is_leading: r.isChallengeContributionRatioTop,
            basis_points: r.challengeContributionRatio,
        },
        tricolor: Ratio {
            is_leading: match r.isTricolorContributionRatioTop {
                Some(b) => b,
                None => false,
            },
            basis_points: match r.tricolorContributionRatio {
                Some(x) => x,
                None => 0,
            },
        },
    }
}

/// All three team results, once every team carries one.
pub open spec fn spec_fest_results(s: splatfestV) -> Option<trioV<resultV>> {
    match (s.teams.first.result, s.teams.second.result, s.teams.third.result) {
        (Some(a), Some(b), Some(c)) => Some(trioV { first: a, second: b, third: c }),
        _ => None,
    }
}

pub open spec fn spec_is_winner(rs: trioV<resultV>, i: int) -> bool {
    if i == 0 {
        rs.first.isWinner
    } else if i == 1 {
        rs.second.isWinner
    } else {
        rs.third.isWinner
    }
}

pub open spec fn spec_winner_count(rs: trioV<resultV>) -> int {
    (if rs.first.isWinner {
        1int
    } else {
        0
    }) + (if rs.second.isWinner {
        1int
    } else {
        0
    }) + (if rs.third.isWinner {
        1int
    } else {
        0
    })
}

pub open spec fn spec_winner_index(rs: trioV<resultV>) -> int {
    if rs.third.isWinner {
        2
    } else if rs.second.isWinner {
        1
    } else {
        0
    }
}

pub open spec fn spec_team_at(ts: trioV<teamV>, i: int) -> teamV {
    if i == 0 {
        ts.first
    } else if i == 1 {
        ts.second
    } else {
        ts.third
    }
}

pub open spec fn spec_fest_state(d: dataV, s: splatfestV) -> SplatfestStateV {
    match spec_fest_results(s) {
        Some(rs) => SplatfestStateV::Finished(
            SplatfestResultsV {
                winner: spec_fest_team(spec_team_at(s.teams, spec_winner_index(rs))),
                team_results: trioV {
                    first: spec_team_result(rs.first),
                    second: spec_team_result(rs.second),
                    third: spec_team_result(rs.third),
                },
            },
        ),
        None => match d.currentFest {
            Some(f) => SplatfestStateV::Active(
                f.midtermTime,
                StageV { name: f.tricolorStage.name, image: ImageV { url: f.tricolorStage.image.url } },
            ),
            None => SplatfestStateV::MissingTricolor,
        },
    }
}

/// The festival record considered: the newest one of the US region feed,
/// unless it ended more than one day ago.
pub open spec fn spec_fest_selected(f: SplatfestDataV, now: i64) -> Option<splatfestV> {
    if f.US.data.festRecords.nodes.len() > 0 {
        let s = f.US.data.festRecords.nodes[0];
        if (now as int) < s.endTime + 86400 {
            Some(s)
        } else {
            None
        }
    } else {
        None
    }
}

/// Winner determination is owed exactly one winning team wherever a full
/// result set is mapped.
pub open spec fn spec_winner_ok(f: SplatfestDataV, now: i64) -> bool {
    match spec_fest_selected(f, now) {
        Some(s) => match spec_fest_results(s) {
            Some(rs) => spec_winner_count(rs) == 1,
            None => true,
        },
        None => true,
    }
}

pub open spec fn spec_splatfest(d: dataV, f: SplatfestDataV, now: i64) -> Option<SplatfestV> {
    match spec_fest_selected(f, now) {
        None => None,
        Some(s) => Some(
            SplatfestV {
                run_time: TimeRange { start: s.startTime, end: s.endTime },
                title: s.title,
                teams: trioV {
                    first: spec_fest_team(s.teams.first),
                    second: spec_fest_team(s.teams.second),
                    third: spec_fest_team(s.teams.third),
                },
                state: spec_fest_state(d, s),
            },
        ),
    }
}

// ---------------------------------------------------------------------------
// Executable builders.
// ---------------------------------------------------------------------------

/// `filter` of a sequence extended on the right keeps the prefix's filter.
proof fn lemma_filter_push<A>(s: Seq<A>, x: A, p: spec_fn(A) -> bool)
    ensures
        s.push(x).filter(p) == (if p(x) {
            s.filter(p).push(x)
        } else {
            s.filter(p)
        }),
{
    reveal(Seq::filter);
    assert(s.push(x).drop_last() =~= s);
    assert(s.push(x).last() == x);
}

fn build_stage(s: &vsStage) -> (r: Stage)
    ensures
        r.deep_view() == spec_stage(s.deep_view()),
{
    Stage { name: s.name.clone(), image: Image { url: s.image.url.clone() } }
}

fn build_vs_event(start: i64, end: i64, stages: &pair<vsStage>, rule: &vsRule) -> (r: EventRecord)
    ensures
        r.deep_view() == spec_vs_event(start, end, stages.deep_view(), rule.deep_view()),
{
    EventRecord::Vs(
        VsEvent {
            run_time: TimeRange { start, end },
            vs_setting: VsSetting {
                vs_rule: VsRule { name: rule.name.clone() },
                vs_stages: pair { first: build_stage(&stages.first), second: build_stage(&stages.second) },
            },
        },
    )
}

fn build_regular(ns: &Vec<regularSchedule>) -> (r: Result<Vec<EventRecord>, CoreError>)
    ensures
        (r matches Ok(v) ==> v.deep_view() == spec_reg_events(ns.deep_view())),
        r is Ok <==> (forall|i: int|
            0 <= i < ns.deep_view().len() ==> spec_reg_ok(#[trigger] ns.deep_view()[i])),
        (r matches Err(e) ==> e == CoreError::StructuralFailure),
{
    let mut out: Vec<EventRecord> = Vec::new();
    let mut i: usize = 0;
    proof {
        assert(ns.deep_view().take(0) =~= Seq::<regularScheduleV>::empty());
        assert(out.deep_view() =~= spec_reg_events(ns.deep_view().take(0)));
    }
    while i < ns.len()
        invariant
            i <= ns@.len(),
            ns.deep_view().len() == ns@.len(),
            out.deep_view() == spec_reg_events(ns.deep_view().take(i as int)),
            forall|j: int| 0 <= j < i ==> spec_reg_ok(#[trigger] ns.deep_view()[j]),
        decreases ns@.len() - i,
    {
        let ghost pre = out.deep_view();
        let n = &ns[i];
        match &n.regularMatchSetting {
            Some(setting) => {
                if setting.vsRule.name.as_str().is_empty() {
                    proof {
                        assert(!spec_reg_ok(ns.deep_view()[i as int]));
                    }
                    return Err(CoreError::StructuralFailure);
                }
                let ev = build_vs_event(n.startTime, n.endTime, &setting.vsStages, &setting.vsRule);
                out.push(ev);
            },
            None => {},
        }
        proof {
            let vs = ns.deep_view();
            let x = vs[i as int];
            assert(vs.take(i + 1) =~= vs.take(i as int).push(x));
            lemma_filter_push(vs.take(i as int), x, |n: regularScheduleV| spec_reg_included(n));
            if spec_reg_included(x) {
                assert(out.deep_view() =~= pre.push(spec_reg_event(x)));
                assert(out.deep_view() =~= spec_reg_events(vs.take(i + 1)));
            } else {
                assert(out.deep_view() =~= spec_reg_events(vs.take(i + 1)));
            }
        }
        i = i + 1;
    }
    proof {
        assert(ns.deep_view().take(ns@.len() as int) =~= ns.deep_view());
    }
    Ok(out)
}

fn build_bankara(ns: &Vec<bankaraSchedule>) -> (r: Result<
    (Vec<EventRecord>, Vec<EventRecord>),
    CoreError,
>)
    ensures
        (r matches Ok(v) ==> v.0.deep_view() == spec_ban_events(ns.deep_view(), true)
            && v.1.deep_view() == spec_ban_events(ns.deep_view(), false)),
        r is Ok <==> (forall|i: int|
            0 <= i < ns.deep_view().len() ==> spec_ban_ok(#[trigger] ns.deep_view()[i])),
        (r matches Err(e) ==> e == CoreError::StructuralFailure),
{
    let mut series: Vec<EventRecord> = Vec::new();
    let mut open: Vec<EventRecord> = Vec::new();
    let mut i: usize = 0;
    proof {
        assert(ns.deep_view().take(0) =~= Seq::<bankaraScheduleV>::empty());
        assert(series.deep_view() =~= spec_ban_events(ns.deep_view().take(0), true));
        assert(open.deep_view() =~= spec_ban_events(ns.deep_view().take(0), false));
    }
    while i < ns.len()
        invariant
            i <= ns@.len(),
            ns.deep_view().len() == ns@.len(),
            series.deep_view() == spec_ban_events(ns.deep_view().take(i as int), true),
            open.deep_view() == spec_ban_events(ns.deep_view().take(i as int), false),
            forall|j: int| 0 <= j < i ==> spec_ban_ok(#[trigger] ns.deep_view()[j]),
        decreases ns@.len() - i,
    {
        let ghost pre_s = series.deep_view();
        let ghost pre_o = open.deep_view();
        let n = &ns[i];
        match &n.bankaraMatchSettings {
            Some(p) => {
                if p.first.vsRule.name.as_str().is_empty() || p.second.vsRule.name.as_str().is_empty() {
                    proof {
                        assert(!spec_ban_ok(ns.deep_view()[i as int]));
                    }
                    return Err(CoreError::StructuralFailure);
                }
                let ev_s = build_vs_event(n.startTime, n.endTime, &p.first.vsStages, &p.first.vsRule);
                series.push(ev_s);
                let ev_o = build_vs_event(n.startTime, n.endTime, &p.second.vsStages, &p.second.vsRule);
                open.push(ev_o);
            },
            None => {},
        }
        proof {
            let vs = ns.deep_view();
            let x = vs[i as int];
            assert(vs.take(i + 1) =~= vs.take(i as int).push(x));
            lemma_filter_push(vs.take(i as int), x, |n: bankaraScheduleV| spec_ban_included(n));
            if spec_ban_included(x) {
                assert(series.deep_view() =~= pre_s.push(spec_ban_event(x, true)));
                assert(open.deep_view() =~= pre_o.push(spec_ban_event(x, false)));
            }
            assert(series.deep_view() =~= spec_ban_events(vs.take(i + 1), true));
            assert(open.deep_view() =~= spec_ban_events(vs.take(i + 1), false));
        }
        i = i + 1;
    }
    proof {
        assert(ns.deep_view().take(ns@.len() as int) =~= ns.deep_view());
    }
    Ok((series, open))
}

fn build_x(ns: &Vec<xSchedule>) -> (r: Result<Vec<EventRecord>, CoreError>)
    ensures
        (r matches Ok(v) ==> v.deep_view() == spec_x_events(ns.deep_view())),
        r is Ok <==> (forall|i: int|
            0 <= i < ns.deep_view().len() ==> spec_x_ok(#[trigger] ns.deep_view()[i])),
        (r matches Err(e) ==> e == CoreError::StructuralFailure),
{
    let mut out: Vec<EventRecord> = Vec::new();
    let mut i: usize = 0;
    proof {
        assert(ns.deep_view().take(0) =~= Seq::<xScheduleV>::empty());
        assert(out.deep_view() =~= spec_x_events(ns.deep_view().take(0)));
    }
    while i < ns.len()
        invariant
            i <= ns@.len(),
            ns.deep_view().len() == ns@.len(),
            out.deep_view() == spec_x_events(ns.deep_view().take(i as int)),
            forall|j: int| 0 <= j < i ==> spec_x_ok(#[trigger] ns.deep_view()[j]),
        decreases ns@.len() - i,
    {
        let ghost pre = out.deep_view();
        let n = &ns[i];
        match &n.xMatchSetting {
            Some(setting) => {
                if setting.vsRule.name.as_str().is_empty() {
                    proof {
                        assert(!spec_x_ok(ns.deep_view()[i as int]));
                    }
                    return Err(CoreError::StructuralFailure);
                }
                let ev = build_vs_event(n.startTime, n.endTime, &setting.vsStages, &setting.vsRule);
                out.push(ev);
            },
            None => {},
        }
        proof {
            let vs = ns.deep_view();
            let x = vs[i as int];
            assert(vs.take(i + 1) =~= vs.take(i as int).push(x));
            lemma_filter_push(vs.take(i as int), x, |n: xScheduleV| spec_x_included(n));
            if spec_x_included(x) {
                assert(out.deep_view() =~= pre.push(spec_x_event(x)));
            }
            assert(out.deep_view() =~= spec_x_events(vs.take(i + 1)));
        }
        i = i + 1;
    }
    proof {
        assert(ns.deep_view().take(ns@.len() as int) =~= ns.deep_view());
    }
    Ok(out)
}

fn build_fest(ns: &Vec<festSchedule>) -> (r: Result<(Vec<EventRecord>, Vec<EventRecord>), CoreError>)
    ensures
        (r matches Ok(v) ==> v.0.deep_view() == spec_fest_events(ns.deep_view(), false)
            && v.1.deep_view() == spec_fest_events(ns.deep_view(), true)),
        r is Ok <==> (forall|i: int|
            0 <= i < ns.deep_view().len() ==> spec_fest_ok(#[trigger] ns.deep_view()[i])),
        (r matches Err(e) ==> e == CoreError::StructuralFailure),
{
    let mut open: Vec<EventRecord> = Vec::new();
    let mut pro: Vec<EventRecord> = Vec::new();
    let mut i: usize = 0;
    proof {
        assert(ns.deep_view().take(0) =~= Seq::<festScheduleV>::empty());
        assert(open.deep_view() =~= spec_fest_events(ns.deep_view().take(0), false));
        assert(pro.deep_view() =~= spec_fest_events(ns.deep_view().take(0), true));
    }
    while i < ns.len()
        invariant
            i <= ns@.len(),
            ns.deep_view().len() == ns@.len(),
            open.deep_view() == spec_fest_events(ns.deep_view().take(i as int), false),
            pro.deep_view() == spec_fest_events(ns.deep_view().take(i as int), true),
            forall|j: int| 0 <= j < i ==> spec_fest_ok(#[trigger] ns.deep_view()[j]),
        decreases ns@.len() - i,
    {
        let ghost pre_o = open.deep_view();
        let ghost pre_p = pro.deep_view();
        let n = &ns[i];
        match &n.festMatchSettings {
            Some(p) => {
                if p.first.vsRule.name.as_str().is_empty() || p.second.vsRule.name.as_str().is_empty() {
                    proof {
                        assert(!spec_fest_ok(ns.deep_view()[i as int]));
                    }
                    return Err(CoreError::StructuralFailure);
                }
                let ev_o = build_vs_event(n.startTime, n.endTime, &p.second.vsStages, &p.second.vsRule);
                open.push(ev_o);
                let ev_p = build_vs_event(n.startTime, n.endTime, &p.first.vsStages, &p.first.vsRule);
                pro.push(ev_p);
            },
            None => {},
        }
        proof {
            let vs = ns.deep_view();
            let x = vs[i as int];
            assert(vs.take(i + 1) =~= vs.take(i as int).push(x));
            lemma_filter_push(vs.take(i as int), x, |n: festScheduleV| spec_fest_included(n));
            if spec_fest_included(x) {
                assert(open.deep_view() =~= pre_o.push(spec_fest_event(x, false)));
                assert(pro.deep_view() =~= pre_p.push(spec_fest_event(x, true)));
            }
            assert(open.deep_view() =~= spec_fest_events(vs.take(i + 1), false));
            assert(pro.deep_view() =~= spec_fest_events(vs.take(i + 1), true));
        }
        i = i + 1;
    }
    proof {
        assert(ns.deep_view().take(ns@.len() as int) =~= ns.deep_view());
    }
    Ok((open, pro))
}

fn build_challenge(ns: &Vec<eventSchedule>) -> (r: Result<Vec<EventRecord>, CoreError>)
    ensures
        (r matches Ok(v) ==> v.deep_view() == spec_chal_events(ns.deep_view())),
        r is Ok <==> (forall|i: int|
            0 <= i < ns.deep_view().len() ==> spec_chal_ok(#[trigger] ns.deep_view()[i])),
        (r matches Err(e) ==> e == CoreError::StructuralFailure),
{
    let mut out: Vec<EventRecord> = Vec::new();
    let mut i: usize = 0;
    proof {
        assert(ns.deep_view().take(0) =~= Seq::<eventScheduleV>::empty());
        assert(out.deep_view() =~= spec_chal_events(ns.deep_view().take(0)));
    }
    while i < ns.len()
        invariant
            i <= ns@.len(),
            ns.deep_view().len() == ns@.len(),
            out.deep_view() == spec_chal_events(ns.deep_view().take(i as int)),
            forall|j: int| 0 <= j < i ==> spec_chal_ok(#[trigger] ns.deep_view()[j]),
        decreases ns@.len() - i,
    {
        let ghost pre = out.deep_view();
        let n = &ns[i];
        match &n.leagueMatchSetting.vsRule {
            Some(rule) => {
                if rule.name.as_str().is_empty() {
                    proof {
                        assert(!spec_chal_ok(ns.deep_view()[i as int]));
                    }
                    return Err(CoreError::StructuralFailure);
                }
                let mut windows: Vec<TimeRange> = Vec::new();
                let mut j: usize = 0;
                proof {
                    assert(windows.deep_view() =~= n.timePeriods.deep_view().take(0).map_values(
                        |p: timePeriodV| TimeRange { start: p.startTime, end: p.endTime },
                    ));
                }
                while j < n.timePeriods.len()
                    invariant
                        j <= n.timePeriods@.len(),
                        n.timePeriods.deep_view().len() == n.timePeriods@.len(),
                        windows.deep_view() == n.timePeriods.deep_view().take(j as int).map_values(
                            |p: timePeriodV| TimeRange { start: p.startTime, end: p.endTime },
                        ),
                    decreases n.timePeriods@.len() - j,
                {
                    let ghost wpre = windows.deep_view();
                    let p = &n.timePeriods[j];
                    windows.push(TimeRange { start: p.startTime, end: p.endTime });
                    proof {
                        let ps = n.timePeriods.deep_view();
                        assert(ps.take(j + 1) =~= ps.take(j as int).push(ps[j as int]));
                        assert(windows.deep_view() =~= wpre.push(
                            TimeRange { start: p.startTime, end: p.endTime },
                        ));
                        assert(windows.deep_view() =~= ps.take(j + 1).map_values(
                            |p: timePeriodV| TimeRange { start: p.startTime, end: p.endTime },
                        ));
                    }
                    j = j + 1;
                }
                proof {
                    assert(n.timePeriods.deep_view().take(n.timePeriods@.len() as int)
                        =~= n.timePeriods.deep_view());
                }
                let ev = EventRecord::Chal(
                    ChalEvent {
                        run_time: windows,
                        vs_setting: VsSetting {
                            vs_rule: VsRule { name: rule.name.clone() },
                            vs_stages: pair {
                                first: build_stage(&n.leagueMatchSetting.vsStages.first),
                                second: build_stage(&n.leagueMatchSetting.vsStages.second),
                            },
                        },
                        title: n.leagueMatchSetting.leagueMatchEvent.name.clone(),
                        desc: clean_text(n.leagueMatchSetting.leagueMatchEvent.desc.as_str()),
                        details: clean_text(
                            n.leagueMatchSetting.leagueMatchEvent.regulation.as_str(),
                        ),
                    },
                );
                out.push(ev);
            },
            None => {},
        }
        proof {
            let vs = ns.deep_view();
            let x = vs[i as int];
            assert(vs.take(i + 1) =~= vs.take(i as int).push(x));
            lemma_filter_push(vs.take(i as int), x, |n: eventScheduleV| spec_chal_included(n));
            if spec_chal_included(x) {
                assert(out.deep_view() =~= pre.push(spec_chal_event(x)));
            }
            assert(out.deep_view() =~= spec_chal_events(vs.take(i + 1)));
        }
        i = i + 1;
    }
    proof {
        assert(ns.deep_view().take(ns@.len() as int) =~= ns.deep_view());
    }
    Ok(out)
}

/// Clean upstream challenge text for single-line display.
fn clean_text(s: &str) -> (r: String)
    ensures
        r@ == spec_clean_text(s@),
{
    let once = crate::text::replace_all(s, "<br />", " ");
    crate::text::replace_all(once.as_str(), "\u{30FB}", " *")
}

fn build_weapons(ws: &Vec<crate::schedule_data::weapon>) -> (r: Vec<Weapon>)
    ensures
        r.deep_view() == ws.deep_view().map_values(
            |w: crate::schedule_data::weaponV| WeaponV { name: w.name, image: ImageV { url: w.image.url } },
        ),
{
    let mut out: Vec<Weapon> = Vec::new();
    let mut i: usize = 0;
    proof {
        assert(out.deep_view() =~= ws.deep_view().take(0).map_values(
            |w: crate::schedule_data::weaponV| WeaponV { name: w.name, image: ImageV { url: w.image.url } },
        ));
    }
    while i < ws.len()
        invariant
            i <= ws@.len(),
            ws.deep_view().len() == ws@.len(),
            out.deep_view() == ws.deep_view().take(i as int).map_values(
                |w: crate::schedule_data::weaponV| WeaponV { name: w.name, image: ImageV { url: w.image.url } },
            ),
        decreases ws@.len() - i,
    {
        let ghost pre = out.deep_view();
        let w = &ws[i];
        let item = Weapon { name: w.name.clone(), image: Image { url: w.image.url.clone() } };
        out.push(item);
        proof {
            let vs = ws.deep_view();
            assert(out.deep_view() =~= pre.push(
                WeaponV { name: vs[i as int].name, image: ImageV { url: vs[i as int].image.url } },
            ));
            assert(vs.take(i + 1) =~= vs.take(i as int).push(vs[i as int]));
            assert(out.deep_view() =~= vs.take(i + 1).map_values(
                |w: crate::schedule_data::weaponV| WeaponV { name: w.name, image: ImageV { url: w.image.url } },
            ));
        }
        i = i + 1;
    }
    proof {
        assert(ws.deep_view().take(ws@.len() as int) =~= ws.deep_view());
    }
    out
}

fn build_salmon(n: &salmonRunRotation, special: bool) -> (r: EventRecord)
    ensures
        r.deep_view() == spec_salmon_event(n.deep_view(), special),
{
    EventRecord::SalmonRun(
        SalmonRunEvent {
            run_time: TimeRange { start: n.startTime, end: n.endTime },
            coop_setting: SalmonRunSetting {
                coop_stage: Stage {
                    name: n.setting.coopStage.name.clone(),
                    image: Image { url: n.setting.coopStage.image.url.clone() },
                },
                weapons: build_weapons(&n.setting.weapons),
                special,
            },
            king_guess: n.__splatoon3ink_king_salmonid_guess.clone(),
        },
    )
}

fn build_eggstra(n: &eggstraWorkRotation) -> (r: EventRecord)
    ensures
        r.deep_view() == spec_eggstra_event(n.deep_view()),
{
    EventRecord::SalmonRun(
        SalmonRunEvent {
            run_time: TimeRange { start: n.startTime, end: n.endTime },
            coop_setting: SalmonRunSetting {
                coop_stage: Stage {
                    name: n.setting.coopStage.name.clone(),
                    image: Image { url: n.setting.coopStage.image.url.clone() },
                },
                weapons: build_weapons(&n.setting.weapons),
                special: true,
            },
            king_guess: "None".to_owned(),
        },
    )
}

/// Merge the three salmon-run sub-feeds, unsorted.
fn build_coop(c: &crate::schedule_data::coopGroupingSchedule) -> (r: Vec<EventRecord>)
    ensures
        r.deep_view() == spec_coop_events(c.deep_view()),
{
    let mut out: Vec<EventRecord> = Vec::new();
    let ghost reg_part = c.deep_view().regularSchedules.nodes.map_values(
        |n: salmonRunRotationV| spec_salmon_event(n, false),
    );
    let ghost big_part = c.deep_view().bigRunSchedules.nodes.map_values(
        |n: salmonRunRotationV| spec_salmon_event(n, true),
    );
    let ghost egg_part = c.deep_view().teamContestSchedules.nodes.map_values(
        |n: eggstraWorkRotationV| spec_eggstra_event(n),
    );
    let mut i: usize = 0;
    proof {
        assert(out.deep_view() =~= reg_part.take(0));
    }
    while i < c.regularSchedules.nodes.len()
        invariant
            i <= c.regularSchedules.nodes@.len(),
            reg_part.len() == c.regularSchedules.nodes@.len(),
            out.deep_view() == reg_part.take(i as int),
        decreases c.regularSchedules.nodes@.len() - i,
    {
        let ghost pre = out.deep_view();
        let ev = build_salmon(&c.regularSchedules.nodes[i], false);
        proof {
            assert(ev.deep_view() == reg_part[i as int]);
        }
        out.push(ev);
        proof {
            assert(out.deep_view() =~= pre.push(reg_part[i as int]));
            assert(reg_part.take(i + 1) =~= reg_part.take(i as int).push(reg_part[i as int]));
            assert(out.deep_view() =~= reg_part.take(i + 1));
        }
        i = i + 1;
    }
    proof {
        assert(reg_part.take(reg_part.len() as int) =~= reg_part);
    }
    let mut i: usize = 0;
    while i < c.bigRunSchedules.nodes.len()
        invariant
            i <= c.bigRunSchedules.nodes@.len(),
            big_part.len() == c.bigRunSchedules.nodes@.len(),
            out.deep_view() == reg_part + big_part.take(i as int),
        decreases c.bigRunSchedules.nodes@.len() - i,
    {
        let ghost pre = out.deep_view();
        let ev = build_salmon(&c.bigRunSchedules.nodes[i], true);
        proof {
            assert(ev.deep_view() == big_part[i as int]);
        }
        out.push(ev);
        proof {
            assert(out.deep_view() =~= pre.push(big_part[i as int]));
            assert(big_part.take(i + 1) =~= big_part.take(i as int).push(big_part[i as int]));
            assert(out.deep_view() =~= reg_part + big_part.take(i + 1));
        }
        i = i + 1;
    }
    proof {
        assert(big_part.take(big_part.len() as int) =~= big_part);
        assert(out.deep_view() =~= (reg_part + big_part) + egg_part.take(0));
    }
    let mut i: usize = 0;
    while i < c.teamContestSchedules.nodes.len()
        invariant
            i <= c.teamContestSchedules.nodes@.len(),
            egg_part.len() == c.teamContestSchedules.nodes@.len(),
            out.deep_view() == (reg_part + big_part) + egg_part.take(i as int),
        decreases c.teamContestSchedules.nodes@.len() - i,
    {
        let ghost pre = out.deep_view();
        let ev = build_eggstra(&c.teamContestSchedules.nodes[i]);
        proof {
            assert(ev.deep_view() == egg_part[i as int]);
        }
        out.push(ev);
        proof {
            assert(out.deep_view() =~= pre.push(egg_part[i as int]));
            assert(egg_part.take(i + 1) =~= egg_part.take(i as int).push(egg_part[i as int]));
            assert(out.deep_view() =~= (reg_part + big_part) + egg_part.take(i + 1));
        }
        i = i + 1;
    }
    proof {
        assert(egg_part.take(egg_part.len() as int) =~= egg_part);
        assert(out.deep_view() =~= spec_coop_events(c.deep_view()));
    }
    out
}

/// The start time an event is ordered by.
fn event_start(e: &EventRecord) -> (r: i64)
    ensures
        r as int == spec_ev_start(e.deep_view()),
{
    match e {
        EventRecord::Vs(v) => v.run_time.start,
        EventRecord::SalmonRun(s) => s.run_time.start,
        EventRecord::Chal(c) => if c.run_time.len() > 0 {
            c.run_time[0].start
        } else {
            0
        },
    }
}

/// Selection sort by start time: the result holds the same events,
/// non-decreasing in start.
fn sort_events(events: Vec<EventRecord>) -> (r: Vec<EventRecord>)
    ensures
        r.deep_view().to_multiset() == events.deep_view().to_multiset(),
        r.deep_view().len() == events.deep_view().len(),
        spec_sorted_events(r.deep_view()),
    decreases events@.len(),
{
    broadcast use vstd::seq_lib::group_to_multiset_ensures;

    let mut rest = events;
    let mut out: Vec<EventRecord> = Vec::new();
    proof {
        assert(out.deep_view() =~= Seq::<EventRecordV>::empty());
        assert(out.deep_view().to_multiset().add(rest.deep_view().to_multiset())
            =~= rest.deep_view().to_multiset());
    }
    while rest.len() > 0
        invariant
            out.deep_view().to_multiset().add(rest.deep_view().to_multiset())
                == events.deep_view().to_multiset(),
            spec_sorted_events(out.deep_view()),
            forall|a: int, b: int|
                0 <= a < out.deep_view().len() && 0 <= b < rest.deep_view().len() ==> spec_ev_start(
                    #[trigger] out.deep_view()[a],
                ) <= spec_ev_start(#[trigger] rest.deep_view()[b]),
        decreases rest@.len(),
    {
        // find the index of the earliest remaining event
        let mut min_idx: usize = 0;
        let mut min_start: i64 = event_start(&rest[0]);
        let mut j: usize = 1;
        while j < rest.len()
            invariant
                rest@.len() > 0,
                min_idx < j <= rest@.len(),
                min_start as int == spec_ev_start(rest.deep_view()[min_idx as int]),
                forall|k: int|
                    0 <= k < j ==> min_start as int <= spec_ev_start(
                        #[trigger] rest.deep_view()[k],
                    ),
            decreases rest@.len() - j,
        {
            let s = event_start(&rest[j]);
            if s < min_start {
                min_idx = j;
                min_start = s;
            }
            j = j + 1;
        }
        let ghost rest_pre = rest.deep_view();
        let ghost out_pre = out.deep_view();
        let x = rest.remove(min_idx);
        out.push(x);
        proof {
            assert(rest.deep_view() =~= rest_pre.remove(min_idx as int));
            assert(out.deep_view() =~= out_pre.push(x.deep_view()));
            assert(x.deep_view() == rest_pre[min_idx as int]);
            assert(rest_pre.remove(min_idx as int).to_multiset() =~= rest_pre.to_multiset().remove(
                x.deep_view(),
            ));
            assert(out.deep_view().to_multiset() =~= out_pre.to_multiset().insert(x.deep_view()));
            assert(rest_pre.to_multiset().count(x.deep_view()) > 0);
            assert(out.deep_view().to_multiset().add(rest.deep_view().to_multiset())
                =~= out_pre.to_multiset().add(rest_pre.to_multiset()));
            // every remaining event starts no earlier than the chosen one
            assert forall|b: int| 0 <= b < rest.deep_view().len() implies spec_ev_start(
                x.deep_view(),
            ) <= spec_ev_start(#[trigger] rest.deep_view()[b]) by {
                if b < min_idx {
                    assert(rest.deep_view()[b] == rest_pre[b]);
                } else {
                    assert(rest.deep_view()[b] == rest_pre[b + 1]);
                }
            }
        }
    }
    proof {
        assert(rest.deep_view() =~= Seq::<EventRecordV>::empty());
        assert(out.deep_view().to_multiset().add(rest.deep_view().to_multiset())
            =~= out.deep_view().to_multiset());
        assert(out.deep_view().to_multiset().len() == out.deep_view().len());
        assert(events.deep_view().to_multiset().len() == events.deep_view().len());
    }
    out
}

// ---------------------------------------------------------------------------
// Winner selection and the festival record.
// ---------------------------------------------------------------------------

/// Pick the winning team's index from the three final results. Exactly one
/// team must claim victory: none, or more than one, is a data-integrity
/// fault that is surfaced, never silently resolved.
pub fn select_winner(
    r0: &crate::splatfest_data::result,
    r1: &crate::splatfest_data::result,
    r2: &crate::splatfest_data::result,
) -> (r: Result<usize, CoreError>)
    ensures
        ({
            let rs = trioV { first: r0.deep_view(), second: r1.deep_view(), third: r2.deep_view() };
            &&& r is Ok <==> spec_winner_count(rs) == 1
            &&& (r matches Ok(i) ==> i < 3 && spec_is_winner(rs, i as int) && (forall|j: int|
                0 <= j < 3 && j != i ==> !spec_is_winner(rs, j)))
            &&& (r matches Err(e) ==> e == CoreError::StructuralFailure)
        }),
{
    let c: u32 = (if r0.isWinner {
        1u32
    } else {
        0u32
    }) + (if r1.isWinner {
        1u32
    } else {
        0u32
    }) + (if r2.isWinner {
        1u32
    } else {
        0u32
    });
    if c != 1 {
        Err(CoreError::StructuralFailure)
    } else if r0.isWinner {
        Ok(0)
    } else if r1.isWinner {
        Ok(1)
    } else {
        Ok(2)
    }
}

fn build_fest_team(t: &crate::splatfest_data::team) -> (r: SplatfestTeam)
    ensures
        r.deep_view() == spec_fest_team(t.deep_view()),
{
    SplatfestTeam {
        name: t.teamName.clone(),
        color: Color {
            r: t.color.r as i64,
            g: t.color.g as i64,
            b: t.color.b as i64,
            a: t.color.a as i64,
        },
        image: Image { url: t.image.url.clone() },
    }
}

fn build_team_result(r: &crate::splatfest_data::result) -> (t: SplatfestTeamResult)
    ensures
        t == spec_team_result(r.deep_view()),
{
    SplatfestTeamResult {
        sneak_peak: Ratio { is_leading: r.isHoragaiRatioTop, basis_points: r.horagaiRatio },
        votes: Ratio { is_leading: r.isVoteRatioTop, basis_points: r.voteRatio },
        open: Ratio {
            is_leading: r.isRegularContributionRatioTop,
            basis_points: r.regularContributionRatio,
        },
        pro: Ratio {
            is_leading: r.isChallengeContributionRatioTop,
            basis_points: r.challengeContributionRatio,
        },
        tricolor: Ratio {
            is_leading: match r.isTricolorContributionRatioTop {
                Some(b) => b,
                None => false,
            },
            basis_points: match r.tricolorContributionRatio {
                Some(x) => x,
                None => 0,
            },
        },
    }
}

/// The splatfest state before results arrive: active once the concurrent
/// "current fest" detail record is available, otherwise missing-tricolor.
fn build_fallback_state(sd: &crate::schedule_data::data) -> (r: SplatfestState)
    ensures
        ({
            let d = sd.deep_view();
            r.deep_view() == match d.currentFest {
                Some(f) => SplatfestStateV::Active(
                    f.midtermTime,
                    StageV {
                        name: f.tricolorStage.name,
                        image: ImageV { url: f.tricolorStage.image.url },
                    },
                ),
                None => SplatfestStateV::MissingTricolor,
            }
        }),
{
    match &sd.currentFest {
        Some(f) => SplatfestState::Active(
            f.midtermTime,
            Stage {
                name: f.tricolorStage.name.clone(),
                image: Image { url: f.tricolorStage.image.url.clone() },
            },
        ),
        None => SplatfestState::MissingTricolor,
    }
}

/// Map the festival feed into a splatfest record, if one is current enough
/// to show: absent or day-old records map to `None`; a full result set with
/// no single winner aborts the build.
pub fn build_splatfest(
    sd: &crate::schedule_data::data,
    fd: &SplatfestData,
    now: i64,
) -> (r: Result<Option<Splatfest>, CoreError>)
    ensures
        r is Ok <==> spec_winner_ok(fd.deep_view(), now),
        (r matches Ok(v) ==> v.deep_view() == spec_splatfest(sd.deep_view(), fd.deep_view(), now)),
        (r matches Err(e) ==> e == CoreError::StructuralFailure),
{
    if fd.US.data.festRecords.nodes.len() == 0 {
        return Ok(None);
    }
    let s = &fd.US.data.festRecords.nodes[0];
    if !((now as i128) < (s.endTime as i128) + 86400) {
        return Ok(None);
    }
    let teams = trio {
        first: build_fest_team(&s.teams.first),
        second: build_fest_team(&s.teams.second),
        third: build_fest_team(&s.teams.third),
    };
    let state: SplatfestState = match (&s.teams.first.result, &s.teams.second.result, &s.teams.third.result) {
        (Some(r0), Some(r1), Some(r2)) => {
            let widx = match select_winner(r0, r1, r2) {
                Ok(i) => i,
                Err(e) => {
                    return Err(e);
                },
            };
            let winner = if widx == 2 {
                build_fest_team(&s.teams.third)
            } else if widx == 1 {
                build_fest_team(&s.teams.second)
            } else {
                build_fest_team(&s.teams.first)
            };
            SplatfestState::Finished(
                SplatfestResults {
                    winner,
                    team_results: trio {
                        first: build_team_result(r0),
                        second: build_team_result(r1),
                        third: build_team_result(r2),
                    },
                },
            )
        },
        _ => build_fallback_state(sd),
    };
    Ok(
        Some(
            Splatfest {
                run_time: TimeRange { start: s.startTime, end: s.endTime },
                title: s.title.clone(),
                teams,
                state,
            },
        ),
    )
}

// ---------------------------------------------------------------------------
// Group assembly and the navigation cycle.
// ---------------------------------------------------------------------------

/// Wire the groups into one circular sequence: each group names its
/// precedence neighbors, wrapping from last to first.
fn link_cycle(groups: Vec<Schedule>) -> (r: Vec<Schedule>)
    ensures
        r@.len() == groups@.len(),
        forall|i: int|
            0 <= i < groups@.len() ==> {
                let n = groups@.len() as int;
                &&& (#[trigger] r@[i]).title == groups@[i].title
                &&& r@[i].id == groups@[i].id
                &&& r@[i].events == groups@[i].events
                &&& r@[i].prev_sche == groups@[if i == 0 {
                    n - 1
                } else {
                    i - 1
                }].id
                &&& r@[i].next_sche == groups@[if i == n - 1 {
                    0int
                } else {
                    i + 1
                }].id
            },
{
    let n = groups.len();
    if n == 0 {
        return groups;
    }
    let mut ids: Vec<String> = Vec::new();
    let mut j: usize = 0;
    while j < n
        invariant
            j <= n,
            n == groups@.len(),
            ids@.len() == j,
            forall|k: int| 0 <= k < j ==> (#[trigger] ids@[k]) == groups@[k].id,
        decreases n - j,
    {
        ids.push(groups[j].id.clone());
        j = j + 1;
    }
    let mut rest = groups;
    let mut out: Vec<Schedule> = Vec::new();
    let mut i: usize = 0;
    let ghost orig = rest@;
    while i < n
        invariant
            i <= n,
            n == orig.len(),
            ids@.len() == n,
            forall|k: int| 0 <= k < n ==> (#[trigger] ids@[k]) == orig[k].id,
            rest@ =~= orig.skip(i as int),
            out@.len() == i,
            forall|k: int|
                0 <= k < i ==> {
                    &&& (#[trigger] out@[k]).title == orig[k].title
                    &&& out@[k].id == orig[k].id
                    &&& out@[k].events == orig[k].events
                    &&& out@[k].prev_sche == orig[if k == 0 {
                        n - 1
                    } else {
                        k - 1
                    }].id
                    &&& out@[k].next_sche == orig[if k == n - 1 {
                        0int
                    } else {
                        k + 1
                    }].id
                },
        decreases n - i,
    {
        let g = rest.remove(0);
        proof {
            assert(g == orig[i as int]);
            assert(rest@ =~= orig.skip(i + 1));
        }
        let pid = if i == 0 {
            ids[n - 1].clone()
        } else {
            ids[i - 1].clone()
        };
        let nid = if i == n - 1 {
            ids[0].clone()
        } else {
            ids[i + 1].clone()
        };
        out.push(Schedule { prev_sche: pid, next_sche: nid, ..g });
        i = i + 1;
    }
    out
}

/// Build the full structure from an accepted snapshot and the festival
/// feed: each category's surviving events become one group, empty groups
/// are dropped, the survivors are wired into one navigation cycle, and the
/// splatfest record is mapped with loud winner determination. Any missing
/// required field on an included record aborts the whole build: no partial
/// structure is ever produced.
#[verifier::rlimit(100)]
#[verifier::spinoff_prover]
fn assemble_groups(
    Ghost(d): Ghost<dataV>,
    reg: Vec<EventRecord>,
    ban_series: Vec<EventRecord>,
    ban_open: Vec<EventRecord>,
    xs: Vec<EventRecord>,
    sf_open: Vec<EventRecord>,
    sf_pro: Vec<EventRecord>,
    chal: Vec<EventRecord>,
    coop: Vec<EventRecord>,
) -> (r: Vec<Schedule>)
    requires
        reg.deep_view() == spec_cat_events(d, Category::Regular),
        ban_series.deep_view() == spec_cat_events(d, Category::BankaraSeries),
        ban_open.deep_view() == spec_cat_events(d, Category::BankaraOpen),
        xs.deep_view() == spec_cat_events(d, Category::XMatch),
        sf_open.deep_view() == spec_cat_events(d, Category::SplatfestOpen),
        sf_pro.deep_view() == spec_cat_events(d, Category::SplatfestPro),
        chal.deep_view() == spec_cat_events(d, Category::Challenge),
        coop.deep_view().to_multiset() == spec_cat_events(d, Category::Coop).to_multiset(),
        coop.deep_view().len() == spec_cat_events(d, Category::Coop).len(),
        spec_sorted_events(coop.deep_view()),
    ensures
        spec_groups_for(r.deep_view(), d, spec_active_cats(d)),
{
    let mut groups: Vec<Schedule> = Vec::new();
    let ghost cats0 = Seq::<Category>::empty();
    proof {
        assert(spec_groups_for(groups.deep_view(), d, cats0));
    }
    let ghost cats1 = cats0 + spec_cat_opt(d, Category::Regular);
    if reg.len() > 0 {
        groups.push(push_group("Regular", "RegSche", reg));
    }
    proof {
        lemma_stage(groups.deep_view(), d, cats0, cats1, Category::Regular);
    }
    let ghost cats2 = cats1 + spec_cat_opt(d, Category::BankaraSeries);
    if ban_series.len() > 0 {
        groups.push(push_group("Series", "BanSeriesSche", ban_series));
    }
    proof {
        lemma_stage(groups.deep_view(), d, cats1, cats2, Category::BankaraSeries);
    }
    let ghost cats3 = cats2 + spec_cat_opt(d, Category::BankaraOpen);
    if ban_open.len() > 0 {
        groups.push(push_group("Open", "BanOpenSche", ban_open));
    }
    proof {
        lemma_stage(groups.deep_view(), d, cats2, cats3, Category::BankaraOpen);
    }
    let ghost cats4 = cats3 + spec_cat_opt(d, Category::XMatch);
    if xs.len() > 0 {
        groups.push(push_group("X Battles", "xSche", xs));
    }
    proof {
        lemma_stage(groups.deep_view(), d, cats3, cats4, Category::XMatch);
    }
    let ghost cats5 = cats4 + spec_cat_opt(d, Category::SplatfestOpen);
    if sf_open.len() > 0 {
        groups.push(push_group("Open", "SfOpenSche", sf_open));
    }
    proof {
        lemma_stage(groups.deep_view(), d, cats4, cats5, Category::SplatfestOpen);
    }
    let ghost cats6 = cats5 + spec_cat_opt(d, Category::SplatfestPro);
    if sf_pro.len() > 0 {
        groups.push(push_group("Pro", "SfProSche", sf_pro));
    }
    proof {
        lemma_stage(groups.deep_view(), d, cats5, cats6, Category::SplatfestPro);
    }
    let ghost cats7 = cats6 + spec_cat_opt(d, Category::Challenge);
    if chal.len() > 0 {
        groups.push(push_group("Challenge", "ChalSche", chal));
    }
    proof {
        lemma_stage(groups.deep_view(), d, cats6, cats7, Category::Challenge);
    }
    let ghost cats8 = cats7 + spec_cat_opt(d, Category::Coop);
    if coop.len() > 0 {
        groups.push(push_group("Salmon Run", "CoopSche", coop));
    }
    proof {
        lemma_stage(groups.deep_view(), d, cats7, cats8, Category::Coop);
        assert(cats8 =~= spec_active_cats(d));
    }
    proof {
        assert(spec_groups_for(groups.deep_view(), d, spec_active_cats(d)));
    }
    groups
}

#[verifier::spinoff_prover]
pub fn generate(
    schedule_data: &RotationData,
    splatfest_data: &SplatfestData,
    now: i64,
) -> (r: Result<RmStructure, CoreError>)
    ensures
        ({
            let d = schedule_data.deep_view().data;
            let f = splatfest_data.deep_view();
            &&& (r is Ok <==> spec_structural_ok(d) && spec_winner_ok(f, now))
            &&& (r matches Ok(st) ==> {
                &&& spec_groups_match(st.schedules.deep_view(), d)
                &&& spec_cycle_linked(st.schedules.deep_view())
                &&& st.splatfest.deep_view() == spec_splatfest(d, f, now)
            })
            &&& (r matches Err(e) ==> e == CoreError::StructuralFailure)
        }),
{
    let ghost d = schedule_data.deep_view().data;
    proof {
        assert(d.regularSchedules.nodes == schedule_data.data.regularSchedules.nodes.deep_view());
        assert(d.bankaraSchedules.nodes == schedule_data.data.bankaraSchedules.nodes.deep_view());
        assert(d.xSchedules.nodes == schedule_data.data.xSchedules.nodes.deep_view());
        assert(d.festSchedules.nodes == schedule_data.data.festSchedules.nodes.deep_view());
        assert(d.eventSchedules.nodes == schedule_data.data.eventSchedules.nodes.deep_view());
        assert(d.coopGroupingSchedule == schedule_data.data.coopGroupingSchedule.deep_view());
        assert(d == schedule_data.data.deep_view());
    }
    let reg = match build_regular(&schedule_data.data.regularSchedules.nodes) {
        Ok(v) => v,
        Err(e) => {
            return Err(e);
        },
    };
    let (ban_series, ban_open) = match build_bankara(&schedule_data.data.bankaraSchedules.nodes) {
        Ok(v) => v,
        Err(e) => {
            return Err(e);
        },
    };
    let xs = match build_x(&schedule_data.data.xSchedules.nodes) {
        Ok(v) => v,
        Err(e) => {
            return Err(e);
        },
    };
    let (sf_open, sf_pro) = match build_fest(&schedule_data.data.festSchedules.nodes) {
        Ok(v) => v,
        Err(e) => {
            return Err(e);
        },
    };
    let chal = match build_challenge(&schedule_data.data.eventSchedules.nodes) {
        Ok(v) => v,
        Err(e) => {
            return Err(e);
        },
    };
    let coop = build_coop(&schedule_data.data.coopGroupingSchedule);
    let coop = sort_events(coop);
    let splatfest = match build_splatfest(&schedule_data.data, splatfest_data, now) {
        Ok(v) => v,
        Err(e) => {
            return Err(e);
        },
    };

    let groups = assemble_groups(
        Ghost(d),
        reg,
        ban_series,
        ban_open,
        xs,
        sf_open,
        sf_pro,
        chal,
        coop,
    );
    let ghost ge = groups@;
    let ghost gv = groups.deep_view();
    let linked = link_cycle(groups);
    proof {
        let cats = spec_active_cats(d);
        assert forall|i: int|
            0 <= i < linked.deep_view().len() implies spec_group_matches(
            #[trigger] linked.deep_view()[i],
            d,
            cats[i],
        ) by {
            assert(linked@[i].title == ge[i].title);
            assert(linked@[i].id == ge[i].id);
            assert(linked@[i].events == ge[i].events);
            assert(linked.deep_view()[i] == linked@[i].deep_view());
            assert(gv[i] == ge[i].deep_view());
            assert(spec_group_matches(gv[i], d, cats[i]));
        }
        assert(spec_groups_match(linked.deep_view(), d));
    }
    Ok(RmStructure { schedules: linked, splatfest })
}

/// Make one group; its neighbor links are wired afterwards.
fn push_group(title: &str, id: &str, events: Vec<EventRecord>) -> (g: Schedule)
    ensures
        g.deep_view() == (ScheduleV {
            title: title@,
            id: id@,
            prev_sche: Seq::<char>::empty(),
            next_sche: Seq::<char>::empty(),
            events: events.deep_view(),
        }),
{
    let g = Schedule {
        title: title.to_owned(),
        id: id.to_owned(),
        prev_sche: String::new(),
        next_sche: String::new(),
        events,
    };
    proof {
        assert(g.deep_view() == (ScheduleV {
            title: title@,
            id: id@,
            prev_sche: Seq::<char>::empty(),
            next_sche: Seq::<char>::empty(),
            events: g.events.deep_view(),
        }));
    }
    g
}

/// Groups built so far match a category prefix, field for field.
pub open spec fn spec_groups_for(gs: Seq<ScheduleV>, d: dataV, cats: Seq<Category>) -> bool {
    &&& gs.len() == cats.len()
    &&& forall|i: int| 0 <= i < gs.len() ==> spec_group_matches(#[trigger] gs[i], d, cats[i])
}

/// One assembly stage preserves `spec_groups_for`: callers establish that
/// either the category's group was pushed (nonempty events, matching) or
/// nothing was (empty events).
proof fn lemma_stage(
    gs: Seq<ScheduleV>,
    d: dataV,
    cats_pre: Seq<Category>,
    cats_post: Seq<Category>,
    c: Category,
)
    requires
        cats_post == cats_pre + spec_cat_opt(d, c),
        if spec_cat_events(d, c).len() > 0 {
            &&& gs.len() == cats_pre.len() + 1
            &&& spec_groups_for(gs.take(gs.len() - 1), d, cats_pre)
            &&& spec_group_matches(gs[gs.len() - 1], d, c)
        } else {
            spec_groups_for(gs, d, cats_pre)
        },
    ensures
        spec_groups_for(gs, d, cats_post),
{
    if spec_cat_events(d, c).len() > 0 {
        assert(cats_post =~= cats_pre.push(c));
        assert forall|i: int| 0 <= i < gs.len() implies spec_group_matches(
            #[trigger] gs[i],
            d,
            cats_post[i],
        ) by {
            if i < gs.len() - 1 {
                assert(gs.take(gs.len() - 1)[i] == gs[i]);
                assert(spec_group_matches(gs[i], d, cats_pre[i]));
            }
        }
    } else {
        assert(cats_post =~= cats_pre);
    }
}

// ---------------------------------------------------------------------------
// The navigation cycle is a single cycle.
// ---------------------------------------------------------------------------


/// Removing one value from the middle of a concatenation.
proof fn lemma_remove_middle<A>(a: Seq<A>, x: A, b: Seq<A>)
    ensures
        (a + seq![x] + b).remove(a.len() as int) =~= a + b,
        (a + seq![x] + b)[a.len() as int] == x,
{
}

/// Emptying one category removes exactly that category's entry from the
/// active sequence and leaves every other entry in place: for two inputs
/// that agree on every other category's events, the second input's active
/// categories are the first input's with the emptied entry removed (or the
/// same sequence, if that category was already empty). Together with
/// `spec_groups_match` and `spec_cycle_linked` from `generate`'s contract,
/// the dropped group's former neighbors become adjacent and their
/// `prev_sche`/`next_sche` links name each other directly.
#[verifier::rlimit(100)]
#[verifier::spinoff_prover]
pub proof fn lemma_category_removal(d1: dataV, d2: dataV, c0: Category)
    requires
        forall|c: Category| c != c0 ==> #[trigger] spec_cat_events(d2, c) == spec_cat_events(d1, c),
        spec_cat_events(d2, c0).len() == 0,
    ensures
        spec_cat_events(d1, c0).len() > 0 ==> {
            exists|p: int|
                {
                    &&& 0 <= p < spec_active_cats(d1).len()
                    &&& spec_active_cats(d1)[p] == c0
                    &&& spec_active_cats(d2) == #[trigger] spec_active_cats(d1).remove(p)
                }
        },
        spec_cat_events(d1, c0).len() == 0 ==> spec_active_cats(d2) == spec_active_cats(d1),
{
    assert forall|c: Category| c != c0 implies #[trigger] spec_cat_opt(d2, c) == spec_cat_opt(
        d1,
        c,
    ) by {
        assert(spec_cat_events(d2, c) == spec_cat_events(d1, c));
    }
    if spec_cat_events(d1, c0).len() == 0 {
        assert(spec_cat_opt(d2, c0) =~= spec_cat_opt(d1, c0));
        assert(spec_active_cats(d2) =~= spec_active_cats(d1));
        return;
    }
    assert(spec_cat_opt(d1, c0) =~= seq![c0]);
    assert(spec_cat_opt(d2, c0) =~= Seq::<Category>::empty());
    match c0 {
        Category::Regular => {
            let a = Seq::<Category>::empty();
            let b = spec_cat_opt(d1, Category::BankaraSeries) + spec_cat_opt(d1, Category::BankaraOpen) + spec_cat_opt(d1, Category::XMatch) + spec_cat_opt(d1, Category::SplatfestOpen) + spec_cat_opt(d1, Category::SplatfestPro) + spec_cat_opt(d1, Category::Challenge) + spec_cat_opt(d1, Category::Coop);
            assert(spec_active_cats(d1) =~= a + seq![c0] + b);
            assert(spec_active_cats(d2) =~= a + b);
            lemma_remove_middle(a, c0, b);
        },
        Category::BankaraSeries => {
            let a = spec_cat_opt(d1, Category::Regular);
            let b = spec_cat_opt(d1, Category::BankaraOpen) + spec_cat_opt(d1, Category::XMatch) + spec_cat_opt(d1, Category::SplatfestOpen) + spec_cat_opt(d1, Category::SplatfestPro) + spec_cat_opt(d1, Category::Challenge) + spec_cat_opt(d1, Category::Coop);
            assert(spec_active_cats(d1) =~= a + seq![c0] + b);
            assert(spec_active_cats(d2) =~= a + b);
            lemma_remove_middle(a, c0, b);
        },
        Category::BankaraOpen => {
            let a = spec_cat_opt(d1, Category::Regular) + spec_cat_opt(d1, Category::BankaraSeries);
            let b = spec_cat_opt(d1, Category::XMatch) + spec_cat_opt(d1, Category::SplatfestOpen) + spec_cat_opt(d1, Category::SplatfestPro) + spec_cat_opt(d1, Category::Challenge) + spec_cat_opt(d1, Category::Coop);
            assert(spec_active_cats(d1) =~= a + seq![c0] + b);
            assert(spec_active_cats(d2) =~= a + b);
            lemma_remove_middle(a, c0, b);
        },
        Category::XMatch => {
            let a = spec_cat_opt(d1, Category::Regular) + spec_cat_opt(d1, Category::BankaraSeries) + spec_cat_opt(d1, Category::BankaraOpen);
            let b = spec_cat_opt(d1, Category::SplatfestOpen) + spec_cat_opt(d1, Category::SplatfestPro) + spec_cat_opt(d1, Category::Challenge) + spec_cat_opt(d1, Category::Coop);
            assert(spec_active_cats(d1) =~= a + seq![c0] + b);
            assert(spec_active_cats(d2) =~= a + b);
            lemma_remove_middle(a, c0, b);
        },
        Category::SplatfestOpen => {
            let a = spec_cat_opt(d1, Category::Regular) + spec_cat_opt(d1, Category::BankaraSeries) + spec_cat_opt(d1, Category::BankaraOpen) + spec_cat_opt(d1, Category::XMatch);
            let b = spec_cat_opt(d1, Category::SplatfestPro) + spec_cat_opt(d1, Category::Challenge) + spec_cat_opt(d1, Category::Coop);
            assert(spec_active_cats(d1) =~= a + seq![c0] + b);
            assert(spec_active_cats(d2) =~= a + b);
            lemma_remove_middle(a, c0, b);
        },
        Category::SplatfestPro => {
            let a = spec_cat_opt(d1, Category::Regular) + spec_cat_opt(d1, Category::BankaraSeries) + spec_cat_opt(d1, Category::BankaraOpen) + spec_cat_opt(d1, Category::XMatch) + spec_cat_opt(d1, Category::SplatfestOpen);
            let b = spec_cat_opt(d1, Category::Challenge) + spec_cat_opt(d1, Category::Coop);
            assert(spec_active_cats(d1) =~= a + seq![c0] + b);
            assert(spec_active_cats(d2) =~= a + b);
            lemma_remove_middle(a, c0, b);
        },
        Category::Challenge => {
            let a = spec_cat_opt(d1, Category::Regular) + spec_cat_opt(d1, Category::BankaraSeries) + spec_cat_opt(d1, Category::BankaraOpen) + spec_cat_opt(d1, Category::XMatch) + spec_cat_opt(d1, Category::SplatfestOpen) + spec_cat_opt(d1, Category::SplatfestPro);
            let b = spec_cat_opt(d1, Category::Coop);
            assert(spec_active_cats(d1) =~= a + seq![c0] + b);
            assert(spec_active_cats(d2) =~= a + b);
            lemma_remove_middle(a, c0, b);
        },
        Category::Coop => {
            let a = spec_cat_opt(d1, Category::Regular) + spec_cat_opt(d1, Category::BankaraSeries) + spec_cat_opt(d1, Category::BankaraOpen) + spec_cat_opt(d1, Category::XMatch) + spec_cat_opt(d1, Category::SplatfestOpen) + spec_cat_opt(d1, Category::SplatfestPro) + spec_cat_opt(d1, Category::Challenge);
            let b = Seq::<Category>::empty();
            assert(spec_active_cats(d1) =~= a + seq![c0] + b);
            assert(spec_active_cats(d2) =~= a + b);
            lemma_remove_middle(a, c0, b);
        },
    }
}

/// The index the `next_sche` link of group `i` points at.
pub open spec fn spec_next_idx(n: int, i: int) -> int {
    if i == n - 1 {
        0
    } else {
        i + 1
    }
}

/// The index reached from `i` after following `next_sche` `k` times.
pub open spec fn spec_follow_next(n: int, i: int, k: nat) -> int
    decreases k,
{
    if k == 0 {
        i
    } else {
        spec_next_idx(n, spec_follow_next(n, i, (k - 1) as nat))
    }
}

proof fn lemma_follow_small(n: int, i: int, k: nat)
    requires
        0 <= i < n,
        k < n,
    ensures
        spec_follow_next(n, i, k) == if i + k < n {
            i + k
        } else {
            i + k - n
        },
    decreases k,
{
    if k > 0 {
        lemma_follow_small(n, i, (k - 1) as nat);
    }
}

/// The built links form one single cycle over exactly the built groups:
/// each group's `next_sche` names its index successor's id, the successor's
/// `prev_sche` names it back, and from any group, following `next_sche`
/// fewer than `gs.len()` steps reaches every group. With `generate`'s
/// contract — the built groups are exactly the categories holding at least
/// one event — the cycle covers exactly the non-empty groups: a category
/// whose last event disappears drops out, and its neighbors link past it.
pub proof fn lemma_cycle_single(gs: Seq<ScheduleV>, i: int, j: int)
    requires
        spec_cycle_linked(gs),
        0 <= i < gs.len(),
        0 <= j < gs.len(),
    ensures
        gs[i].next_sche == gs[spec_next_idx(gs.len() as int, i)].id,
        gs[spec_next_idx(gs.len() as int, i)].prev_sche == gs[i].id,
        exists|k: nat| k < gs.len() && spec_follow_next(gs.len() as int, i, k) == j,
{
    let n = gs.len() as int;
    let k: nat = if j >= i {
        (j - i) as nat
    } else {
        (j - i + n) as nat
    };
    lemma_follow_small(n, i, k);
    assert(spec_follow_next(n, i, k) == j);
    assert(k < gs.len());
}

} // verus!
