//! Normalized model of the primary schedule feed: one complete snapshot of
//! the rotation data, with times held as Unix timestamps in seconds.
//!
//! Each executable type has a spec-level mirror (`...V`) reached through
//! [`DeepView`], so that contracts — in particular the persistence codec's
//! round-trip law — can speak of snapshot values mathematically.
#![allow(non_snake_case)]
#![allow(non_camel_case_types)]

use vstd::prelude::*;
use crate::splatfest_data::{Color, ColorV};

verus! {


/// Two same-typed records published together (decoded from a two-element
/// upstream array).
#[derive(Clone, Debug, PartialEq)]
pub struct pair<T> {
    pub first: T,
    pub second: T,
}

pub struct pairV<U> {
    pub first: U,
    pub second: U,
}

impl<T: DeepView> DeepView for pair<T> {
    type V = pairV<T::V>;

    open spec fn deep_view(&self) -> pairV<T::V> {
        pairV { first: self.first.deep_view(), second: self.second.deep_view() }
    }
}

/// Three same-typed records published together.
#[derive(Clone, Debug, PartialEq)]
pub struct trio<T> {
    pub first: T,
    pub second: T,
    pub third: T,
}

pub struct trioV<U> {
    pub first: U,
    pub second: U,
    pub third: U,
}

impl<T: DeepView> DeepView for trio<T> {
    type V = trioV<T::V>;

    open spec fn deep_view(&self) -> trioV<T::V> {
        trioV {
            first: self.first.deep_view(),
            second: self.second.deep_view(),
            third: self.third.deep_view(),
        }
    }
}

#[derive(Clone, Debug, PartialEq)]
pub struct image {
    pub url: String,
}

pub struct imageV {
    pub url: Seq<char>,
}

impl DeepView for image {
    type V = imageV;

    open spec fn deep_view(&self) -> imageV {
        imageV { url: self.url.deep_view() }
    }
}

#[derive(Clone, Debug, PartialEq)]
pub struct RotationData {
    pub data: data,
}

pub struct RotationDataV {
    pub data: dataV,
}

impl DeepView for RotationData {
    type V = RotationDataV;

    open spec fn deep_view(&self) -> RotationDataV {
        RotationDataV { data: self.data.deep_view() }
    }
}

#[derive(Clone, Debug, PartialEq)]
pub struct data {
    pub regularSchedules: nodes<regularSchedule>,
    pub bankaraSchedules: nodes<bankaraSchedule>,
    pub xSchedules: nodes<xSchedule>,
    pub eventSchedules: nodes<eventSchedule>,
    pub festSchedules: nodes<festSchedule>,
    pub coopGroupingSchedule: coopGroupingSchedule,
    pub currentFest: Option<currentFest>,
    pub currentPlayer: Player,
    pub vsStages: nodes<vsStageRecon>,
}

pub struct dataV {
    pub regularSchedules: nodesV<regularScheduleV>,
    pub bankaraSchedules: nodesV<bankaraScheduleV>,
    pub xSchedules: nodesV<xScheduleV>,
    pub eventSchedules: nodesV<eventScheduleV>,
    pub festSchedules: nodesV<festScheduleV>,
    pub coopGroupingSchedule: coopGroupingScheduleV,
    pub currentFest: Option<currentFestV>,
    pub currentPlayer: PlayerV,
    pub vsStages: nodesV<vsStageReconV>,
}

impl DeepView for data {
    type V = dataV;

    open spec fn deep_view(&self) -> dataV {
        dataV {
            regularSchedules: self.regularSchedules.deep_view(),
            bankaraSchedules: self.bankaraSchedules.deep_view(),
            xSchedules: self.xSchedules.deep_view(),
            eventSchedules: self.eventSchedules.deep_view(),
            festSchedules: self.festSchedules.deep_view(),
            coopGroupingSchedule: self.coopGroupingSchedule.deep_view(),
            currentFest: self.currentFest.deep_view(),
            currentPlayer: self.currentPlayer.deep_view(),
            vsStages: self.vsStages.deep_view(),
        }
    }
}

#[derive(Clone, Debug, PartialEq)]
pub struct nodes<T> {
    pub nodes: Vec<T>,
}

pub struct nodesV<U> {
    pub nodes: Seq<U>,
}

impl<T: DeepView> DeepView for nodes<T> {
    type V = nodesV<T::V>;

    open spec fn deep_view(&self) -> nodesV<T::V> {
        nodesV { nodes: self.nodes.deep_view() }
    }
}

#[derive(Clone, Debug, PartialEq)]
pub struct regularSchedule {
    pub startTime: i64,
    pub endTime: i64,
    pub regularMatchSetting: Option<regularMatchSetting>,
    pub festMatchSetting: Option<pair<festMatchSettingsFake>>,
}

pub struct regularScheduleV {
    pub startTime: i64,
    pub endTime: i64,
    pub regularMatchSetting: Option<regularMatchSettingV>,
    pub festMatchSetting: Option<pairV<festMatchSettingsFakeV>>,
}

impl DeepView for regularSchedule {
    type V = regularScheduleV;

    open spec fn deep_view(&self) -> regularScheduleV {
        regularScheduleV {
            startTime: self.startTime,
            endTime: self.endTime,
            regularMatchSetting: self.regularMatchSetting.deep_view(),
            festMatchSetting: self.festMatchSetting.deep_view(),
        }
    }
}

#[derive(Clone, Debug, PartialEq)]
pub struct regularMatchSetting {
    pub __isVsSetting: String,
    pub __typename: String,
    pub vsStages: pair<vsStage>,
    pub vsRule: vsRule,
}

pub struct regularMatchSettingV {
    pub __isVsSetting: Seq<char>,
    pub __typename: Seq<char>,
    pub vsStages: pairV<vsStageV>,
    pub vsRule: vsRuleV,
}

impl DeepView for regularMatchSetting {
    type V = regularMatchSettingV;

    open spec fn deep_view(&self) -> regularMatchSettingV {
        regularMatchSettingV {
            __isVsSetting: self.__isVsSetting.deep_view(),
            __typename: self.__typename.deep_view(),
            vsStages: self.vsStages.deep_view(),
            vsRule: self.vsRule.deep_view(),
        }
    }
}

#[derive(Clone, Debug, PartialEq)]
pub struct vsStage {
    pub vsStageId: i64,
    pub name: String,
    pub image: image,
    pub id: String,
}

pub struct vsStageV {
    pub vsStageId: i64,
    pub name: Seq<char>,
    pub image: imageV,
    pub id: Seq<char>,
}

impl DeepView for vsStage {
    type V = vsStageV;

    open spec fn deep_view(&self) -> vsStageV {
        vsStageV {
            vsStageId: self.vsStageId,
            name: self.name.deep_view(),
            image: self.image.deep_view(),
            id: self.id.deep_view(),
        }
    }
}

#[derive(Clone, Debug, PartialEq)]
pub struct vsRule {
    pub name: String,
    pub rule: String,
    pub id: String,
}

pub struct vsRuleV {
    pub name: Seq<char>,
    pub rule: Seq<char>,
    pub id: Seq<char>,
}

impl DeepView for vsRule {
    type V = vsRuleV;

    open spec fn deep_view(&self) -> vsRuleV {
        vsRuleV {
            name: self.name.deep_view(),
            rule: self.rule.deep_view(),
            id: self.id.deep_view(),
        }
    }
}

#[derive(Clone, Debug, PartialEq)]
pub struct festMatchSettingsFake {
    pub __typename: String,
}

pub struct festMatchSettingsFakeV {
    pub __typename: Seq<char>,
}

impl DeepView for festMatchSettingsFake {
    type V = festMatchSettingsFakeV;

    open spec fn deep_view(&self) -> festMatchSettingsFakeV {
        festMatchSettingsFakeV { __typename: self.__typename.deep_view() }
    }
}

#[derive(Clone, Debug, PartialEq)]
pub struct bankaraSchedule {
    pub startTime: i64,
    pub endTime: i64,
    pub bankaraMatchSettings: Option<pair<bankaraMatchSetting>>,
    pub festMatchSetting: Option<pair<festMatchSettingsFake>>,
}

pub struct bankaraScheduleV {
    pub startTime: i64,
    pub endTime: i64,
    pub bankaraMatchSettings: Option<pairV<bankaraMatchSettingV>>,
    pub festMatchSetting: Option<pairV<festMatchSettingsFakeV>>,
}

impl DeepView for bankaraSchedule {
    type V = bankaraScheduleV;

    open spec fn deep_view(&self) -> bankaraScheduleV {
        bankaraScheduleV {
            startTime: self.startTime,
            endTime: self.endTime,
            bankaraMatchSettings: self.bankaraMatchSettings.deep_view(),
            festMatchSetting: self.festMatchSetting.deep_view(),
        }
    }
}

#[derive(Clone, Debug, PartialEq)]
pub struct bankaraMatchSetting {
    pub __isVsSetting: String,
    pub __typename: String,
    pub vsStages: pair<vsStage>,
    pub vsRule: vsRule,
    pub bankaraMode: String,
}

pub struct bankaraMatchSettingV {
    pub __isVsSetting: Seq<char>,
    pub __typename: Seq<char>,
    pub vsStages: pairV<vsStageV>,
    pub vsRule: vsRuleV,
    pub bankaraMode: Seq<char>,
}

impl DeepView for bankaraMatchSetting {
    type V = bankaraMatchSettingV;

    open spec fn deep_view(&self) -> bankaraMatchSettingV {
        bankaraMatchSettingV {
            __isVsSetting: self.__isVsSetting.deep_view(),
            __typename: self.__typename.deep_view(),
            vsStages: self.vsStages.deep_view(),
            vsRule: self.vsRule.deep_view(),
            bankaraMode: self.bankaraMode.deep_view(),
        }
    }
}

#[derive(Clone, Debug, PartialEq)]
pub struct xSchedule {
    pub startTime: i64,
    pub endTime: i64,
    pub xMatchSetting: Option<xMatchSetting>,
    pub festMatchSetting: Option<pair<festMatchSettingsFake>>,
}

pub struct xScheduleV {
    pub startTime: i64,
    pub endTime: i64,
    pub xMatchSetting: Option<xMatchSettingV>,
    pub festMatchSetting: Option<pairV<festMatchSettingsFakeV>>,
}

impl DeepView for xSchedule {
    type V = xScheduleV;

    open spec fn deep_view(&self) -> xScheduleV {
        xScheduleV {
            startTime: self.startTime,
            endTime: self.endTime,
            xMatchSetting: self.xMatchSetting.deep_view(),
            festMatchSetting: self.festMatchSetting.deep_view(),
        }
    }
}

#[derive(Clone, Debug, PartialEq)]
pub struct xMatchSetting {
    pub __isVsSetting: String,
    pub __typename: String,
    pub vsStages: pair<vsStage>,
    pub vsRule: vsRule,
}

pub struct xMatchSettingV {
    pub __isVsSetting: Seq<char>,
    pub __typename: Seq<char>,
    pub vsStages: pairV<vsStageV>,
    pub vsRule: vsRuleV,
}

impl DeepView for xMatchSetting {
    type V = xMatchSettingV;

    open spec fn deep_view(&self) -> xMatchSettingV {
        xMatchSettingV {
            __isVsSetting: self.__isVsSetting.deep_view(),
            __typename: self.__typename.deep_view(),
            vsStages: self.vsStages.deep_view(),
            vsRule: self.vsRule.deep_view(),
        }
    }
}

#[derive(Clone, Debug, PartialEq)]
pub struct eventSchedule {
    pub leagueMatchSetting: leagueMatchSetting,
    pub timePeriods: Vec<timePeriod>,
}

pub struct eventScheduleV {
    pub leagueMatchSetting: leagueMatchSettingV,
    pub timePeriods: Seq<timePeriodV>,
}

impl DeepView for eventSchedule {
    type V = eventScheduleV;

    open spec fn deep_view(&self) -> eventScheduleV {
        eventScheduleV {
            leagueMatchSetting: self.leagueMatchSetting.deep_view(),
            timePeriods: self.timePeriods.deep_view(),
        }
    }
}

#[derive(Clone, Debug, PartialEq)]
pub struct timePeriod {
    pub startTime: i64,
    pub endTime: i64,
}

pub struct timePeriodV {
    pub startTime: i64,
    pub endTime: i64,
}

impl DeepView for timePeriod {
    type V = timePeriodV;

    open spec fn deep_view(&self) -> timePeriodV {
        timePeriodV { startTime: self.startTime, endTime: self.endTime }
    }
}

#[derive(Clone, Debug, PartialEq)]
pub struct leagueMatchSetting {
    pub leagueMatchEvent: leagueMatchEvent,
    pub vsStages: pair<vsStage>,
    pub __isVsSetting: String,
    pub __typename: String,
    pub vsRule: Option<vsRule>,
}

pub struct leagueMatchSettingV {
    pub leagueMatchEvent: leagueMatchEventV,
    pub vsStages: pairV<vsStageV>,
    pub __isVsSetting: Seq<char>,
    pub __typename: Seq<char>,
    pub vsRule: Option<vsRuleV>,
}

impl DeepView for leagueMatchSetting {
    type V = leagueMatchSettingV;

    open spec fn deep_view(&self) -> leagueMatchSettingV {
        leagueMatchSettingV {
            leagueMatchEvent: self.leagueMatchEvent.deep_view(),
            vsStages: self.vsStages.deep_view(),
            __isVsSetting: self.__isVsSetting.deep_view(),
            __typename: self.__typename.deep_view(),
            vsRule: self.vsRule.deep_view(),
        }
    }
}

#[derive(Clone, Debug, PartialEq)]
pub struct leagueMatchEvent {
    pub leagueMatchEventId: String,
    pub name: String,
    pub desc: String,
    pub regulationUrl: Option<String>,
    pub regulation: String,
    pub id: String,
}

pub struct leagueMatchEventV {
    pub leagueMatchEventId: Seq<char>,
    pub name: Seq<char>,
    pub desc: Seq<char>,
    pub regulationUrl: Option<Seq<char>>,
    pub regulation: Seq<char>,
    pub id: Seq<char>,
}

impl DeepView for leagueMatchEvent {
    type V = leagueMatchEventV;

    open spec fn deep_view(&self) -> leagueMatchEventV {
        leagueMatchEventV {
            leagueMatchEventId: self.leagueMatchEventId.deep_view(),
            name: self.name.deep_view(),
            desc: self.desc.deep_view(),
            regulationUrl: self.regulationUrl.deep_view(),
            regulation: self.regulation.deep_view(),
            id: self.id.deep_view(),
        }
    }
}

#[derive(Clone, Debug, PartialEq)]
pub struct festSchedule {
    pub startTime: i64,
    pub festMatchSettings: Option<pair<festMatchSetting>>,
    pub endTime: i64,
}

pub struct festScheduleV {
    pub startTime: i64,
    pub festMatchSettings: Option<pairV<festMatchSettingV>>,
    pub endTime: i64,
}

impl DeepView for festSchedule {
    type V = festScheduleV;

    open spec fn deep_view(&self) -> festScheduleV {
        festScheduleV {
            startTime: self.startTime,
            festMatchSettings: self.festMatchSettings.deep_view(),
            endTime: self.endTime,
        }
    }
}

#[derive(Clone, Debug, PartialEq)]
pub struct festMatchSetting {
    pub __typename: String,
    pub __isVsSetting: String,
    pub vsStages: pair<vsStage>,
    pub vsRule: vsRule,
    pub festMode: String,
}

pub struct festMatchSettingV {
    pub __typename: Seq<char>,
    pub __isVsSetting: Seq<char>,
    pub vsStages: pairV<vsStageV>,
    pub vsRule: vsRuleV,
    pub festMode: Seq<char>,
}

impl DeepView for festMatchSetting {
    type V = festMatchSettingV;

    open spec fn deep_view(&self) -> festMatchSettingV {
        festMatchSettingV {
            __typename: self.__typename.deep_view(),
            __isVsSetting: self.__isVsSetting.deep_view(),
            vsStages: self.vsStages.deep_view(),
            vsRule: self.vsRule.deep_view(),
            festMode: self.festMode.deep_view(),
        }
    }
}

#[derive(Clone, Debug, PartialEq)]
pub struct coopGroupingSchedule {
    pub bannerImage: Option<image>,
    pub regularSchedules: nodes<salmonRunRotation>,
    pub bigRunSchedules: nodes<salmonRunRotation>,
    pub teamContestSchedules: nodes<eggstraWorkRotation>,
}

pub struct coopGroupingScheduleV {
    pub bannerImage: Option<imageV>,
    pub regularSchedules: nodesV<salmonRunRotationV>,
    pub bigRunSchedules: nodesV<salmonRunRotationV>,
    pub teamContestSchedules: nodesV<eggstraWorkRotationV>,
}

impl DeepView for coopGroupingSchedule {
    type V = coopGroupingScheduleV;

    open spec fn deep_view(&self) -> coopGroupingScheduleV {
        coopGroupingScheduleV {
            bannerImage: self.bannerImage.deep_view(),
            regularSchedules: self.regularSchedules.deep_view(),
            bigRunSchedules: self.bigRunSchedules.deep_view(),
            teamContestSchedules: self.teamContestSchedules.deep_view(),
        }
    }
}

#[derive(Clone, Debug, PartialEq)]
pub struct salmonRunRotation {
    pub startTime: i64,
    pub endTime: i64,
    pub setting: salmonRunSetting,
    pub __splatoon3ink_king_salmonid_guess: String,
}

pub struct salmonRunRotationV {
    pub startTime: i64,
    pub endTime: i64,
    pub setting: salmonRunSettingV,
    pub __splatoon3ink_king_salmonid_guess: Seq<char>,
}

impl DeepView for salmonRunRotation {
    type V = salmonRunRotationV;

    open spec fn deep_view(&self) -> salmonRunRotationV {
        salmonRunRotationV {
            startTime: self.startTime,
            endTime: self.endTime,
            setting: self.setting.deep_view(),
            __splatoon3ink_king_salmonid_guess: self.__splatoon3ink_king_salmonid_guess.deep_view(),
        }
    }
}

#[derive(Clone, Debug, PartialEq)]
pub struct salmonRunSetting {
    pub __typename: String,
    pub coopStage: coopStage,
    pub __isCoopSetting: String,
    pub weapons: Vec<weapon>,
}

pub struct salmonRunSettingV {
    pub __typename: Seq<char>,
    pub coopStage: coopStageV,
    pub __isCoopSetting: Seq<char>,
    pub weapons: Seq<weaponV>,
}

impl DeepView for salmonRunSetting {
    type V = salmonRunSettingV;

    open spec fn deep_view(&self) -> salmonRunSettingV {
        salmonRunSettingV {
            __typename: self.__typename.deep_view(),
            coopStage: self.coopStage.deep_view(),
            __isCoopSetting: self.__isCoopSetting.deep_view(),
            weapons: self.weapons.deep_view(),
        }
    }
}

#[derive(Clone, Debug, PartialEq)]
pub struct coopStage {
    pub name: String,
    pub thumbnailImage: image,
    pub image: image,
    pub id: String,
}

pub struct coopStageV {
    pub name: Seq<char>,
    pub thumbnailImage: imageV,
    pub image: imageV,
    pub id: Seq<char>,
}

impl DeepView for coopStage {
    type V = coopStageV;

    open spec fn deep_view(&self) -> coopStageV {
        coopStageV {
            name: self.name.deep_view(),
            thumbnailImage: self.thumbnailImage.deep_view(),
            image: self.image.deep_view(),
            id: self.id.deep_view(),
        }
    }
}

#[derive(Clone, Debug, PartialEq)]
pub struct weapon {
    pub __splatoon3ink_id: String,
    pub name: String,
    pub image: image,
}

pub struct weaponV {
    pub __splatoon3ink_id: Seq<char>,
    pub name: Seq<char>,
    pub image: imageV,
}

impl DeepView for weapon {
    type V = weaponV;

    open spec fn deep_view(&self) -> weaponV {
        weaponV {
            __splatoon3ink_id: self.__splatoon3ink_id.deep_view(),
            name: self.name.deep_view(),
            image: self.image.deep_view(),
        }
    }
}

#[derive(Clone, Debug, PartialEq)]
pub struct eggstraWorkRotation {
    pub startTime: i64,
    pub endTime: i64,
    pub setting: salmonRunSetting,
}

pub struct eggstraWorkRotationV {
    pub startTime: i64,
    pub endTime: i64,
    pub setting: salmonRunSettingV,
}

impl DeepView for eggstraWorkRotation {
    type V = eggstraWorkRotationV;

    open spec fn deep_view(&self) -> eggstraWorkRotationV {
        eggstraWorkRotationV {
            startTime: self.startTime,
            endTime: self.endTime,
            setting: self.setting.deep_view(),
        }
    }
}

#[derive(Clone, Debug, PartialEq)]
pub struct currentFest {
    pub id: String,
    pub title: String,
    pub startTime: i64,
    pub endTime: i64,
    pub midtermTime: i64,
    pub state: String,
    pub teams: trio<team>,
    pub tricolorStage: tricolorStage,
}

pub struct currentFestV {
    pub id: Seq<char>,
    pub title: Seq<char>,
    pub startTime: i64,
    pub endTime: i64,
    pub midtermTime: i64,
    pub state: Seq<char>,
    pub teams: trioV<teamV>,
    pub tricolorStage: tricolorStageV,
}

impl DeepView for currentFest {
    type V = currentFestV;

    open spec fn deep_view(&self) -> currentFestV {
        currentFestV {
            id: self.id.deep_view(),
            title: self.title.deep_view(),
            startTime: self.startTime,
            endTime: self.endTime,
            midtermTime: self.midtermTime,
            state: self.state.deep_view(),
            teams: self.teams.deep_view(),
            tricolorStage: self.tricolorStage.deep_view(),
        }
    }
}

#[derive(Clone, Debug, PartialEq)]
pub struct team {
    pub id: String,
    pub color: Color,
    pub myVoteState: Option<()>,
}

pub struct teamV {
    pub id: Seq<char>,
    pub color: ColorV,
    pub myVoteState: Option<()>,
}

impl DeepView for team {
    type V = teamV;

    open spec fn deep_view(&self) -> teamV {
        teamV {
            id: self.id.deep_view(),
            color: self.color.deep_view(),
            myVoteState: self.myVoteState.deep_view(),
        }
    }
}

#[derive(Clone, Debug, PartialEq)]
pub struct tricolorStage {
    pub name: String,
    pub image: image,
    pub id: String,
}

pub struct tricolorStageV {
    pub name: Seq<char>,
    pub image: imageV,
    pub id: Seq<char>,
}

impl DeepView for tricolorStage {
    type V = tricolorStageV;

    open spec fn deep_view(&self) -> tricolorStageV {
        tricolorStageV {
            name: self.name.deep_view(),
            image: self.image.deep_view(),
            id: self.id.deep_view(),
        }
    }
}

#[derive(Clone, Debug, PartialEq)]
pub struct Player {
    pub userIcon: image,
}

pub struct PlayerV {
    pub userIcon: imageV,
}

impl DeepView for Player {
    type V = PlayerV;

    open spec fn deep_view(&self) -> PlayerV {
        PlayerV { userIcon: self.userIcon.deep_view() }
    }
}

#[derive(Clone, Debug, PartialEq)]
pub struct vsStageRecon {
    pub vsStageId: i64,
    pub originalImage: image,
    pub name: String,
    pub stats: Option<()>,
    pub id: String,
}

pub struct vsStageReconV {
    pub vsStageId: i64,
    pub originalImage: imageV,
    pub name: Seq<char>,
    pub stats: Option<()>,
    pub id: Seq<char>,
}

impl DeepView for vsStageRecon {
    type V = vsStageReconV;

    open spec fn deep_view(&self) -> vsStageReconV {
        vsStageReconV {
            vsStageId: self.vsStageId,
            originalImage: self.originalImage.deep_view(),
            name: self.name.deep_view(),
            stats: self.stats.deep_view(),
            id: self.id.deep_view(),
        }
    }
}

/// The end time of the snapshot's first primary (regular) event, if any.
pub open spec fn spec_primary_end(s: RotationData) -> Option<i64> {
    if s.data.regularSchedules.nodes@.len() > 0 {
        Some(s.data.regularSchedules.nodes@[0].endTime)
    } else {
        None
    }
}

impl RotationData {
    /// The end time of the first chronological event in the primary group.
    pub fn primary_end(&self) -> (r: Option<i64>)
        ensures
            r == spec_primary_end(*self),
    {
        if self.data.regularSchedules.nodes.len() > 0 {
            Some(self.data.regularSchedules.nodes[0].endTime)
        } else {
            None
        }
    }
}

} // verus!
