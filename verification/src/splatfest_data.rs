//! Normalized model of the festival feed.
//!
//! Times are Unix timestamps in seconds. Colors hold their channels as 0–255
//! components (the upstream publishes normalized fractional channels; the
//! caller rounds `channel * 255` before constructing a [`Color`]). Result
//! ratios are held in basis points: the upstream fraction rounded to
//! 1/10000ths, so `3457` stands for 34.57%.
#![allow(non_snake_case)]
#![allow(non_camel_case_types)]

use vstd::prelude::*;

verus! {

use crate::schedule_data::{image, trio, Player};

#[derive(Clone, Debug, PartialEq)]
pub struct SplatfestData {
    pub US: region,
    pub EU: region,
    pub JP: region,
    pub AP: region,
}

pub struct SplatfestDataV {
    pub US: regionV,
    pub EU: regionV,
    pub JP: regionV,
    pub AP: regionV,
}

impl DeepView for SplatfestData {
    type V = SplatfestDataV;

    open spec fn deep_view(&self) -> SplatfestDataV {
        SplatfestDataV {
            US: self.US.deep_view(),
            EU: self.EU.deep_view(),
            JP: self.JP.deep_view(),
            AP: self.AP.deep_view(),
        }
    }
}

#[derive(Clone, Debug, PartialEq)]
pub struct region {
    pub data: data,
}

pub struct regionV {
    pub data: dataV,
}

impl DeepView for region {
    type V = regionV;

    open spec fn deep_view(&self) -> regionV {
        regionV { data: self.data.deep_view() }
    }
}

#[derive(Clone, Debug, PartialEq)]
pub struct data {
    pub festRecords: nodes,
    pub currentPlayer: Player,
}

pub struct dataV {
    pub festRecords: nodesV,
    pub currentPlayer: crate::schedule_data::PlayerV,
}

impl DeepView for data {
    type V = dataV;

    open spec fn deep_view(&self) -> dataV {
        dataV {
            festRecords: self.festRecords.deep_view(),
            currentPlayer: self.currentPlayer.deep_view(),
        }
    }
}

#[derive(Clone, Debug, PartialEq)]
pub struct nodes {
    pub nodes: Vec<splatfest>,
}

pub struct nodesV {
    pub nodes: Seq<splatfestV>,
}

impl DeepView for nodes {
    type V = nodesV;

    open spec fn deep_view(&self) -> nodesV {
        nodesV { nodes: self.nodes.deep_view() }
    }
}

#[derive(Clone, Debug, PartialEq)]
pub struct splatfest {
    pub __splatoon3ink_id: String,
    pub id: String,
    pub state: String,
    pub startTime: i64,
    pub endTime: i64,
    pub title: String,
    pub lang: String,
    pub image: image,
    pub playerResult: Option<()>,
    pub teams: trio<team>,
    pub myTeam: Option<()>,
    pub __typename: String,
    pub isVotable: bool,
    pub undecidedVotes: Option<Votes>,
}

pub struct splatfestV {
    pub __splatoon3ink_id: Seq<char>,
    pub id: Seq<char>,
    pub state: Seq<char>,
    pub startTime: i64,
    pub endTime: i64,
    pub title: Seq<char>,
    pub lang: Seq<char>,
    pub image: crate::schedule_data::imageV,
    pub playerResult: Option<()>,
    pub teams: crate::schedule_data::trioV<teamV>,
    pub myTeam: Option<()>,
    pub __typename: Seq<char>,
    pub isVotable: bool,
    pub undecidedVotes: Option<Votes>,
}

impl DeepView for splatfest {
    type V = splatfestV;

    open spec fn deep_view(&self) -> splatfestV {
        splatfestV {
            __splatoon3ink_id: self.__splatoon3ink_id.deep_view(),
            id: self.id.deep_view(),
            state: self.state.deep_view(),
            startTime: self.startTime,
            endTime: self.endTime,
            title: self.title.deep_view(),
            lang: self.lang.deep_view(),
            image: self.image.deep_view(),
            playerResult: self.playerResult.deep_view(),
            teams: self.teams.deep_view(),
            myTeam: self.myTeam.deep_view(),
            __typename: self.__typename.deep_view(),
            isVotable: self.isVotable,
            undecidedVotes: self.undecidedVotes.deep_view(),
        }
    }
}

#[derive(Clone, Debug, PartialEq)]
pub struct team {
    pub result: Option<result>,
    pub id: String,
    pub teamName: String,
    pub color: Color,
    pub image: image,
    pub myVoteState: Option<()>,
    pub preVotes: Option<Votes>,
    pub votes: Option<Votes>,
    pub role: Option<String>,
}

pub struct teamV {
    pub result: Option<resultV>,
    pub id: Seq<char>,
    pub teamName: Seq<char>,
    pub color: Color,
    pub image: crate::schedule_data::imageV,
    pub myVoteState: Option<()>,
    pub preVotes: Option<Votes>,
    pub votes: Option<Votes>,
    pub role: Option<Seq<char>>,
}

impl DeepView for team {
    type V = teamV;

    open spec fn deep_view(&self) -> teamV {
        teamV {
            result: self.result.deep_view(),
            id: self.id.deep_view(),
            teamName: self.teamName.deep_view(),
            color: self.color.deep_view(),
            image: self.image.deep_view(),
            myVoteState: self.myVoteState.deep_view(),
            preVotes: self.preVotes.deep_view(),
            votes: self.votes.deep_view(),
            role: self.role.deep_view(),
        }
    }
}

/// One team's final results. Each ratio is in basis points (1/10000ths).
#[derive(Clone, Debug, PartialEq)]
pub struct result {
    pub __typename: String,
    pub isWinner: bool,
    pub horagaiRatio: u32,
    pub isHoragaiRatioTop: bool,
    pub voteRatio: u32,
    pub isVoteRatioTop: bool,
    pub regularContributionRatio: u32,
    pub isRegularContributionRatioTop: bool,
    pub challengeContributionRatio: u32,
    pub isChallengeContributionRatioTop: bool,
    pub tricolorContributionRatio: Option<u32>,
    pub isTricolorContributionRatioTop: Option<bool>,
}

pub struct resultV {
    pub __typename: Seq<char>,
    pub isWinner: bool,
    pub horagaiRatio: u32,
    pub isHoragaiRatioTop: bool,
    pub voteRatio: u32,
    pub isVoteRatioTop: bool,
    pub regularContributionRatio: u32,
    pub isRegularContributionRatioTop: bool,
    pub challengeContributionRatio: u32,
    pub isChallengeContributionRatioTop: bool,
    pub tricolorContributionRatio: Option<u32>,
    pub isTricolorContributionRatioTop: Option<bool>,
}

impl DeepView for result {
    type V = resultV;

    open spec fn deep_view(&self) -> resultV {
        resultV {
            __typename: self.__typename.deep_view(),
            isWinner: self.isWinner,
            horagaiRatio: self.horagaiRatio,
            isHoragaiRatioTop: self.isHoragaiRatioTop,
            voteRatio: self.voteRatio,
            isVoteRatioTop: self.isVoteRatioTop,
            regularContributionRatio: self.regularContributionRatio,
            isRegularContributionRatioTop: self.isRegularContributionRatioTop,
            challengeContributionRatio: self.challengeContributionRatio,
            isChallengeContributionRatioTop: self.isChallengeContributionRatioTop,
            tricolorContributionRatio: self.tricolorContributionRatio,
            isTricolorContributionRatioTop: self.isTricolorContributionRatioTop,
        }
    }
}

/// An RGBA color with 0–255 channels.
#[derive(Clone, Copy, Debug, PartialEq)]
pub struct Color {
    pub a: u8,
    pub r: u8,
    pub g: u8,
    pub b: u8,
}

/// Spec-level mirror of [`Color`]; its fields are already plain values.
pub type ColorV = Color;

impl DeepView for Color {
    type V = Color;

    open spec fn deep_view(&self) -> Color {
        *self
    }
}

#[derive(Clone, Copy, Debug, PartialEq)]
pub struct Votes {
    pub totalCount: usize,
}

impl DeepView for Votes {
    type V = Votes;

    open spec fn deep_view(&self) -> Votes {
        *self
    }
}

} // verus!
