//! The structure builder, winner selection, the navigation cycle, the
//! layout engine's stacking, and the asset resolver decisions, on concrete
//! values.

use splatink::rm_structure::{
    generate, select_winner, EventRecord, CoreError, Schedule, SplatfestState,
};
use splatink::layout::{stack_events, group_fits, structure_fits, new_timebar};
use splatink::rm_write::{ObjectType, MeterType, StringAlign, Color as RmColor};
use splatink::control::{parse_command, resolve_selection, selection_bangs, measure_type_of, Command};
use splatink::rm_write::SplatinkType;
use splatink::assets::{download_targets, needs_transfer, target_file_name};
use splatink::text::{u64_to_string, percent_text, eq_ignore_ascii_case};
use splatink::schedule_data::{
    image, nodes, pair, trio, RotationData, data, regularSchedule, regularMatchSetting, vsStage,
    vsRule, eventSchedule, timePeriod, leagueMatchSetting, leagueMatchEvent, coopGroupingSchedule,
    salmonRunRotation, salmonRunSetting, coopStage, weapon, currentFest, team, tricolorStage,
    Player, vsStageRecon, xSchedule, xMatchSetting,
};
use splatink::splatfest_data::{self, Color};

fn empty_nodes<T>() -> nodes<T> {
    nodes { nodes: Vec::new() }
}

fn stage(id: i64, name: &str) -> vsStage {
    vsStage {
        vsStageId: id,
        name: name.to_string(),
        image: image { url: format!("https://img.example/{name}.png") },
        id: format!("stage-{id}"),
    }
}

fn rule(name: &str) -> vsRule {
    vsRule { name: name.to_string(), rule: name.to_uppercase(), id: format!("rule-{name}") }
}

fn reg_node(start: i64, end: i64, with_setting: bool) -> regularSchedule {
    regularSchedule {
        startTime: start,
        endTime: end,
        regularMatchSetting: if with_setting {
            Some(regularMatchSetting {
                __isVsSetting: "VsSetting".to_string(),
                __typename: "RegularMatchSetting".to_string(),
                vsStages: pair { first: stage(1, "Scorch Gorge"), second: stage(2, "Eeltail Alley") },
                vsRule: rule("Turf War"),
            })
        } else {
            None
        },
        festMatchSetting: None,
    }
}

fn coop_node(start: i64, end: i64, stage_name: &str) -> salmonRunRotation {
    salmonRunRotation {
        startTime: start,
        endTime: end,
        setting: salmonRunSetting {
            __typename: "CoopNormalSetting".to_string(),
            coopStage: coopStage {
                name: stage_name.to_string(),
                thumbnailImage: image { url: format!("https://img.example/{stage_name}-t.png") },
                image: image { url: format!("https://img.example/{stage_name}.png") },
                id: format!("coop-{stage_name}"),
            },
            __isCoopSetting: "CoopSetting".to_string(),
            weapons: vec![
                weapon {
                    __splatoon3ink_id: "w1".to_string(),
                    name: "Splattershot".to_string(),
                    image: image { url: "https://img.example/w1.png".to_string() },
                },
                weapon {
                    __splatoon3ink_id: "w2".to_string(),
                    name: "Splat Roller".to_string(),
                    image: image { url: "https://img.example/w2.png".to_string() },
                },
            ],
        },
        __splatoon3ink_king_salmonid_guess: "Cohozuna".to_string(),
    }
}

fn base_snapshot() -> RotationData {
    RotationData {
        data: data {
            regularSchedules: nodes { nodes: vec![reg_node(0, 7200, true)] },
            bankaraSchedules: empty_nodes(),
            xSchedules: empty_nodes(),
            eventSchedules: empty_nodes(),
            festSchedules: empty_nodes(),
            coopGroupingSchedule: coopGroupingSchedule {
                bannerImage: None,
                regularSchedules: empty_nodes(),
                bigRunSchedules: empty_nodes(),
                teamContestSchedules: empty_nodes(),
            },
            currentFest: None,
            currentPlayer: Player { userIcon: image { url: "https://img.example/me.png".to_string() } },
            vsStages: empty_nodes(),
        },
    }
}

fn empty_fest() -> splatfest_data::SplatfestData {
    let region = || splatfest_data::region {
        data: splatfest_data::data {
            festRecords: splatfest_data::nodes { nodes: Vec::new() },
            currentPlayer: Player { userIcon: image { url: "https://img.example/me.png".to_string() } },
        },
    };
    splatfest_data::SplatfestData { US: region(), EU: region(), JP: region(), AP: region() }
}

fn fest_team(name: &str, winner: Option<bool>) -> splatfest_data::team {
    splatfest_data::team {
        result: winner.map(|w| splatfest_data::result {
            __typename: "FestTeamResult".to_string(),
            isWinner: w,
            horagaiRatio: 3457,
            isHoragaiRatioTop: w,
            voteRatio: 3450,
            isVoteRatioTop: false,
            regularContributionRatio: 3400,
            isRegularContributionRatioTop: false,
            challengeContributionRatio: 3405,
            isChallengeContributionRatioTop: false,
            tricolorContributionRatio: None,
            isTricolorContributionRatioTop: None,
        }),
        id: format!("team-{name}"),
        teamName: name.to_string(),
        color: Color { a: 255, r: 100, g: 150, b: 200 },
        image: image { url: format!("https://img.example/{name}.png") },
        myVoteState: None,
        preVotes: None,
        votes: None,
        role: None,
    }
}

fn fest_with_results(w0: Option<bool>, w1: Option<bool>, w2: Option<bool>) -> splatfest_data::SplatfestData {
    let mut f = empty_fest();
    f.US.data.festRecords.nodes.push(splatfest_data::splatfest {
        __splatoon3ink_id: "f1".to_string(),
        id: "fest-1".to_string(),
        state: "CLOSED".to_string(),
        startTime: 0,
        endTime: 10_000,
        title: "Cats vs Dogs vs Birds".to_string(),
        lang: "en-US".to_string(),
        image: image { url: "https://img.example/fest.png".to_string() },
        playerResult: None,
        teams: trio {
            first: fest_team("Cats", w0),
            second: fest_team("Dogs", w1),
            third: fest_team("Birds", w2),
        },
        myTeam: None,
        __typename: "Fest".to_string(),
        isVotable: false,
        undecidedVotes: None,
    });
    f
}

const NOW: i64 = 5_000;

#[test]
fn single_group_cycle_links_to_itself() {
    let st = generate(&base_snapshot(), &empty_fest(), NOW).unwrap();
    assert_eq!(st.schedules.len(), 1);
    assert_eq!(st.schedules[0].id, "RegSche");
    assert_eq!(st.schedules[0].title, "Regular");
    assert_eq!(st.schedules[0].prev_sche, "RegSche");
    assert_eq!(st.schedules[0].next_sche, "RegSche");
    assert!(st.splatfest.is_none());
}

#[test]
fn cycle_covers_exactly_nonempty_groups() {
    let mut snap = base_snapshot();
    snap.data.coopGroupingSchedule.regularSchedules.nodes.push(coop_node(100, 200, "Sockeye Station"));
    snap.data.xSchedules.nodes.push(xSchedule {
        startTime: 0,
        endTime: 7200,
        xMatchSetting: Some(xMatchSetting {
            __isVsSetting: "VsSetting".to_string(),
            __typename: "XMatchSetting".to_string(),
            vsStages: pair { first: stage(3, "Mincemeat Metalworks"), second: stage(4, "Undertow Spillway") },
            vsRule: rule("Clam Blitz"),
        }),
        festMatchSetting: None,
    });
    let st = generate(&snap, &empty_fest(), NOW).unwrap();
    let ids: Vec<&str> = st.schedules.iter().map(|g| g.id.as_str()).collect();
    assert_eq!(ids, ["RegSche", "xSche", "CoopSche"]);
    // one cycle: each next link names the following group, wrapping
    assert_eq!(st.schedules[0].next_sche, "xSche");
    assert_eq!(st.schedules[1].next_sche, "CoopSche");
    assert_eq!(st.schedules[2].next_sche, "RegSche");
    assert_eq!(st.schedules[0].prev_sche, "CoopSche");
    assert_eq!(st.schedules[1].prev_sche, "RegSche");
    assert_eq!(st.schedules[2].prev_sche, "xSche");
}

#[test]
fn emptied_category_leaves_cycle_and_relinks_neighbors() {
    let mut snap = base_snapshot();
    snap.data.coopGroupingSchedule.regularSchedules.nodes.push(coop_node(100, 200, "Sockeye Station"));
    snap.data.xSchedules.nodes.push(xSchedule {
        startTime: 0,
        endTime: 7200,
        xMatchSetting: None,  // off-rotation: no event survives filtering
        festMatchSetting: None,
    });
    let st = generate(&snap, &empty_fest(), NOW).unwrap();
    let ids: Vec<&str> = st.schedules.iter().map(|g| g.id.as_str()).collect();
    assert_eq!(ids, ["RegSche", "CoopSche"]);
    assert_eq!(st.schedules[0].next_sche, "CoopSche");
    assert_eq!(st.schedules[0].prev_sche, "CoopSche");
    assert_eq!(st.schedules[1].next_sche, "RegSche");
    assert_eq!(st.schedules[1].prev_sche, "RegSche");
}

#[test]
fn salmon_run_feeds_merge_time_sorted() {
    let mut snap = base_snapshot();
    snap.data.coopGroupingSchedule.regularSchedules.nodes.push(coop_node(500, 600, "Sockeye Station"));
    snap.data.coopGroupingSchedule.regularSchedules.nodes.push(coop_node(100, 200, "Gone Fission Hydroplant"));
    snap.data.coopGroupingSchedule.bigRunSchedules.nodes.push(coop_node(300, 400, "Wahoo World"));
    let st = generate(&snap, &empty_fest(), NOW).unwrap();
    let coop = &st.schedules[1];
    assert_eq!(coop.id, "CoopSche");
    let starts: Vec<i64> = coop.events.iter().map(|e| match e {
        EventRecord::SalmonRun(s) => s.run_time.start,
        _ => panic!("salmon group holds only salmon events"),
    }).collect();
    assert_eq!(starts, [100, 300, 500]);
    match &coop.events[1] {
        EventRecord::SalmonRun(s) => {
            assert!(s.coop_setting.special);
            assert_eq!(s.coop_setting.coop_stage.name, "Wahoo World");
        },
        _ => panic!("expected a salmon event"),
    }
}

#[test]
fn empty_rule_name_aborts_build() {
    let mut snap = base_snapshot();
    snap.data.regularSchedules.nodes[0]
        .regularMatchSetting
        .as_mut()
        .unwrap()
        .vsRule
        .name = String::new();
    assert_eq!(generate(&snap, &empty_fest(), NOW), Err(CoreError::StructuralFailure));
}

#[test]
fn challenge_text_is_cleaned() {
    let mut snap = base_snapshot();
    snap.data.eventSchedules.nodes.push(eventSchedule {
        leagueMatchSetting: leagueMatchSetting {
            leagueMatchEvent: leagueMatchEvent {
                leagueMatchEventId: "ev1".to_string(),
                name: "Sizzle Showdown".to_string(),
                desc: "Line A<br />Line B".to_string(),
                regulationUrl: None,
                regulation: "Rule 1\u{30FB}Rule 2".to_string(),
                id: "league-1".to_string(),
            },
            vsStages: pair { first: stage(7, "Museum d'Alfonsino"), second: stage(8, "Hammerhead Bridge") },
            __isVsSetting: "VsSetting".to_string(),
            __typename: "LeagueMatchSetting".to_string(),
            vsRule: Some(rule("Rainmaker")),
        },
        timePeriods: vec![timePeriod { startTime: 100, endTime: 200 }],
    });
    let st = generate(&snap, &empty_fest(), NOW).unwrap();
    let chal = st.schedules.iter().find(|g| g.id == "ChalSche").unwrap();
    match &chal.events[0] {
        EventRecord::Chal(c) => {
            assert_eq!(c.desc, "Line A Line B");
            assert_eq!(c.details, "Rule 1 *Rule 2");
            assert_eq!(c.title, "Sizzle Showdown");
            assert_eq!(c.run_time.len(), 1);
        },
        _ => panic!("expected a challenge event"),
    }
}

#[test]
fn winner_selection_exactly_one() {
    let r_win = fest_team("Cats", Some(true)).result.unwrap();
    let r_lose = fest_team("Dogs", Some(false)).result.unwrap();
    assert_eq!(select_winner(&r_win, &r_lose, &r_lose), Ok(0));
    assert_eq!(select_winner(&r_lose, &r_win, &r_lose), Ok(1));
    assert_eq!(select_winner(&r_lose, &r_lose, &r_win), Ok(2));
    assert_eq!(select_winner(&r_lose, &r_lose, &r_lose), Err(CoreError::StructuralFailure));
    assert_eq!(select_winner(&r_win, &r_win, &r_lose), Err(CoreError::StructuralFailure));
    assert_eq!(select_winner(&r_win, &r_win, &r_win), Err(CoreError::StructuralFailure));
}

#[test]
fn builder_selects_the_winning_team() {
    let st = generate(&base_snapshot(), &fest_with_results(Some(false), Some(true), Some(false)), NOW)
        .unwrap();
    let fest = st.splatfest.unwrap();
    match fest.state {
        SplatfestState::Finished(results) => {
            assert_eq!(results.winner.name, "Dogs");
            assert!(results.team_results.first.sneak_peak.basis_points == 3457);
        },
        _ => panic!("expected a finished splatfest"),
    }
}

#[test]
fn winner_tie_or_absence_aborts_build() {
    let two = fest_with_results(Some(true), Some(true), Some(false));
    assert_eq!(generate(&base_snapshot(), &two, NOW), Err(CoreError::StructuralFailure));
    let none = fest_with_results(Some(false), Some(false), Some(false));
    assert_eq!(generate(&base_snapshot(), &none, NOW), Err(CoreError::StructuralFailure));
}

#[test]
fn fest_without_results_is_missing_tricolor_or_active() {
    let pending = fest_with_results(None, None, None);
    let st = generate(&base_snapshot(), &pending, NOW).unwrap();
    match st.splatfest.unwrap().state {
        SplatfestState::MissingTricolor => {},
        _ => panic!("no current-fest record: tricolor data is missing"),
    }
}

#[test]
fn day_old_fest_is_dropped() {
    let pending = fest_with_results(None, None, None);
    // the record ends at 10_000; a day and more later it no longer shows
    let st = generate(&base_snapshot(), &pending, 10_000 + 86_400).unwrap();
    assert!(st.splatfest.is_none());
}

#[test]
fn stacking_offsets_are_monotonic() {
    let mut snap = base_snapshot();
    snap.data.regularSchedules.nodes.push(reg_node(7200, 14400, true));
    snap.data.regularSchedules.nodes.push(reg_node(14400, 21600, true));
    let st = generate(&snap, &empty_fest(), NOW).unwrap();
    let events = &st.schedules[0].events;
    assert!(group_fits(events));
    let (_objs, offsets) = stack_events(events);
    assert_eq!(offsets, vec![50, 100, 150]);
    for w in offsets.windows(2) {
        assert!(w[0] + 50 <= w[1]);
    }
}

#[test]
fn challenge_block_height_centers_windows() {
    let mut snap = base_snapshot();
    snap.data.regularSchedules.nodes.clear();
    snap.data.eventSchedules.nodes.push(eventSchedule {
        leagueMatchSetting: leagueMatchSetting {
            leagueMatchEvent: leagueMatchEvent {
                leagueMatchEventId: "ev1".to_string(),
                name: "Sizzle Showdown".to_string(),
                desc: "d".to_string(),
                regulationUrl: None,
                regulation: "r".to_string(),
                id: "league-1".to_string(),
            },
            vsStages: pair { first: stage(7, "Museum d'Alfonsino"), second: stage(8, "Hammerhead Bridge") },
            __isVsSetting: "VsSetting".to_string(),
            __typename: "LeagueMatchSetting".to_string(),
            vsRule: Some(rule("Rainmaker")),
        },
        timePeriods: (0..4).map(|k| timePeriod { startTime: k * 100, endTime: k * 100 + 50 }).collect(),
    });
    let st = generate(&snap, &empty_fest(), NOW).unwrap();
    let chal = st.schedules.iter().find(|g| g.id == "ChalSche").unwrap();
    // a second event would start at 50 + max(150, 75 + 25*4) = 50 + 175
    let mut events = chal.events.clone();
    events.push(events[0].clone());
    let (_objs, offsets) = stack_events(&events);
    assert_eq!(offsets, vec![50, 225]);
}

#[test]
fn group_render_tags_and_hides() {
    let st = generate(&base_snapshot(), &empty_fest(), NOW).unwrap();
    let g = &st.schedules[0];
    let shown = g.to_rm(true, 0);
    let hidden = g.to_rm(false, 0);
    assert_eq!(shown.len(), hidden.len());
    let mut meters = 0;
    for o in &hidden {
        if let ObjectType::Meter(_, opts) = &o.object_type {
            meters += 1;
            assert!(opts.hidden);
            assert_eq!(opts.groups.last().unwrap(), "RegSche");
            assert!(o.name.starts_with("RegSche"));
        }
    }
    assert!(meters > 0);
    for o in &shown {
        if let ObjectType::Meter(_, opts) = &o.object_type {
            assert!(!opts.hidden);
        }
    }
}

#[test]
fn finished_fest_shifts_groups_down() {
    let st = generate(&base_snapshot(), &fest_with_results(Some(true), Some(false), Some(false)), NOW)
        .unwrap();
    assert!(structure_fits(&st));
    let objs = st.to_rm("RegSche");
    // the first group meter (after the 29 splatfest objects) is the header
    // image, normally at y == 0, pushed down by the results card
    let group_obj = objs.iter().find(|o| o.name.starts_with("RegSchePrevScheImage")).unwrap();
    match &group_obj.object_type {
        ObjectType::Meter(_, opts) => assert_eq!(opts.pos.y, 400),
        _ => panic!("expected a meter"),
    }
}

#[test]
fn percent_rows_render_ratio_text() {
    let st = generate(&base_snapshot(), &fest_with_results(Some(true), Some(false), Some(false)), NOW)
        .unwrap();
    let fest = st.splatfest.unwrap();
    let results = match fest.state {
        SplatfestState::Finished(r) => r,
        _ => panic!("expected finished"),
    };
    let rows = results.team_results.first.to_rm();
    let texts: Vec<String> = rows.iter().map(|o| match &o.object_type {
        ObjectType::Meter(MeterType::String(s), _) => s.text.clone(),
        _ => panic!("expected string meters"),
    }).collect();
    assert_eq!(texts, ["34.57%", "34.5%", "34%", "34.05%", "0%"]);
    // the leading row is highlighted
    match &rows[0].object_type {
        ObjectType::Meter(MeterType::String(s), _) => {
            assert_eq!(s.font_color, Some(RmColor { r: 150, g: 150, b: 50, a: 255 }));
        },
        _ => unreachable!(),
    }
}

#[test]
fn timebar_has_four_objects() {
    let objs = new_timebar(0, 100);
    assert_eq!(objs.len(), 4);
    assert!(objs[0].name.starts_with("TimeBarMeasure"));
    match &objs[1].object_type {
        ObjectType::Meter(MeterType::Bar(_), opts) => {
            assert_eq!(opts.measure_name.as_deref(), Some("TimeBarMeasure"));
        },
        _ => panic!("expected the bar meter"),
    }
    match &objs[2].object_type {
        ObjectType::Meter(MeterType::String(s), _) => {
            assert_eq!(s.string_align, Some(StringAlign::CenterCenter));
        },
        _ => panic!("expected the start label"),
    }
}

#[test]
fn commands_are_case_insensitive() {
    let words = |s: &str| s.split_whitespace().map(str::to_string).collect::<Vec<_>>();
    assert_eq!(parse_command(&words("RefreshFile")), Command::RefreshFile);
    assert_eq!(parse_command(&words("REPULLDATA")), Command::RepullData);
    assert_eq!(parse_command(&words("redrawsche xSche")), Command::RedrawSche("xSche".to_string()));
    assert_eq!(parse_command(&words("redrawsche")), Command::Unknown);
    assert_eq!(parse_command(&words("somethingelse now")), Command::Unknown);
    assert_eq!(parse_command(&Vec::new()), Command::Unknown);
}

#[test]
fn selection_falls_back_to_first_active_group() {
    let st = generate(&base_snapshot(), &empty_fest(), NOW).unwrap();
    assert_eq!(resolve_selection(&st.schedules, "RegSche"), "RegSche");
    assert_eq!(resolve_selection(&st.schedules, "BanOpenSche"), "RegSche");
    let none: Vec<Schedule> = Vec::new();
    assert_eq!(resolve_selection(&none, "RegSche"), "nonewhat");
}

#[test]
fn selection_change_bangs() {
    let a = "RegSche".to_string();
    let b = "xSche".to_string();
    assert_eq!(selection_bangs(&a, &a), None);
    let (hide_bang, show_bang) = selection_bangs(&a, &b).unwrap();
    assert_eq!(hide_bang, "!HideMeterGroup RegSche");
    assert_eq!(show_bang, "!ShowMeterGroup xSche");
}

#[test]
fn measure_type_selection() {
    let t = measure_type_of(&"TimeBar".to_string(), &"RegSche".to_string(), 1, 2);
    assert!(matches!(t, SplatinkType::TimeBar(_)));
    let c = measure_type_of(&"Core".to_string(), &"xSche".to_string(), 0, 0);
    match c {
        SplatinkType::Core(s) => assert_eq!(s, "xSche"),
        _ => panic!("expected the core measure"),
    }
}

#[test]
fn download_targets_and_dedup() {
    let mut snap = base_snapshot();
    snap.data.coopGroupingSchedule.regularSchedules.nodes.push(coop_node(100, 200, "Sockeye Station"));
    let st = generate(&snap, &empty_fest(), NOW).unwrap();
    let targets = download_targets(&st);
    // two stages from the regular event, one coop stage plus two weapons
    assert_eq!(targets.len(), 5);
    assert_eq!(targets[0].name, "Scorch Gorge");
    assert_eq!(targets[0].subdir, "Stages");
    assert_eq!(targets[3].name, "Splattershot");
    assert_eq!(targets[3].subdir, "Weapons");

    let file = target_file_name(&targets[0].name);
    assert_eq!(file, "Scorch Gorge.png");
    let listing = vec!["Scorch Gorge.png".to_string(), "other.png".to_string()];
    assert!(!needs_transfer(&listing, &file));
    assert!(needs_transfer(&listing, &"Eeltail Alley.png".to_string()));
}

#[test]
fn decimal_and_percent_text() {
    assert_eq!(u64_to_string(0), "0");
    assert_eq!(u64_to_string(10), "10");
    assert_eq!(u64_to_string(987654), "987654");
    assert_eq!(percent_text(0), "0%");
    assert_eq!(percent_text(9), "0.09%");
    assert_eq!(percent_text(10000), "100%");
    assert_eq!(percent_text(5), "0.05%");
    assert_eq!(percent_text(50), "0.5%");
}

#[test]
fn ascii_case_folding() {
    assert!(eq_ignore_ascii_case("RefreshFile", "refreshfile"));
    assert!(!eq_ignore_ascii_case("refresh", "refreshfile"));
    assert!(!eq_ignore_ascii_case("caf\u{e9}", "cafe"));
}

#[test]
fn group_header_and_event_names_compose() {
    let st = generate(&base_snapshot(), &empty_fest(), NOW).unwrap();
    let g = &st.schedules[0];
    let objs = g.to_rm(true, 150);
    assert_eq!(objs[0].name, "RegSchePrevScheImage");
    match &objs[0].object_type {
        ObjectType::Meter(MeterType::Image(img), o) => {
            assert_eq!(img.image_name, "#@#Schedule Types/RegSche.png");
            assert_eq!((o.pos.x, o.pos.y), (0, 150));
            assert_eq!(
                o.left_click_action[0],
                "!CommandMeasure SplatinkCore \"redrawsche RegSche\""
            );
        },
        _ => panic!("expected the previous-category image"),
    }
    assert_eq!(objs[1].name, "RegSchePrevScheArrow");
    assert_eq!(objs[3].name, "RegScheCurrScheTitle");
    match &objs[3].object_type {
        ObjectType::Meter(MeterType::String(s), _) => assert_eq!(s.text, "Regular"),
        _ => panic!("expected the title text"),
    }
    // the first event's objects carry the group id and the event index,
    // and its time bar sits right under the 50-tall header, plus the shift
    assert_eq!(objs[6].name, "RegSche0TimeBarMeasure");
    assert_eq!(objs[7].name, "RegSche0TimeBar");
    match &objs[7].object_type {
        ObjectType::Meter(MeterType::Bar(_), o) => {
            assert_eq!(o.pos.y, 150 + 50);
            assert_eq!(o.measure_name.as_deref(), Some("RegSche0TimeBarMeasure"));
        },
        _ => panic!("expected the event's time bar"),
    }
}

#[test]
fn finished_fest_card_content() {
    let st = generate(&base_snapshot(), &fest_with_results(Some(true), Some(false), Some(false)), NOW)
        .unwrap();
    let card = st.splatfest.unwrap().to_rm();
    assert_eq!(card.len(), 29);
    assert_eq!(card[0].name, "SplatfestTitle");
    match &card[0].object_type {
        ObjectType::Meter(MeterType::String(s), _) => assert_eq!(s.text, "Cats vs Dogs vs Birds"),
        _ => panic!("expected the title text"),
    }
    assert_eq!(card[1].name, "SplatfestTeam0Image");
    let tint = RmColor { r: 100, g: 150, b: 200, a: 255 };
    match &card[1].object_type {
        ObjectType::Meter(MeterType::Image(img), o) => {
            assert_eq!(img.image_name, "#@#Splatfest Teams/Cats.png");
            assert_eq!(o.solid_color, Some(tint));
        },
        _ => panic!("expected the team image"),
    }
    assert_eq!(card[2].name, "SplatfestTeam0Name");
    match &card[2].object_type {
        ObjectType::Meter(MeterType::String(s), o) => {
            assert_eq!(s.text, "Cats");
            assert_eq!(o.solid_color, Some(tint));
        },
        _ => panic!("expected the team name"),
    }
    assert_eq!(card[7].name, "SplatfestWinnerTeamName");
    match &card[7].object_type {
        ObjectType::Meter(MeterType::String(s), o) => {
            assert_eq!(s.text, "Cats");
            assert_eq!(o.solid_color, Some(tint));
        },
        _ => panic!("expected the winner name"),
    }
    assert_eq!(card[8].name, "SplatfestWinnerTeamImage");
    assert_eq!(card[9].name, "SplatfestSneakPeakRow");
    match &card[9].object_type {
        ObjectType::Meter(MeterType::String(s), o) => {
            assert_eq!(s.text, "Sneak Peak");
            assert_eq!((o.pos.x, o.pos.y), (50, 175));
        },
        _ => panic!("expected the first row label"),
    }
    assert_eq!(card[14].name, "SplatfestTeam0SneakPeak");
    match &card[14].object_type {
        ObjectType::Meter(MeterType::String(s), o) => {
            assert_eq!(s.text, "34.57%");
            assert_eq!(o.solid_color, Some(tint));
            assert_eq!((o.pos.x, o.pos.y), (150, 175));
        },
        _ => panic!("expected the first result cell"),
    }
}

#[test]
fn pending_fest_card_has_full_term_bar() {
    let st = generate(&base_snapshot(), &fest_with_results(None, None, None), NOW).unwrap();
    let card = st.splatfest.unwrap().to_rm();
    assert_eq!(card.len(), 12);
    assert_eq!(card[7].name, "SplatfestBackground");
    assert_eq!(card[8].name, "SplatfestFullTermTimeBarMeasure");
    match &card[8].object_type {
        ObjectType::Meter(_, _) => panic!("expected the plugin measure"),
        ObjectType::Measure(mt, _) => match mt {
            splatink::rm_write::MeasureType::Plugin(splatink::rm_write::PluginType::Splatink(
                SplatinkType::TimeBar(w),
            )) => {
                assert_eq!((w.start_time, w.end_time), (0, 10_000));
            },
            _ => panic!("expected the time-bar plugin"),
        },
    }
    assert_eq!(card[9].name, "SplatfestFullTermTimeBar");
}

#[test]
fn active_fest_card_has_half_term_bars() {
    let mut snap = base_snapshot();
    snap.data.currentFest = Some(currentFest {
        id: "fest-1".to_string(),
        title: "Cats vs Dogs vs Birds".to_string(),
        startTime: 0,
        endTime: 10_000,
        midtermTime: 5_000,
        state: "FIRST_HALF".to_string(),
        teams: trio {
            first: team {
                id: "t1".to_string(),
                color: Color { a: 255, r: 10, g: 20, b: 30 },
                myVoteState: None,
            },
            second: team {
                id: "t2".to_string(),
                color: Color { a: 255, r: 40, g: 50, b: 60 },
                myVoteState: None,
            },
            third: team {
                id: "t3".to_string(),
                color: Color { a: 255, r: 70, g: 80, b: 90 },
                myVoteState: None,
            },
        },
        tricolorStage: tricolorStage {
            name: "Wahoo World".to_string(),
            image: image { url: "https://img.example/ww.png".to_string() },
            id: "stage-ww".to_string(),
        },
    });
    let st = generate(&snap, &fest_with_results(None, None, None), NOW).unwrap();
    let card = st.splatfest.unwrap().to_rm();
    assert_eq!(card.len(), 16);
    assert_eq!(card[7].name, "SplatfestFirstTermTimeBarMeasure");
    assert_eq!(card[11].name, "SplatfestTricolorStage");
    match &card[11].object_type {
        ObjectType::Meter(MeterType::Image(img), o) => {
            assert_eq!(img.image_name, "#@#Stages/Wahoo World.png");
            assert_eq!((o.pos.x, o.pos.y), (0, 50));
        },
        _ => panic!("expected the tricolor stage tile"),
    }
    assert_eq!(card[12].name, "SplatfestSecondTermTimeBarMeasure");
}

#[test]
fn emitted_names_are_pairwise_distinct() {
    // a rich structure: several groups, a multi-window challenge, salmon
    // shifts with weapons, and a finished splatfest card
    let mut snap = base_snapshot();
    snap.data.regularSchedules.nodes.push(reg_node(7200, 14400, true));
    snap.data.coopGroupingSchedule.regularSchedules.nodes.push(coop_node(100, 200, "Sockeye Station"));
    snap.data.coopGroupingSchedule.bigRunSchedules.nodes.push(coop_node(300, 400, "Wahoo World"));
    snap.data.eventSchedules.nodes.push(eventSchedule {
        leagueMatchSetting: leagueMatchSetting {
            leagueMatchEvent: leagueMatchEvent {
                leagueMatchEventId: "ev1".to_string(),
                name: "Sizzle Showdown".to_string(),
                desc: "d".to_string(),
                regulationUrl: None,
                regulation: "r".to_string(),
                id: "league-1".to_string(),
            },
            vsStages: pair { first: stage(7, "Museum d'Alfonsino"), second: stage(8, "Hammerhead Bridge") },
            __isVsSetting: "VsSetting".to_string(),
            __typename: "LeagueMatchSetting".to_string(),
            vsRule: Some(rule("Rainmaker")),
        },
        timePeriods: (0..3).map(|k| timePeriod { startTime: k * 100, endTime: k * 100 + 50 }).collect(),
    });
    let st = generate(&snap, &fest_with_results(Some(true), Some(false), Some(false)), NOW).unwrap();
    assert!(structure_fits(&st));
    let objs = st.to_rm("RegSche");
    let mut names: Vec<&str> = objs.iter().map(|o| o.name.as_str()).collect();
    let total = names.len();
    names.sort();
    names.dedup();
    assert_eq!(names.len(), total);
}
