//! The freshness/backoff engine and the snapshot codec, exercised on
//! concrete values.

use splatink::backoff::{FreshnessEngine, TickAction, FetchClass, pow2_u64};
use splatink::rm_structure::CoreError;
use splatink::codec::{encode_snapshot, decode_snapshot};
use splatink::schedule_data::{
    image, nodes, pair, trio, RotationData, data, regularSchedule, regularMatchSetting, vsStage,
    vsRule, eventSchedule, timePeriod, leagueMatchSetting, leagueMatchEvent, coopGroupingSchedule,
    salmonRunRotation, salmonRunSetting, coopStage, weapon, currentFest, team, tricolorStage,
    Player, vsStageRecon, xSchedule, xMatchSetting, bankaraSchedule, bankaraMatchSetting,
};
use splatink::splatfest_data::Color;

fn empty_nodes<T>() -> nodes<T> {
    nodes { nodes: Vec::new() }
}

fn stage(id: i64, name: &str) -> vsStage {
    vsStage {
        vsStageId: id,
        name: name.to_string(),
        image: image { url: format!("https://img.example/{name}.png") },
        id: format!("stage-{id}"),
    }
}

fn rule(name: &str) -> vsRule {
    vsRule { name: name.to_string(), rule: name.to_uppercase(), id: format!("rule-{name}") }
}

fn reg_node(start: i64, end: i64, with_setting: bool) -> regularSchedule {
    regularSchedule {
        startTime: start,
        endTime: end,
        regularMatchSetting: if with_setting {
            Some(regularMatchSetting {
                __isVsSetting: "VsSetting".to_string(),
                __typename: "RegularMatchSetting".to_string(),
                vsStages: pair { first: stage(1, "Scorch Gorge"), second: stage(2, "Eeltail Alley") },
                vsRule: rule("Turf War"),
            })
        } else {
            None
        },
        festMatchSetting: None,
    }
}

/// A snapshot whose first primary event ends at `primary_end`.
fn snapshot(primary_end: i64) -> RotationData {
    RotationData {
        data: data {
            regularSchedules: nodes { nodes: vec![reg_node(primary_end - 7200, primary_end, true)] },
            bankaraSchedules: empty_nodes(),
            xSchedules: empty_nodes(),
            eventSchedules: empty_nodes(),
            festSchedules: empty_nodes(),
            coopGroupingSchedule: coopGroupingSchedule {
                bannerImage: None,
                regularSchedules: empty_nodes(),
                bigRunSchedules: empty_nodes(),
                teamContestSchedules: empty_nodes(),
            },
            currentFest: None,
            currentPlayer: Player { userIcon: image { url: "https://img.example/me.png".to_string() } },
            vsStages: empty_nodes(),
        },
    }
}

/// A fuller snapshot that exercises every branch of the blob codec.
fn rich_snapshot() -> RotationData {
    let mut snap = snapshot(1_700_000_000);
    snap.data.regularSchedules.nodes.push(reg_node(1_700_000_000, 1_700_007_200, false));
    snap.data.bankaraSchedules.nodes.push(bankaraSchedule {
        startTime: 10,
        endTime: 20,
        bankaraMatchSettings: Some(pair {
            first: bankaraMatchSetting {
                __isVsSetting: "VsSetting".to_string(),
                __typename: "BankaraMatchSetting".to_string(),
                vsStages: pair { first: stage(3, "Mincemeat Metalworks"), second: stage(4, "Undertow Spillway") },
                vsRule: rule("Splat Zones"),
                bankaraMode: "CHALLENGE".to_string(),
            },
            second: bankaraMatchSetting {
                __isVsSetting: "VsSetting".to_string(),
                __typename: "BankaraMatchSetting".to_string(),
                vsStages: pair { first: stage(5, "Hagglefish Market"), second: stage(6, "Mahi-Mahi Resort") },
                vsRule: rule("Tower Control"),
                bankaraMode: "OPEN".to_string(),
            },
        }),
        festMatchSetting: None,
    });
    snap.data.eventSchedules.nodes.push(eventSchedule {
        leagueMatchSetting: leagueMatchSetting {
            leagueMatchEvent: leagueMatchEvent {
                leagueMatchEventId: "ev1".to_string(),
                name: "Sizzle Showdown".to_string(),
                desc: "Line A<br />Line B".to_string(),
                regulationUrl: Some("https://rules.example".to_string()),
                regulation: "Rule 1\u{30FB}Rule 2".to_string(),
                id: "league-1".to_string(),
            },
            vsStages: pair { first: stage(7, "Museum d'Alfonsino"), second: stage(8, "Hammerhead Bridge") },
            __isVsSetting: "VsSetting".to_string(),
            __typename: "LeagueMatchSetting".to_string(),
            vsRule: Some(rule("Rainmaker")),
        },
        timePeriods: vec![
            timePeriod { startTime: 100, endTime: 200 },
            timePeriod { startTime: 300, endTime: 400 },
        ],
    });
    snap.data.coopGroupingSchedule.regularSchedules.nodes.push(salmonRunRotation {
        startTime: 500,
        endTime: 600,
        setting: salmonRunSetting {
            __typename: "CoopNormalSetting".to_string(),
            coopStage: coopStage {
                name: "Sockeye Station".to_string(),
                thumbnailImage: image { url: "https://img.example/ss-thumb.png".to_string() },
                image: image { url: "https://img.example/ss.png".to_string() },
                id: "coop-1".to_string(),
            },
            __isCoopSetting: "CoopSetting".to_string(),
            weapons: vec![
                weapon {
                    __splatoon3ink_id: "w1".to_string(),
                    name: "Splattershot".to_string(),
                    image: image { url: "https://img.example/w1.png".to_string() },
                },
            ],
        },
        __splatoon3ink_king_salmonid_guess: "Cohozuna".to_string(),
    });
    snap.data.currentFest = Some(currentFest {
        id: "fest-1".to_string(),
        title: "Cats vs Dogs vs Birds".to_string(),
        startTime: -100,
        endTime: 100000,
        midtermTime: 50000,
        state: "FIRST_HALF".to_string(),
        teams: trio {
            first: team {
                id: "t1".to_string(),
                color: Color { a: 255, r: 10, g: 20, b: 30 },
                myVoteState: None,
            },
            second: team {
                id: "t2".to_string(),
                color: Color { a: 255, r: 40, g: 50, b: 60 },
                myVoteState: Some(()),
            },
            third: team {
                id: "t3".to_string(),
                color: Color { a: 255, r: 70, g: 80, b: 90 },
                myVoteState: None,
            },
        },
        tricolorStage: tricolorStage {
            name: "Wahoo World".to_string(),
            image: image { url: "https://img.example/ww.png".to_string() },
            id: "stage-ww".to_string(),
        },
    });
    snap.data.vsStages.nodes.push(vsStageRecon {
        vsStageId: 42,
        originalImage: image { url: "https://img.example/recon.png".to_string() },
        name: "Flounder Heights".to_string(),
        stats: None,
        id: "recon-42".to_string(),
    });
    snap
}

const NOW: i64 = 1_700_000_000;

#[test]
fn populate_precedes_backoff() {
    let mut eng = FreshnessEngine::new(20);
    assert_eq!(eng.decide(NOW), TickAction::Populate);
    eng.on_populate(None);
    assert_eq!(eng.decide(NOW), TickAction::Populate);
    eng.on_populate(Some(snapshot(NOW + 100)));
    assert_eq!(eng.decide(NOW), TickAction::Fresh);
    assert_eq!(eng.cooldown_remaining, 0);
    assert_eq!(eng.backoff_exponent, 2);
}

#[test]
fn stale_beyond_grace_triggers_fetch() {
    // primary event already ended one second ago, beyond a zero grace window
    let mut eng = FreshnessEngine::new(0);
    eng.on_populate(Some(snapshot(NOW - 1)));
    assert_eq!(eng.cooldown_remaining, 0);
    assert_eq!(eng.decide(NOW), TickAction::Fetch);
}

#[test]
fn grace_window_absorbs_skew() {
    let mut eng = FreshnessEngine::new(20);
    eng.on_populate(Some(snapshot(NOW - 15)));
    assert_eq!(eng.decide(NOW), TickAction::Fresh);
    let mut eng2 = FreshnessEngine::new(20);
    eng2.on_populate(Some(snapshot(NOW - 21)));
    assert_eq!(eng2.decide(NOW), TickAction::Fetch);
}

#[test]
fn premature_fetch_starts_cooldown() {
    // the replacement's first primary event ended five seconds ago
    let mut eng = FreshnessEngine::new(0);
    eng.on_populate(Some(snapshot(NOW - 10)));
    assert_eq!(eng.decide(NOW), TickAction::Fetch);
    let class = eng.on_fetch_result(Some(snapshot(NOW - 5)), NOW);
    assert_eq!(class, FetchClass::Premature);
    assert_eq!(eng.cooldown_remaining, 4);
    assert_eq!(eng.backoff_exponent, 3);
}

#[test]
fn cooldown_runs_exactly_to_zero() {
    let mut eng = FreshnessEngine::new(0);
    eng.on_populate(Some(snapshot(NOW - 10)));
    let _ = eng.on_fetch_result(None, NOW);
    assert_eq!(eng.cooldown_remaining, 4);
    for expect in [3u64, 2, 1, 0] {
        assert_eq!(eng.decide(NOW), TickAction::Wait);
        eng.wait_tick();
        assert_eq!(eng.cooldown_remaining, expect);
    }
    assert_eq!(eng.decide(NOW), TickAction::Fetch);
}

#[test]
fn failure_during_cooldown_leaves_exponent_alone() {
    let mut eng = FreshnessEngine::new(0);
    eng.on_populate(Some(snapshot(NOW - 10)));
    let _ = eng.on_fetch_result(None, NOW);
    assert_eq!((eng.cooldown_remaining, eng.backoff_exponent), (4, 3));
    let _ = eng.on_fetch_result(None, NOW);
    assert_eq!((eng.cooldown_remaining, eng.backoff_exponent), (4, 3));
}

#[test]
fn exponent_never_exceeds_cap() {
    let mut eng = FreshnessEngine::new(0);
    eng.on_populate(Some(snapshot(NOW - 10)));
    for _ in 0..50 {
        eng.cooldown_remaining = 0;
        eng.note_failure();
        assert!(eng.backoff_exponent <= 10);
        assert!(eng.cooldown_remaining <= 1024);
    }
    assert_eq!(eng.backoff_exponent, 10);
    assert_eq!(eng.cooldown_remaining, 1024);
}

#[test]
fn accepted_fetch_resets_backoff() {
    let mut eng = FreshnessEngine::new(0);
    eng.on_populate(Some(snapshot(NOW - 10)));
    for _ in 0..8 {
        eng.cooldown_remaining = 0;
        eng.note_failure();
    }
    assert_eq!(eng.backoff_exponent, 10);
    eng.cooldown_remaining = 0;
    let fresh = snapshot(NOW + 7200);
    let class = eng.on_fetch_result(Some(fresh.clone()), NOW);
    assert_eq!(class, FetchClass::Accepted);
    assert_eq!(eng.backoff_exponent, 2);
    assert_eq!(eng.cooldown_remaining, 0);
    assert_eq!(eng.snapshot, Some(fresh));
}

#[test]
fn fetch_without_primary_event_is_malformed() {
    let mut eng = FreshnessEngine::new(0);
    eng.on_populate(Some(snapshot(NOW - 10)));
    let mut empty = snapshot(NOW + 100);
    empty.data.regularSchedules.nodes.clear();
    let class = eng.on_fetch_result(Some(empty), NOW);
    assert_eq!(class, FetchClass::Malformed);
    assert_eq!(eng.cooldown_remaining, 4);
}

#[test]
fn held_snapshot_without_primary_event() {
    let mut eng = FreshnessEngine::new(0);
    let mut empty = snapshot(NOW);
    empty.data.regularSchedules.nodes.clear();
    eng.on_populate(Some(empty));
    assert_eq!(eng.decide(NOW), TickAction::PrimaryMissing);
}

#[test]
fn pow2_values() {
    assert_eq!(pow2_u64(0), 1);
    assert_eq!(pow2_u64(2), 4);
    assert_eq!(pow2_u64(10), 1024);
}

#[test]
fn repull_then_refresh_fetches_and_persists_once() {
    // after the blob is deleted, the population path performs exactly one
    // network fetch and, on success, exactly one persistence write
    let mut eng = FreshnessEngine::new(20);
    let blob: Option<Vec<u8>> = None;
    let mut fetches = 0;
    let mut writes = 0;
    if eng.decide(NOW) == TickAction::Populate {
        let loaded = match &blob {
            Some(b) => decode_snapshot(b),
            None => None,
        };
        let loaded = match loaded {
            Some(s) => Some(s),
            None => {
                fetches += 1;
                Some(snapshot(NOW + 7200))
            },
        };
        eng.on_populate(loaded);
        if let Some(s) = &eng.snapshot {
            let _persisted = encode_snapshot(s);
            writes += 1;
        }
    }
    assert_eq!(fetches, 1);
    assert_eq!(writes, 1);
    assert_ne!(eng.decide(NOW), TickAction::Populate);
}

#[test]
fn snapshot_round_trip() {
    let snap = rich_snapshot();
    let blob = encode_snapshot(&snap);
    let back = decode_snapshot(&blob);
    assert_eq!(back, Some(snap));
}

#[test]
fn minimal_snapshot_round_trip() {
    let mut snap = snapshot(0);
    snap.data.regularSchedules.nodes.clear();
    let blob = encode_snapshot(&snap);
    assert_eq!(decode_snapshot(&blob), Some(snap));
}

#[test]
fn truncated_blob_is_rejected() {
    let snap = rich_snapshot();
    let mut blob = encode_snapshot(&snap);
    blob.truncate(blob.len() - 1);
    assert_eq!(decode_snapshot(&blob), None);
}

#[test]
fn trailing_garbage_is_rejected() {
    let snap = rich_snapshot();
    let mut blob = encode_snapshot(&snap);
    blob.push(0);
    assert_eq!(decode_snapshot(&blob), None);
}

#[test]
fn corrupt_tag_is_rejected() {
    let snap = rich_snapshot();
    let mut blob = encode_snapshot(&snap);
    // the first byte of an i64 encoding is a sign tag of 0 or 1
    let pos = blob.len() - 1;
    blob[pos] = 0xff;
    assert_eq!(decode_snapshot(&blob), None);
}

#[test]
fn empty_blob_is_rejected() {
    assert_eq!(decode_snapshot(&Vec::new()), None);
}

#[test]
fn fetch_classes_map_to_the_error_taxonomy() {
    assert_eq!(FetchClass::Accepted.to_error(), None);
    assert_eq!(FetchClass::Premature.to_error(), Some(CoreError::PrematureData));
    assert_eq!(FetchClass::Malformed.to_error(), Some(CoreError::ParseFailure));
    assert_eq!(FetchClass::FetchFailed.to_error(), Some(CoreError::FetchFailure));
}
