//! The asset resolver's verified half: which images a built structure
//! references, what file each is stored under, and whether a transfer is
//! still needed given a directory listing. The transfer itself is an
//! outside concern.

use vstd::prelude::*;
use crate::rm_structure::{
    RmStructure, RmStructureV, Schedule, ScheduleV, EventRecord, EventRecordV, SplatfestV,
    SplatfestStateV, WeaponV,
};

verus! {

/// One image to ensure on disk: fetched from `url`, stored as
/// `<subdir>/<name>.png` under the resource directory.
#[derive(Clone, Debug, PartialEq)]
pub struct DownloadTarget {
    pub url: String,
    pub name: String,
    pub subdir: String,
}

pub struct DownloadTargetV {
    pub url: Seq<char>,
    pub name: Seq<char>,
    pub subdir: Seq<char>,
}

impl DeepView for DownloadTarget {
    type V = DownloadTargetV;

    open spec fn deep_view(&self) -> DownloadTargetV {
        DownloadTargetV {
            url: self.url.deep_view(),
            name: self.name.deep_view(),
            subdir: self.subdir.deep_view(),
        }
    }
}

/// The images one event references: its stages, and for salmon-run shifts
/// the weapons as well.
pub open spec fn spec_event_targets(e: EventRecordV) -> Seq<DownloadTargetV> {
    match e {
        EventRecordV::Vs(v) => seq![
            DownloadTargetV {
                url: v.vs_setting.vs_stages.first.image.url,
                name: v.vs_setting.vs_stages.first.name,
                subdir: "Stages"@,
            },
            DownloadTargetV {
                url: v.vs_setting.vs_stages.second.image.url,
                name: v.vs_setting.vs_stages.second.name,
                subdir: "Stages"@,
            },
        ],
        EventRecordV::Chal(c) => seq![
            DownloadTargetV {
                url: c.vs_setting.vs_stages.first.image.url,
                name: c.vs_setting.vs_stages.first.name,
                subdir: "Stages"@,
            },
            DownloadTargetV {
                url: c.vs_setting.vs_stages.second.image.url,
                name: c.vs_setting.vs_stages.second.name,
                subdir: "Stages"@,
            },
        ],
        EventRecordV::SalmonRun(s) => seq![
            DownloadTargetV {
                url: s.coop_setting.coop_stage.image.url,
                name: s.coop_setting.coop_stage.name,
                subdir: "Stages"@,
            },
        ] + s.coop_setting.weapons.map_values(
            |w: WeaponV| DownloadTargetV { url: w.image.url, name: w.name, subdir: "Weapons"@ },
        ),
    }
}

pub open spec fn spec_events_targets(evs: Seq<EventRecordV>) -> Seq<DownloadTargetV>
    decreases evs.len(),
{
    if evs.len() == 0 {
        Seq::empty()
    } else {
        spec_events_targets(evs.drop_last()) + spec_event_targets(evs.last())
    }
}

pub open spec fn spec_groups_targets(gs: Seq<ScheduleV>) -> Seq<DownloadTargetV>
    decreases gs.len(),
{
    if gs.len() == 0 {
        Seq::empty()
    } else {
        spec_groups_targets(gs.drop_last()) + spec_events_targets(gs.last().events)
    }
}

/// The festival record's images: the three team images, and the tricolor
/// stage while the fest is active.
pub open spec fn spec_fest_targets(f: SplatfestV) -> Seq<DownloadTargetV> {
    let teams = seq![
        DownloadTargetV {
            url: f.teams.first.image.url,
            name: f.teams.first.name,
            subdir: "Splatfest Teams"@,
        },
        DownloadTargetV {
            url: f.teams.second.image.url,
            name: f.teams.second.name,
            subdir: "Splatfest Teams"@,
        },
        DownloadTargetV {
            url: f.teams.third.image.url,
            name: f.teams.third.name,
            subdir: "Splatfest Teams"@,
        },
    ];
    match f.state {
        SplatfestStateV::Active(_, s) => teams + seq![
            DownloadTargetV { url: s.image.url, name: s.name, subdir: "Stages"@ },
        ],
        _ => teams,
    }
}

/// Everything a structure references.
pub open spec fn spec_structure_targets(s: RmStructureV) -> Seq<DownloadTargetV> {
    spec_groups_targets(s.schedules) + (match s.splatfest {
        Some(f) => spec_fest_targets(f),
        None => Seq::empty(),
    })
}

fn event_targets(e: &EventRecord) -> (r: Vec<DownloadTarget>)
    ensures
        r.deep_view() == spec_event_targets(e.deep_view()),
{
    let mut out: Vec<DownloadTarget> = Vec::new();
    match e {
        EventRecord::Vs(v) => {
            out.push(
                DownloadTarget {
                    url: v.vs_setting.vs_stages.first.image.url.clone(),
                    name: v.vs_setting.vs_stages.first.name.clone(),
                    subdir: "Stages".to_owned(),
                },
            );
            out.push(
                DownloadTarget {
                    url: v.vs_setting.vs_stages.second.image.url.clone(),
                    name: v.vs_setting.vs_stages.second.name.clone(),
                    subdir: "Stages".to_owned(),
                },
            );
            proof {
                assert(out.deep_view() =~= spec_event_targets(e.deep_view()));
            }
        },
        EventRecord::Chal(c) => {
            out.push(
                DownloadTarget {
                    url: c.vs_setting.vs_stages.first.image.url.clone(),
                    name: c.vs_setting.vs_stages.first.name.clone(),
                    subdir: "Stages".to_owned(),
                },
            );
            out.push(
                DownloadTarget {
                    url: c.vs_setting.vs_stages.second.image.url.clone(),
                    name: c.vs_setting.vs_stages.second.name.clone(),
                    subdir: "Stages".to_owned(),
                },
            );
            proof {
                assert(out.deep_view() =~= spec_event_targets(e.deep_view()));
            }
        },
        EventRecord::SalmonRun(s) => {
            out.push(
                DownloadTarget {
                    url: s.coop_setting.coop_stage.image.url.clone(),
                    name: s.coop_setting.coop_stage.name.clone(),
                    subdir: "Stages".to_owned(),
                },
            );
            let ghost stage_part = seq![
                DownloadTargetV {
                    url: s.coop_setting.coop_stage.image.url@,
                    name: s.coop_setting.coop_stage.name@,
                    subdir: "Stages"@,
                },
            ];
            let ghost weap = s.coop_setting.weapons.deep_view().map_values(
                |w: WeaponV| DownloadTargetV { url: w.image.url, name: w.name, subdir: "Weapons"@ },
            );
            let mut i: usize = 0;
            proof {
                assert(out.deep_view() =~= stage_part + weap.take(0));
            }
            while i < s.coop_setting.weapons.len()
                invariant
                    i <= s.coop_setting.weapons@.len(),
                    weap.len() == s.coop_setting.weapons@.len(),
                    weap == s.coop_setting.weapons.deep_view().map_values(
                        |w: WeaponV| DownloadTargetV {
                            url: w.image.url,
                            name: w.name,
                            subdir: "Weapons"@,
                        },
                    ),
                    out.deep_view() == stage_part + weap.take(i as int),
                decreases s.coop_setting.weapons@.len() - i,
            {
                let ghost pre = out.deep_view();
                let w = &s.coop_setting.weapons[i];
                out.push(
                    DownloadTarget {
                        url: w.image.url.clone(),
                        name: w.name.clone(),
                        subdir: "Weapons".to_owned(),
                    },
                );
                proof {
                    assert(out.deep_view() =~= pre.push(weap[i as int]));
                    assert(weap.take(i + 1) =~= weap.take(i as int).push(weap[i as int]));
                    assert(out.deep_view() =~= stage_part + weap.take(i + 1));
                }
                i = i + 1;
            }
            proof {
                assert(weap.take(weap.len() as int) =~= weap);
                assert(out.deep_view() =~= spec_event_targets(e.deep_view()));
            }
        },
    }
    out
}

/// Collect every image the structure references, each with its namespace
/// directory, in build order.
pub fn download_targets(s: &RmStructure) -> (r: Vec<DownloadTarget>)
    ensures
        r.deep_view() == spec_structure_targets(s.deep_view()),
{
    let mut out: Vec<DownloadTarget> = Vec::new();
    let ghost gpart = spec_groups_targets(s.schedules.deep_view());
    let mut gi: usize = 0;
    proof {
        assert(s.schedules.deep_view().take(0) =~= Seq::<ScheduleV>::empty());
        assert(out.deep_view() =~= spec_groups_targets(s.schedules.deep_view().take(0)));
    }
    while gi < s.schedules.len()
        invariant
            gi <= s.schedules@.len(),
            s.schedules.deep_view().len() == s.schedules@.len(),
            out.deep_view() == spec_groups_targets(s.schedules.deep_view().take(gi as int)),
        decreases s.schedules@.len() - gi,
    {
        let g = &s.schedules[gi];
        let ghost gpre = out.deep_view();
        let ghost epart = spec_events_targets(g.events.deep_view());
        let mut ei: usize = 0;
        proof {
            assert(g.events.deep_view().take(0) =~= Seq::<EventRecordV>::empty());
            assert(out.deep_view() =~= gpre + spec_events_targets(g.events.deep_view().take(0)));
        }
        while ei < g.events.len()
            invariant
                ei <= g.events@.len(),
                g.events.deep_view().len() == g.events@.len(),
                out.deep_view() == gpre + spec_events_targets(g.events.deep_view().take(ei as int)),
            decreases g.events@.len() - ei,
        {
            let ghost pre = out.deep_view();
            let mut ts = event_targets(&g.events[ei]);
            let ghost tsv = ts.deep_view();
            out.append(&mut ts);
            proof {
                let evs = g.events.deep_view();
                assert(out.deep_view() =~= pre + tsv);
                assert(evs.take(ei + 1).drop_last() =~= evs.take(ei as int));
                assert(evs.take(ei + 1).last() == evs[ei as int]);
                assert(out.deep_view() =~= gpre + spec_events_targets(evs.take(ei + 1)));
            }
            ei = ei + 1;
        }
        proof {
            let gs = s.schedules.deep_view();
            assert(g.events.deep_view().take(g.events@.len() as int) =~= g.events.deep_view());
            assert(gs.take(gi + 1).drop_last() =~= gs.take(gi as int));
            assert(gs.take(gi + 1).last() == gs[gi as int]);
            assert(out.deep_view() =~= spec_groups_targets(gs.take(gi + 1)));
        }
        gi = gi + 1;
    }
    proof {
        assert(s.schedules.deep_view().take(s.schedules@.len() as int) =~= s.schedules.deep_view());
    }
    match &s.splatfest {
        None => {
            proof {
                assert(out.deep_view() =~= spec_structure_targets(s.deep_view()));
            }
        },
        Some(f) => {
            let ghost fpre = out.deep_view();
            out.push(
                DownloadTarget {
                    url: f.teams.first.image.url.clone(),
                    name: f.teams.first.name.clone(),
                    subdir: "Splatfest Teams".to_owned(),
                },
            );
            out.push(
                DownloadTarget {
                    url: f.teams.second.image.url.clone(),
                    name: f.teams.second.name.clone(),
                    subdir: "Splatfest Teams".to_owned(),
                },
            );
            out.push(
                DownloadTarget {
                    url: f.teams.third.image.url.clone(),
                    name: f.teams.third.name.clone(),
                    subdir: "Splatfest Teams".to_owned(),
                },
            );
            match &f.state {
                crate::rm_structure::SplatfestState::Active(_, stage) => {
                    out.push(
                        DownloadTarget {
                            url: stage.image.url.clone(),
                            name: stage.name.clone(),
                            subdir: "Stages".to_owned(),
                        },
                    );
                },
                _ => {},
            }
            proof {
                assert(out.deep_view() =~= spec_structure_targets(s.deep_view()));
            }
        },
    }
    out
}

/// The file name one image is stored under.
pub fn target_file_name(name: &String) -> (r: String)
    ensures
        r@ == name@ + ".png"@,
{
    let mut s = name.clone();
    s.append(".png");
    s
}

/// The dedup decision: a transfer is needed exactly when no file in the
/// destination listing already carries the target's file name.
pub fn needs_transfer(listing: &Vec<String>, file_name: &String) -> (r: bool)
    ensures
        r <==> (forall|i: int| 0 <= i < listing@.len() ==> (#[trigger] listing@[i])@ != file_name@),
{
    let mut i: usize = 0;
    while i < listing.len()
        invariant
            i <= listing@.len(),
            forall|k: int| 0 <= k < i ==> (#[trigger] listing@[k])@ != file_name@,
        decreases listing@.len() - i,
    {
        if listing[i] == *file_name {
            return false;
        }
        i = i + 1;
    }
    true
}

} // verus!
