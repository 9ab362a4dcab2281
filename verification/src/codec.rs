//! [`Blob`] encodings for every type the snapshot store persists, the
//! public snapshot codec, and the round-trip law: a snapshot encoded to the
//! persisted blob format and decoded again is restored unchanged.
//!
//! The persisted blob format is this codec's own binary encoding, chosen so
//! that the round trip is a proved law rather than a property of an outside
//! serializer. Any other bytes found in the cache file — including a JSON
//! document written by an earlier deployment — decode as `None`, which the
//! engine treats as an absent cache and answers with one refetch.
//!
//! Each type's encoding is held in an opaque free spec function so that a
//! proof about one record never unfolds the encodings of the records nested
//! inside it; nested facts flow only through the [`Blob`] lemmas.

use vstd::prelude::*;
use vstd::seq_lib::lemma_seq_skip_of_skip;
use crate::blob::{Blob, lemma_concat_skip};
use crate::schedule_data::{
    image, RotationData, data, nodes, pair, trio, regularSchedule, regularMatchSetting, vsStage,
    vsRule, festMatchSettingsFake, bankaraSchedule, bankaraMatchSetting, xSchedule, xMatchSetting,
    eventSchedule, timePeriod, leagueMatchSetting, leagueMatchEvent, festSchedule,
    festMatchSetting, coopGroupingSchedule, salmonRunRotation, salmonRunSetting, coopStage, weapon,
    eggstraWorkRotation, currentFest, team, tricolorStage, Player, vsStageRecon,
    imageV, RotationDataV, dataV, regularScheduleV, regularMatchSettingV, vsStageV, vsRuleV,
    festMatchSettingsFakeV, bankaraScheduleV, bankaraMatchSettingV, xScheduleV, xMatchSettingV,
    eventScheduleV, timePeriodV, leagueMatchSettingV, leagueMatchEventV, festScheduleV,
    festMatchSettingV, coopGroupingScheduleV, salmonRunRotationV, salmonRunSettingV, coopStageV,
    weaponV, eggstraWorkRotationV, currentFestV, teamV, tricolorStageV, PlayerV, vsStageReconV,
};
use crate::splatfest_data::Color;

verus! {

broadcast use vstd::seq_lib::lemma_seq_skip_of_skip;

#[verifier::opaque]
pub open spec fn enc_ok_image(x: image) -> bool {
    x.url.enc_ok()
}

#[verifier::opaque]
pub open spec fn enc_image(x: image) -> Seq<u8> {
    x.url.enc()
}

#[verifier::opaque]
pub open spec fn dec_image(s: Seq<u8>) -> Option<(imageV, int)> {
    match <String as Blob>::dec(s) {
        None => None,
        Some((v1, n1)) => {
            Some((imageV { url: v1 }, n1))
        },
    }
}

impl Blob for image {
    open spec fn enc_ok(&self) -> bool {
        enc_ok_image(*self)
    }

    open spec fn enc(&self) -> Seq<u8> {
        enc_image(*self)
    }

    open spec fn dec(s: Seq<u8>) -> Option<(imageV, int)> {
        dec_image(s)
    }

    proof fn lemma_dec_len(s: Seq<u8>) {
        reveal(dec_image);
        <String as Blob>::lemma_dec_len(s);
    }

    proof fn lemma_round_trip(&self, rest: Seq<u8>) {
        reveal(enc_ok_image);
        reveal(enc_image);
        reveal(dec_image);
        self.url.lemma_round_trip(rest);
    }

    fn write(&self, out: &mut Vec<u8>) {
        proof {
            reveal(enc_ok_image);
            reveal(enc_image);
        }
        self.url.write(out);
        proof {
            assert(out@ =~= old(out)@ + self.enc());
        }
    }

    fn read(v: &Vec<u8>, pos: usize) -> (r: Option<(image, usize)>) {
        proof {
            reveal(dec_image);
            <String as Blob>::lemma_dec_len(v@.skip(pos as int));
        }
        let (x1, p1) = match <String as Blob>::read(v, pos) {
            None => {
                return None;
            },
            Some(q) => q,
        };
        Some((image { url: x1 }, p1))
    }
}

#[verifier::opaque]
pub open spec fn enc_ok_RotationData(x: RotationData) -> bool {
    x.data.enc_ok()
}

#[verifier::opaque]
pub open spec fn enc_RotationData(x: RotationData) -> Seq<u8> {
    x.data.enc()
}

#[verifier::opaque]
pub open spec fn dec_RotationData(s: Seq<u8>) -> Option<(RotationDataV, int)> {
    match <data as Blob>::dec(s) {
        None => None,
        Some((v1, n1)) => {
            Some((RotationDataV { data: v1 }, n1))
        },
    }
}

impl Blob for RotationData {
    open spec fn enc_ok(&self) -> bool {
        enc_ok_RotationData(*self)
    }

    open spec fn enc(&self) -> Seq<u8> {
        enc_RotationData(*self)
    }

    open spec fn dec(s: Seq<u8>) -> Option<(RotationDataV, int)> {
        dec_RotationData(s)
    }

    proof fn lemma_dec_len(s: Seq<u8>) {
        reveal(dec_RotationData);
        <data as Blob>::lemma_dec_len(s);
    }

    proof fn lemma_round_trip(&self, rest: Seq<u8>) {
        reveal(enc_ok_RotationData);
        reveal(enc_RotationData);
        reveal(dec_RotationData);
        self.data.lemma_round_trip(rest);
    }

    fn write(&self, out: &mut Vec<u8>) {
        proof {
            reveal(enc_ok_RotationData);
            reveal(enc_RotationData);
        }
        self.data.write(out);
        proof {
            assert(out@ =~= old(out)@ + self.enc());
        }
    }

    fn read(v: &Vec<u8>, pos: usize) -> (r: Option<(RotationData, usize)>) {
        proof {
            reveal(dec_RotationData);
            <data as Blob>::lemma_dec_len(v@.skip(pos as int));
        }
        let (x1, p1) = match <data as Blob>::read(v, pos) {
            None => {
                return None;
            },
            Some(q) => q,
        };
        Some((RotationData { data: x1 }, p1))
    }
}

#[verifier::opaque]
pub open spec fn enc_ok_data(x: data) -> bool {
    x.regularSchedules.enc_ok() && x.bankaraSchedules.enc_ok() && x.xSchedules.enc_ok() && x.eventSchedules.enc_ok() && x.festSchedules.enc_ok() && x.coopGroupingSchedule.enc_ok() && x.currentFest.enc_ok() && x.currentPlayer.enc_ok() && x.vsStages.enc_ok()
}

#[verifier::opaque]
pub open spec fn enc_data(x: data) -> Seq<u8> {
    x.regularSchedules.enc() + x.bankaraSchedules.enc() + x.xSchedules.enc() + x.eventSchedules.enc() + x.festSchedules.enc() + x.coopGroupingSchedule.enc() + x.currentFest.enc() + x.currentPlayer.enc() + x.vsStages.enc()
}

#[verifier::opaque]
pub open spec fn dec_data(s: Seq<u8>) -> Option<(dataV, int)> {
    match <nodes<regularSchedule> as Blob>::dec(s) {
        None => None,
        Some((v1, n1)) => {
            let s1 = s.skip(n1);
            match <nodes<bankaraSchedule> as Blob>::dec(s1) {
                None => None,
                Some((v2, n2)) => {
                    let s2 = s1.skip(n2);
                    match <nodes<xSchedule> as Blob>::dec(s2) {
                        None => None,
                        Some((v3, n3)) => {
                            let s3 = s2.skip(n3);
                            match <nodes<eventSchedule> as Blob>::dec(s3) {
                                None => None,
                                Some((v4, n4)) => {
                                    let s4 = s3.skip(n4);
                                    match <nodes<festSchedule> as Blob>::dec(s4) {
                                        None => None,
                                        Some((v5, n5)) => {
                                            let s5 = s4.skip(n5);
                                            match <coopGroupingSchedule as Blob>::dec(s5) {
                                                None => None,
                                                Some((v6, n6)) => {
                                                    let s6 = s5.skip(n6);
                                                    match <Option<currentFest> as Blob>::dec(s6) {
                                                        None => None,
                                                        Some((v7, n7)) => {
                                                            let s7 = s6.skip(n7);
                                                            match <Player as Blob>::dec(s7) {
                                                                None => None,
                                                                Some((v8, n8)) => {
                                                                    let s8 = s7.skip(n8);
                                                                    match <nodes<vsStageRecon> as Blob>::dec(s8) {
                                                                        None => None,
                                                                        Some((v9, n9)) => {
                                                                            Some((dataV { regularSchedules: v1, bankaraSchedules: v2, xSchedules: v3, eventSchedules: v4, festSchedules: v5, coopGroupingSchedule: v6, currentFest: v7, currentPlayer: v8, vsStages: v9 }, n1 + n2 + n3 + n4 + n5 + n6 + n7 + n8 + n9))
                                                                        },
                                                                    }
                                                                },
                                                            }
                                                        },
                                                    }
                                                },
                                            }
                                        },
                                    }
                                },
                            }
                        },
                    }
                },
            }
        },
    }
}

impl Blob for data {
    open spec fn enc_ok(&self) -> bool {
        enc_ok_data(*self)
    }

    open spec fn enc(&self) -> Seq<u8> {
        enc_data(*self)
    }

    open spec fn dec(s: Seq<u8>) -> Option<(dataV, int)> {
        dec_data(s)
    }

    proof fn lemma_dec_len(s: Seq<u8>) {
        reveal(dec_data);
        <nodes<regularSchedule> as Blob>::lemma_dec_len(s);
        match <nodes<regularSchedule> as Blob>::dec(s) {
            None => {},
            Some((v1, n1)) => {
                let s1 = s.skip(n1);
                <nodes<bankaraSchedule> as Blob>::lemma_dec_len(s1);
                match <nodes<bankaraSchedule> as Blob>::dec(s1) {
                    None => {},
                    Some((v2, n2)) => {
                        let s2 = s1.skip(n2);
                        <nodes<xSchedule> as Blob>::lemma_dec_len(s2);
                        match <nodes<xSchedule> as Blob>::dec(s2) {
                            None => {},
                            Some((v3, n3)) => {
                                let s3 = s2.skip(n3);
                                <nodes<eventSchedule> as Blob>::lemma_dec_len(s3);
                                match <nodes<eventSchedule> as Blob>::dec(s3) {
                                    None => {},
                                    Some((v4, n4)) => {
                                        let s4 = s3.skip(n4);
                                        <nodes<festSchedule> as Blob>::lemma_dec_len(s4);
                                        match <nodes<festSchedule> as Blob>::dec(s4) {
                                            None => {},
                                            Some((v5, n5)) => {
                                                let s5 = s4.skip(n5);
                                                <coopGroupingSchedule as Blob>::lemma_dec_len(s5);
                                                match <coopGroupingSchedule as Blob>::dec(s5) {
                                                    None => {},
                                                    Some((v6, n6)) => {
                                                        let s6 = s5.skip(n6);
                                                        <Option<currentFest> as Blob>::lemma_dec_len(s6);
                                                        match <Option<currentFest> as Blob>::dec(s6) {
                                                            None => {},
                                                            Some((v7, n7)) => {
                                                                let s7 = s6.skip(n7);
                                                                <Player as Blob>::lemma_dec_len(s7);
                                                                match <Player as Blob>::dec(s7) {
                                                                    None => {},
                                                                    Some((v8, n8)) => {
                                                                        let s8 = s7.skip(n8);
                                                                        <nodes<vsStageRecon> as Blob>::lemma_dec_len(s8);
                                                                    },
                                                                }
                                                            },
                                                        }
                                                    },
                                                }
                                            },
                                        }
                                    },
                                }
                            },
                        }
                    },
                }
            },
        }
    }

    #[verifier::rlimit(100)]
    #[verifier::spinoff_prover]
    proof fn lemma_round_trip(&self, rest: Seq<u8>) {
        reveal(enc_ok_data);
        reveal(enc_data);
        reveal(dec_data);
        let e1 = self.regularSchedules.enc();
        let e2 = self.bankaraSchedules.enc();
        let e3 = self.xSchedules.enc();
        let e4 = self.eventSchedules.enc();
        let e5 = self.festSchedules.enc();
        let e6 = self.coopGroupingSchedule.enc();
        let e7 = self.currentFest.enc();
        let e8 = self.currentPlayer.enc();
        let e9 = self.vsStages.enc();
        let r9 = rest;
        let r8 = e9 + r9;
        let r7 = e8 + r8;
        let r6 = e7 + r7;
        let r5 = e6 + r6;
        let r4 = e5 + r5;
        let r3 = e4 + r4;
        let r2 = e3 + r3;
        let r1 = e2 + r2;
        let l1 = e1;
        let l2 = l1 + e2;
        let l3 = l2 + e3;
        let l4 = l3 + e4;
        let l5 = l4 + e5;
        let l6 = l5 + e6;
        let l7 = l6 + e7;
        let l8 = l7 + e8;
        let l9 = l8 + e9;
        assert(l9 + r9 =~= l8 + r8);
        assert(l8 + r8 =~= l7 + r7);
        assert(l7 + r7 =~= l6 + r6);
        assert(l6 + r6 =~= l5 + r5);
        assert(l5 + r5 =~= l4 + r4);
        assert(l4 + r4 =~= l3 + r3);
        assert(l3 + r3 =~= l2 + r2);
        assert(l2 + r2 =~= l1 + r1);
        assert(self.enc() + rest == l1 + r1);
        self.regularSchedules.lemma_round_trip(r1);
        lemma_concat_skip(e1, r1);
        self.bankaraSchedules.lemma_round_trip(r2);
        lemma_concat_skip(e2, r2);
        self.xSchedules.lemma_round_trip(r3);
        lemma_concat_skip(e3, r3);
        self.eventSchedules.lemma_round_trip(r4);
        lemma_concat_skip(e4, r4);
        self.festSchedules.lemma_round_trip(r5);
        lemma_concat_skip(e5, r5);
        self.coopGroupingSchedule.lemma_round_trip(r6);
        lemma_concat_skip(e6, r6);
        self.currentFest.lemma_round_trip(r7);
        lemma_concat_skip(e7, r7);
        self.currentPlayer.lemma_round_trip(r8);
        lemma_concat_skip(e8, r8);
        self.vsStages.lemma_round_trip(r9);
    }

    fn write(&self, out: &mut Vec<u8>) {
        proof {
            reveal(enc_ok_data);
            reveal(enc_data);
        }
        self.regularSchedules.write(out);
        self.bankaraSchedules.write(out);
        self.xSchedules.write(out);
        self.eventSchedules.write(out);
        self.festSchedules.write(out);
        self.coopGroupingSchedule.write(out);
        self.currentFest.write(out);
        self.currentPlayer.write(out);
        self.vsStages.write(out);
        proof {
            let e1 = self.regularSchedules.enc();
            let e2 = self.bankaraSchedules.enc();
            let e3 = self.xSchedules.enc();
            let e4 = self.eventSchedules.enc();
            let e5 = self.festSchedules.enc();
            let e6 = self.coopGroupingSchedule.enc();
            let e7 = self.currentFest.enc();
            let e8 = self.currentPlayer.enc();
            let e9 = self.vsStages.enc();
            let l1 = e1;
            let l2 = l1 + e2;
            let l3 = l2 + e3;
            let l4 = l3 + e4;
            let l5 = l4 + e5;
            let l6 = l5 + e6;
            let l7 = l6 + e7;
            let l8 = l7 + e8;
            let l9 = l8 + e9;
            assert((old(out)@ + l1) + e2 =~= old(out)@ + l2);
            assert((old(out)@ + l2) + e3 =~= old(out)@ + l3);
            assert((old(out)@ + l3) + e4 =~= old(out)@ + l4);
            assert((old(out)@ + l4) + e5 =~= old(out)@ + l5);
            assert((old(out)@ + l5) + e6 =~= old(out)@ + l6);
            assert((old(out)@ + l6) + e7 =~= old(out)@ + l7);
            assert((old(out)@ + l7) + e8 =~= old(out)@ + l8);
            assert((old(out)@ + l8) + e9 =~= old(out)@ + l9);
            assert(out@ == old(out)@ + self.enc());
        }
    }

    #[verifier::rlimit(100)]
    #[verifier::spinoff_prover]
    fn read(v: &Vec<u8>, pos: usize) -> (r: Option<(data, usize)>) {
        proof {
            reveal(dec_data);
            <nodes<regularSchedule> as Blob>::lemma_dec_len(v@.skip(pos as int));
        }
        let (x1, p1) = match <nodes<regularSchedule> as Blob>::read(v, pos) {
            None => {
                return None;
            },
            Some(q) => q,
        };
        proof {
            lemma_seq_skip_of_skip(v@, pos as int, (p1 - pos) as int);
            <nodes<bankaraSchedule> as Blob>::lemma_dec_len(v@.skip(p1 as int));
        }
        let (x2, p2) = match <nodes<bankaraSchedule> as Blob>::read(v, p1) {
            None => {
                return None;
            },
            Some(q) => q,
        };
        proof {
            lemma_seq_skip_of_skip(v@, p1 as int, (p2 - p1) as int);
            <nodes<xSchedule> as Blob>::lemma_dec_len(v@.skip(p2 as int));
        }
        let (x3, p3) = match <nodes<xSchedule> as Blob>::read(v, p2) {
            None => {
                return None;
            },
            Some(q) => q,
        };
        proof {
            lemma_seq_skip_of_skip(v@, p2 as int, (p3 - p2) as int);
            <nodes<eventSchedule> as Blob>::lemma_dec_len(v@.skip(p3 as int));
        }
        let (x4, p4) = match <nodes<eventSchedule> as Blob>::read(v, p3) {
            None => {
                return None;
            },
            Some(q) => q,
        };
        proof {
            lemma_seq_skip_of_skip(v@, p3 as int, (p4 - p3) as int);
            <nodes<festSchedule> as Blob>::lemma_dec_len(v@.skip(p4 as int));
        }
        let (x5, p5) = match <nodes<festSchedule> as Blob>::read(v, p4) {
            None => {
                return None;
            },
            Some(q) => q,
        };
        proof {
            lemma_seq_skip_of_skip(v@, p4 as int, (p5 - p4) as int);
            <coopGroupingSchedule as Blob>::lemma_dec_len(v@.skip(p5 as int));
        }
        let (x6, p6) = match <coopGroupingSchedule as Blob>::read(v, p5) {
            None => {
                return None;
            },
            Some(q) => q,
        };
        proof {
            lemma_seq_skip_of_skip(v@, p5 as int, (p6 - p5) as int);
            <Option<currentFest> as Blob>::lemma_dec_len(v@.skip(p6 as int));
        }
        let (x7, p7) = match <Option<currentFest> as Blob>::read(v, p6) {
            None => {
                return None;
            },
            Some(q) => q,
        };
        proof {
            lemma_seq_skip_of_skip(v@, p6 as int, (p7 - p6) as int);
            <Player as Blob>::lemma_dec_len(v@.skip(p7 as int));
        }
        let (x8, p8) = match <Player as Blob>::read(v, p7) {
            None => {
                return None;
            },
            Some(q) => q,
        };
        proof {
            lemma_seq_skip_of_skip(v@, p7 as int, (p8 - p7) as int);
            <nodes<vsStageRecon> as Blob>::lemma_dec_len(v@.skip(p8 as int));
        }
        let (x9, p9) = match <nodes<vsStageRecon> as Blob>::read(v, p8) {
            None => {
                return None;
            },
            Some(q) => q,
        };
        Some((data { regularSchedules: x1, bankaraSchedules: x2, xSchedules: x3, eventSchedules: x4, festSchedules: x5, coopGroupingSchedule: x6, currentFest: x7, currentPlayer: x8, vsStages: x9 }, p9))
    }
}

#[verifier::opaque]
pub open spec fn enc_ok_regularSchedule(x: regularSchedule) -> bool {
    x.startTime.enc_ok() && x.endTime.enc_ok() && x.regularMatchSetting.enc_ok() && x.festMatchSetting.enc_ok()
}

#[verifier::opaque]
pub open spec fn enc_regularSchedule(x: regularSchedule) -> Seq<u8> {
    x.startTime.enc() + x.endTime.enc() + x.regularMatchSetting.enc() + x.festMatchSetting.enc()
}

#[verifier::opaque]
pub open spec fn dec_regularSchedule(s: Seq<u8>) -> Option<(regularScheduleV, int)> {
    match <i64 as Blob>::dec(s) {
        None => None,
        Some((v1, n1)) => {
            let s1 = s.skip(n1);
            match <i64 as Blob>::dec(s1) {
                None => None,
                Some((v2, n2)) => {
                    let s2 = s1.skip(n2);
                    match <Option<regularMatchSetting> as Blob>::dec(s2) {
                        None => None,
                        Some((v3, n3)) => {
                            let s3 = s2.skip(n3);
                            match <Option<pair<festMatchSettingsFake>> as Blob>::dec(s3) {
                                None => None,
                                Some((v4, n4)) => {
                                    Some((regularScheduleV { startTime: v1, endTime: v2, regularMatchSetting: v3, festMatchSetting: v4 }, n1 + n2 + n3 + n4))
                                },
                            }
                        },
                    }
                },
            }
        },
    }
}

impl Blob for regularSchedule {
    open spec fn enc_ok(&self) -> bool {
        enc_ok_regularSchedule(*self)
    }

    open spec fn enc(&self) -> Seq<u8> {
        enc_regularSchedule(*self)
    }

    open spec fn dec(s: Seq<u8>) -> Option<(regularScheduleV, int)> {
        dec_regularSchedule(s)
    }

    proof fn lemma_dec_len(s: Seq<u8>) {
        reveal(dec_regularSchedule);
        <i64 as Blob>::lemma_dec_len(s);
        match <i64 as Blob>::dec(s) {
            None => {},
            Some((v1, n1)) => {
                let s1 = s.skip(n1);
                <i64 as Blob>::lemma_dec_len(s1);
                match <i64 as Blob>::dec(s1) {
                    None => {},
                    Some((v2, n2)) => {
                        let s2 = s1.skip(n2);
                        <Option<regularMatchSetting> as Blob>::lemma_dec_len(s2);
                        match <Option<regularMatchSetting> as Blob>::dec(s2) {
                            None => {},
                            Some((v3, n3)) => {
                                let s3 = s2.skip(n3);
                                <Option<pair<festMatchSettingsFake>> as Blob>::lemma_dec_len(s3);
                            },
                        }
                    },
                }
            },
        }
    }

    proof fn lemma_round_trip(&self, rest: Seq<u8>) {
        reveal(enc_ok_regularSchedule);
        reveal(enc_regularSchedule);
        reveal(dec_regularSchedule);
        let e1 = self.startTime.enc();
        let e2 = self.endTime.enc();
        let e3 = self.regularMatchSetting.enc();
        let e4 = self.festMatchSetting.enc();
        let r4 = rest;
        let r3 = e4 + r4;
        let r2 = e3 + r3;
        let r1 = e2 + r2;
        let l1 = e1;
        let l2 = l1 + e2;
        let l3 = l2 + e3;
        let l4 = l3 + e4;
        assert(l4 + r4 =~= l3 + r3);
        assert(l3 + r3 =~= l2 + r2);
        assert(l2 + r2 =~= l1 + r1);
        assert(self.enc() + rest == l1 + r1);
        self.startTime.lemma_round_trip(r1);
        lemma_concat_skip(e1, r1);
        self.endTime.lemma_round_trip(r2);
        lemma_concat_skip(e2, r2);
        self.regularMatchSetting.lemma_round_trip(r3);
        lemma_concat_skip(e3, r3);
        self.festMatchSetting.lemma_round_trip(r4);
    }

    fn write(&self, out: &mut Vec<u8>) {
        proof {
            reveal(enc_ok_regularSchedule);
            reveal(enc_regularSchedule);
        }
        self.startTime.write(out);
        self.endTime.write(out);
        self.regularMatchSetting.write(out);
        self.festMatchSetting.write(out);
        proof {
            let e1 = self.startTime.enc();
            let e2 = self.endTime.enc();
            let e3 = self.regularMatchSetting.enc();
            let e4 = self.festMatchSetting.enc();
            let l1 = e1;
            let l2 = l1 + e2;
            let l3 = l2 + e3;
            let l4 = l3 + e4;
            assert((old(out)@ + l1) + e2 =~= old(out)@ + l2);
            assert((old(out)@ + l2) + e3 =~= old(out)@ + l3);
            assert((old(out)@ + l3) + e4 =~= old(out)@ + l4);
            assert(out@ == old(out)@ + self.enc());
        }
    }

    fn read(v: &Vec<u8>, pos: usize) -> (r: Option<(regularSchedule, usize)>) {
        proof {
            reveal(dec_regularSchedule);
            <i64 as Blob>::lemma_dec_len(v@.skip(pos as int));
        }
        let (x1, p1) = match <i64 as Blob>::read(v, pos) {
            None => {
                return None;
            },
            Some(q) => q,
        };
        proof {
            lemma_seq_skip_of_skip(v@, pos as int, (p1 - pos) as int);
            <i64 as Blob>::lemma_dec_len(v@.skip(p1 as int));
        }
        let (x2, p2) = match <i64 as Blob>::read(v, p1) {
            None => {
                return None;
            },
            Some(q) => q,
        };
        proof {
            lemma_seq_skip_of_skip(v@, p1 as int, (p2 - p1) as int);
            <Option<regularMatchSetting> as Blob>::lemma_dec_len(v@.skip(p2 as int));
        }
        let (x3, p3) = match <Option<regularMatchSetting> as Blob>::read(v, p2) {
            None => {
                return None;
            },
            Some(q) => q,
        };
        proof {
            lemma_seq_skip_of_skip(v@, p2 as int, (p3 - p2) as int);
            <Option<pair<festMatchSettingsFake>> as Blob>::lemma_dec_len(v@.skip(p3 as int));
        }
        let (x4, p4) = match <Option<pair<festMatchSettingsFake>> as Blob>::read(v, p3) {
            None => {
                return None;
            },
            Some(q) => q,
        };
        Some((regularSchedule { startTime: x1, endTime: x2, regularMatchSetting: x3, festMatchSetting: x4 }, p4))
    }
}

#[verifier::opaque]
pub open spec fn enc_ok_regularMatchSetting(x: regularMatchSetting) -> bool {
    x.__isVsSetting.enc_ok() && x.__typename.enc_ok() && x.vsStages.enc_ok() && x.vsRule.enc_ok()
}

#[verifier::opaque]
pub open spec fn enc_regularMatchSetting(x: regularMatchSetting) -> Seq<u8> {
    x.__isVsSetting.enc() + x.__typename.enc() + x.vsStages.enc() + x.vsRule.enc()
}

#[verifier::opaque]
pub open spec fn dec_regularMatchSetting(s: Seq<u8>) -> Option<(regularMatchSettingV, int)> {
    match <String as Blob>::dec(s) {
        None => None,
        Some((v1, n1)) => {
            let s1 = s.skip(n1);
            match <String as Blob>::dec(s1) {
                None => None,
                Some((v2, n2)) => {
                    let s2 = s1.skip(n2);
                    match <pair<vsStage> as Blob>::dec(s2) {
                        None => None,
                        Some((v3, n3)) => {
                            let s3 = s2.skip(n3);
                            match <vsRule as Blob>::dec(s3) {
                                None => None,
                                Some((v4, n4)) => {
                                    Some((regularMatchSettingV { __isVsSetting: v1, __typename: v2, vsStages: v3, vsRule: v4 }, n1 + n2 + n3 + n4))
                                },
                            }
                        },
                    }
                },
            }
        },
    }
}

impl Blob for regularMatchSetting {
    open spec fn enc_ok(&self) -> bool {
        enc_ok_regularMatchSetting(*self)
    }

    open spec fn enc(&self) -> Seq<u8> {
        enc_regularMatchSetting(*self)
    }

    open spec fn dec(s: Seq<u8>) -> Option<(regularMatchSettingV, int)> {
        dec_regularMatchSetting(s)
    }

    proof fn lemma_dec_len(s: Seq<u8>) {
        reveal(dec_regularMatchSetting);
        <String as Blob>::lemma_dec_len(s);
        match <String as Blob>::dec(s) {
            None => {},
            Some((v1, n1)) => {
                let s1 = s.skip(n1);
                <String as Blob>::lemma_dec_len(s1);
                match <String as Blob>::dec(s1) {
                    None => {},
                    Some((v2, n2)) => {
                        let s2 = s1.skip(n2);
                        <pair<vsStage> as Blob>::lemma_dec_len(s2);
                        match <pair<vsStage> as Blob>::dec(s2) {
                            None => {},
                            Some((v3, n3)) => {
                                let s3 = s2.skip(n3);
                                <vsRule as Blob>::lemma_dec_len(s3);
                            },
                        }
                    },
                }
            },
        }
    }

    proof fn lemma_round_trip(&self, rest: Seq<u8>) {
        reveal(enc_ok_regularMatchSetting);
        reveal(enc_regularMatchSetting);
        reveal(dec_regularMatchSetting);
        let e1 = self.__isVsSetting.enc();
        let e2 = self.__typename.enc();
        let e3 = self.vsStages.enc();
        let e4 = self.vsRule.enc();
        let r4 = rest;
        let r3 = e4 + r4;
        let r2 = e3 + r3;
        let r1 = e2 + r2;
        let l1 = e1;
        let l2 = l1 + e2;
        let l3 = l2 + e3;
        let l4 = l3 + e4;
        assert(l4 + r4 =~= l3 + r3);
        assert(l3 + r3 =~= l2 + r2);
        assert(l2 + r2 =~= l1 + r1);
        assert(self.enc() + rest == l1 + r1);
        self.__isVsSetting.lemma_round_trip(r1);
        lemma_concat_skip(e1, r1);
        self.__typename.lemma_round_trip(r2);
        lemma_concat_skip(e2, r2);
        self.vsStages.lemma_round_trip(r3);
        lemma_concat_skip(e3, r3);
        self.vsRule.lemma_round_trip(r4);
    }

    fn write(&self, out: &mut Vec<u8>) {
        proof {
            reveal(enc_ok_regularMatchSetting);
            reveal(enc_regularMatchSetting);
        }
        self.__isVsSetting.write(out);
        self.__typename.write(out);
        self.vsStages.write(out);
        self.vsRule.write(out);
        proof {
            let e1 = self.__isVsSetting.enc();
            let e2 = self.__typename.enc();
            let e3 = self.vsStages.enc();
            let e4 = self.vsRule.enc();
            let l1 = e1;
            let l2 = l1 + e2;
            let l3 = l2 + e3;
            let l4 = l3 + e4;
            assert((old(out)@ + l1) + e2 =~= old(out)@ + l2);
            assert((old(out)@ + l2) + e3 =~= old(out)@ + l3);
            assert((old(out)@ + l3) + e4 =~= old(out)@ + l4);
            assert(out@ == old(out)@ + self.enc());
        }
    }

    fn read(v: &Vec<u8>, pos: usize) -> (r: Option<(regularMatchSetting, usize)>) {
        proof {
            reveal(dec_regularMatchSetting);
            <String as Blob>::lemma_dec_len(v@.skip(pos as int));
        }
        let (x1, p1) = match <String as Blob>::read(v, pos) {
            None => {
                return None;
            },
            Some(q) => q,
        };
        proof {
            lemma_seq_skip_of_skip(v@, pos as int, (p1 - pos) as int);
            <String as Blob>::lemma_dec_len(v@.skip(p1 as int));
        }
        let (x2, p2) = match <String as Blob>::read(v, p1) {
            None => {
                return None;
            },
            Some(q) => q,
        };
        proof {
            lemma_seq_skip_of_skip(v@, p1 as int, (p2 - p1) as int);
            <pair<vsStage> as Blob>::lemma_dec_len(v@.skip(p2 as int));
        }
        let (x3, p3) = match <pair<vsStage> as Blob>::read(v, p2) {
            None => {
                return None;
            },
            Some(q) => q,
        };
        proof {
            lemma_seq_skip_of_skip(v@, p2 as int, (p3 - p2) as int);
            <vsRule as Blob>::lemma_dec_len(v@.skip(p3 as int));
        }
        let (x4, p4) = match <vsRule as Blob>::read(v, p3) {
            None => {
                return None;
            },
            Some(q) => q,
        };
        Some((regularMatchSetting { __isVsSetting: x1, __typename: x2, vsStages: x3, vsRule: x4 }, p4))
    }
}

#[verifier::opaque]
pub open spec fn enc_ok_vsStage(x: vsStage) -> bool {
    x.vsStageId.enc_ok() && x.name.enc_ok() && x.image.enc_ok() && x.id.enc_ok()
}

#[verifier::opaque]
pub open spec fn enc_vsStage(x: vsStage) -> Seq<u8> {
    x.vsStageId.enc() + x.name.enc() + x.image.enc() + x.id.enc()
}

#[verifier::opaque]
pub open spec fn dec_vsStage(s: Seq<u8>) -> Option<(vsStageV, int)> {
    match <i64 as Blob>::dec(s) {
        None => None,
        Some((v1, n1)) => {
            let s1 = s.skip(n1);
            match <String as Blob>::dec(s1) {
                None => None,
                Some((v2, n2)) => {
                    let s2 = s1.skip(n2);
                    match <image as Blob>::dec(s2) {
                        None => None,
                        Some((v3, n3)) => {
                            let s3 = s2.skip(n3);
                            match <String as Blob>::dec(s3) {
                                None => None,
                                Some((v4, n4)) => {
                                    Some((vsStageV { vsStageId: v1, name: v2, image: v3, id: v4 }, n1 + n2 + n3 + n4))
                                },
                            }
                        },
                    }
                },
            }
        },
    }
}

impl Blob for vsStage {
    open spec fn enc_ok(&self) -> bool {
        enc_ok_vsStage(*self)
    }

    open spec fn enc(&self) -> Seq<u8> {
        enc_vsStage(*self)
    }

    open spec fn dec(s: Seq<u8>) -> Option<(vsStageV, int)> {
        dec_vsStage(s)
    }

    proof fn lemma_dec_len(s: Seq<u8>) {
        reveal(dec_vsStage);
        <i64 as Blob>::lemma_dec_len(s);
        match <i64 as Blob>::dec(s) {
            None => {},
            Some((v1, n1)) => {
                let s1 = s.skip(n1);
                <String as Blob>::lemma_dec_len(s1);
                match <String as Blob>::dec(s1) {
                    None => {},
                    Some((v2, n2)) => {
                        let s2 = s1.skip(n2);
                        <image as Blob>::lemma_dec_len(s2);
                        match <image as Blob>::dec(s2) {
                            None => {},
                            Some((v3, n3)) => {
                                let s3 = s2.skip(n3);
                                <String as Blob>::lemma_dec_len(s3);
                            },
                        }
                    },
                }
            },
        }
    }

    proof fn lemma_round_trip(&self, rest: Seq<u8>) {
        reveal(enc_ok_vsStage);
        reveal(enc_vsStage);
        reveal(dec_vsStage);
        let e1 = self.vsStageId.enc();
        let e2 = self.name.enc();
        let e3 = self.image.enc();
        let e4 = self.id.enc();
        let r4 = rest;
        let r3 = e4 + r4;
        let r2 = e3 + r3;
        let r1 = e2 + r2;
        let l1 = e1;
        let l2 = l1 + e2;
        let l3 = l2 + e3;
        let l4 = l3 + e4;
        assert(l4 + r4 =~= l3 + r3);
        assert(l3 + r3 =~= l2 + r2);
        assert(l2 + r2 =~= l1 + r1);
        assert(self.enc() + rest == l1 + r1);
        self.vsStageId.lemma_round_trip(r1);
        lemma_concat_skip(e1, r1);
        self.name.lemma_round_trip(r2);
        lemma_concat_skip(e2, r2);
        self.image.lemma_round_trip(r3);
        lemma_concat_skip(e3, r3);
        self.id.lemma_round_trip(r4);
    }

    fn write(&self, out: &mut Vec<u8>) {
        proof {
            reveal(enc_ok_vsStage);
            reveal(enc_vsStage);
        }
        self.vsStageId.write(out);
        self.name.write(out);
        self.image.write(out);
        self.id.write(out);
        proof {
            let e1 = self.vsStageId.enc();
            let e2 = self.name.enc();
            let e3 = self.image.enc();
            let e4 = self.id.enc();
            let l1 = e1;
            let l2 = l1 + e2;
            let l3 = l2 + e3;
            let l4 = l3 + e4;
            assert((old(out)@ + l1) + e2 =~= old(out)@ + l2);
            assert((old(out)@ + l2) + e3 =~= old(out)@ + l3);
            assert((old(out)@ + l3) + e4 =~= old(out)@ + l4);
            assert(out@ == old(out)@ + self.enc());
        }
    }

    fn read(v: &Vec<u8>, pos: usize) -> (r: Option<(vsStage, usize)>) {
        proof {
            reveal(dec_vsStage);
            <i64 as Blob>::lemma_dec_len(v@.skip(pos as int));
        }
        let (x1, p1) = match <i64 as Blob>::read(v, pos) {
            None => {
                return None;
            },
            Some(q) => q,
        };
        proof {
            lemma_seq_skip_of_skip(v@, pos as int, (p1 - pos) as int);
            <String as Blob>::lemma_dec_len(v@.skip(p1 as int));
        }
        let (x2, p2) = match <String as Blob>::read(v, p1) {
            None => {
                return None;
            },
            Some(q) => q,
        };
        proof {
            lemma_seq_skip_of_skip(v@, p1 as int, (p2 - p1) as int);
            <image as Blob>::lemma_dec_len(v@.skip(p2 as int));
        }
        let (x3, p3) = match <image as Blob>::read(v, p2) {
            None => {
                return None;
            },
            Some(q) => q,
        };
        proof {
            lemma_seq_skip_of_skip(v@, p2 as int, (p3 - p2) as int);
            <String as Blob>::lemma_dec_len(v@.skip(p3 as int));
        }
        let (x4, p4) = match <String as Blob>::read(v, p3) {
            None => {
                return None;
            },
            Some(q) => q,
        };
        Some((vsStage { vsStageId: x1, name: x2, image: x3, id: x4 }, p4))
    }
}

#[verifier::opaque]
pub open spec fn enc_ok_vsRule(x: vsRule) -> bool {
    x.name.enc_ok() && x.rule.enc_ok() && x.id.enc_ok()
}

#[verifier::opaque]
pub open spec fn enc_vsRule(x: vsRule) -> Seq<u8> {
    x.name.enc() + x.rule.enc() + x.id.enc()
}

#[verifier::opaque]
pub open spec fn dec_vsRule(s: Seq<u8>) -> Option<(vsRuleV, int)> {
    match <String as Blob>::dec(s) {
        None => None,
        Some((v1, n1)) => {
            let s1 = s.skip(n1);
            match <String as Blob>::dec(s1) {
                None => None,
                Some((v2, n2)) => {
                    let s2 = s1.skip(n2);
                    match <String as Blob>::dec(s2) {
                        None => None,
                        Some((v3, n3)) => {
                            Some((vsRuleV { name: v1, rule: v2, id: v3 }, n1 + n2 + n3))
                        },
                    }
                },
            }
        },
    }
}

impl Blob for vsRule {
    open spec fn enc_ok(&self) -> bool {
        enc_ok_vsRule(*self)
    }

    open spec fn enc(&self) -> Seq<u8> {
        enc_vsRule(*self)
    }

    open spec fn dec(s: Seq<u8>) -> Option<(vsRuleV, int)> {
        dec_vsRule(s)
    }

    proof fn lemma_dec_len(s: Seq<u8>) {
        reveal(dec_vsRule);
        <String as Blob>::lemma_dec_len(s);
        match <String as Blob>::dec(s) {
            None => {},
            Some((v1, n1)) => {
                let s1 = s.skip(n1);
                <String as Blob>::lemma_dec_len(s1);
                match <String as Blob>::dec(s1) {
                    None => {},
                    Some((v2, n2)) => {
                        let s2 = s1.skip(n2);
                        <String as Blob>::lemma_dec_len(s2);
                    },
                }
            },
        }
    }

    proof fn lemma_round_trip(&self, rest: Seq<u8>) {
        reveal(enc_ok_vsRule);
        reveal(enc_vsRule);
        reveal(dec_vsRule);
        let e1 = self.name.enc();
        let e2 = self.rule.enc();
        let e3 = self.id.enc();
        let r3 = rest;
        let r2 = e3 + r3;
        let r1 = e2 + r2;
        let l1 = e1;
        let l2 = l1 + e2;
        let l3 = l2 + e3;
        assert(l3 + r3 =~= l2 + r2);
        assert(l2 + r2 =~= l1 + r1);
        assert(self.enc() + rest == l1 + r1);
        self.name.lemma_round_trip(r1);
        lemma_concat_skip(e1, r1);
        self.rule.lemma_round_trip(r2);
        lemma_concat_skip(e2, r2);
        self.id.lemma_round_trip(r3);
    }

    fn write(&self, out: &mut Vec<u8>) {
        proof {
            reveal(enc_ok_vsRule);
            reveal(enc_vsRule);
        }
        self.name.write(out);
        self.rule.write(out);
        self.id.write(out);
        proof {
            let e1 = self.name.enc();
            let e2 = self.rule.enc();
            let e3 = self.id.enc();
            let l1 = e1;
            let l2 = l1 + e2;
            let l3 = l2 + e3;
            assert((old(out)@ + l1) + e2 =~= old(out)@ + l2);
            assert((old(out)@ + l2) + e3 =~= old(out)@ + l3);
            assert(out@ == old(out)@ + self.enc());
        }
    }

    fn read(v: &Vec<u8>, pos: usize) -> (r: Option<(vsRule, usize)>) {
        proof {
            reveal(dec_vsRule);
            <String as Blob>::lemma_dec_len(v@.skip(pos as int));
        }
        let (x1, p1) = match <String as Blob>::read(v, pos) {
            None => {
                return None;
            },
            Some(q) => q,
        };
        proof {
            lemma_seq_skip_of_skip(v@, pos as int, (p1 - pos) as int);
            <String as Blob>::lemma_dec_len(v@.skip(p1 as int));
        }
        let (x2, p2) = match <String as Blob>::read(v, p1) {
            None => {
                return None;
            },
            Some(q) => q,
        };
        proof {
            lemma_seq_skip_of_skip(v@, p1 as int, (p2 - p1) as int);
            <String as Blob>::lemma_dec_len(v@.skip(p2 as int));
        }
        let (x3, p3) = match <String as Blob>::read(v, p2) {
            None => {
                return None;
            },
            Some(q) => q,
        };
        Some((vsRule { name: x1, rule: x2, id: x3 }, p3))
    }
}

#[verifier::opaque]
pub open spec fn enc_ok_festMatchSettingsFake(x: festMatchSettingsFake) -> bool {
    x.__typename.enc_ok()
}

#[verifier::opaque]
pub open spec fn enc_festMatchSettingsFake(x: festMatchSettingsFake) -> Seq<u8> {
    x.__typename.enc()
}

#[verifier::opaque]
pub open spec fn dec_festMatchSettingsFake(s: Seq<u8>) -> Option<(festMatchSettingsFakeV, int)> {
    match <String as Blob>::dec(s) {
        None => None,
        Some((v1, n1)) => {
            Some((festMatchSettingsFakeV { __typename: v1 }, n1))
        },
    }
}

impl Blob for festMatchSettingsFake {
    open spec fn enc_ok(&self) -> bool {
        enc_ok_festMatchSettingsFake(*self)
    }

    open spec fn enc(&self) -> Seq<u8> {
        enc_festMatchSettingsFake(*self)
    }

    open spec fn dec(s: Seq<u8>) -> Option<(festMatchSettingsFakeV, int)> {
        dec_festMatchSettingsFake(s)
    }

    proof fn lemma_dec_len(s: Seq<u8>) {
        reveal(dec_festMatchSettingsFake);
        <String as Blob>::lemma_dec_len(s);
    }

    proof fn lemma_round_trip(&self, rest: Seq<u8>) {
        reveal(enc_ok_festMatchSettingsFake);
        reveal(enc_festMatchSettingsFake);
        reveal(dec_festMatchSettingsFake);
        self.__typename.lemma_round_trip(rest);
    }

    fn write(&self, out: &mut Vec<u8>) {
        proof {
            reveal(enc_ok_festMatchSettingsFake);
            reveal(enc_festMatchSettingsFake);
        }
        self.__typename.write(out);
        proof {
            assert(out@ =~= old(out)@ + self.enc());
        }
    }

    fn read(v: &Vec<u8>, pos: usize) -> (r: Option<(festMatchSettingsFake, usize)>) {
        proof {
            reveal(dec_festMatchSettingsFake);
            <String as Blob>::lemma_dec_len(v@.skip(pos as int));
        }
        let (x1, p1) = match <String as Blob>::read(v, pos) {
            None => {
                return None;
            },
            Some(q) => q,
        };
        Some((festMatchSettingsFake { __typename: x1 }, p1))
    }
}

#[verifier::opaque]
pub open spec fn enc_ok_bankaraSchedule(x: bankaraSchedule) -> bool {
    x.startTime.enc_ok() && x.endTime.enc_ok() && x.bankaraMatchSettings.enc_ok() && x.festMatchSetting.enc_ok()
}

#[verifier::opaque]
pub open spec fn enc_bankaraSchedule(x: bankaraSchedule) -> Seq<u8> {
    x.startTime.enc() + x.endTime.enc() + x.bankaraMatchSettings.enc() + x.festMatchSetting.enc()
}

#[verifier::opaque]
pub open spec fn dec_bankaraSchedule(s: Seq<u8>) -> Option<(bankaraScheduleV, int)> {
    match <i64 as Blob>::dec(s) {
        None => None,
        Some((v1, n1)) => {
            let s1 = s.skip(n1);
            match <i64 as Blob>::dec(s1) {
                None => None,
                Some((v2, n2)) => {
                    let s2 = s1.skip(n2);
                    match <Option<pair<bankaraMatchSetting>> as Blob>::dec(s2) {
                        None => None,
                        Some((v3, n3)) => {
                            let s3 = s2.skip(n3);
                            match <Option<pair<festMatchSettingsFake>> as Blob>::dec(s3) {
                                None => None,
                                Some((v4, n4)) => {
                                    Some((bankaraScheduleV { startTime: v1, endTime: v2, bankaraMatchSettings: v3, festMatchSetting: v4 }, n1 + n2 + n3 + n4))
                                },
                            }
                        },
                    }
                },
            }
        },
    }
}

impl Blob for bankaraSchedule {
    open spec fn enc_ok(&self) -> bool {
        enc_ok_bankaraSchedule(*self)
    }

    open spec fn enc(&self) -> Seq<u8> {
        enc_bankaraSchedule(*self)
    }

    open spec fn dec(s: Seq<u8>) -> Option<(bankaraScheduleV, int)> {
        dec_bankaraSchedule(s)
    }

    proof fn lemma_dec_len(s: Seq<u8>) {
        reveal(dec_bankaraSchedule);
        <i64 as Blob>::lemma_dec_len(s);
        match <i64 as Blob>::dec(s) {
            None => {},
            Some((v1, n1)) => {
                let s1 = s.skip(n1);
                <i64 as Blob>::lemma_dec_len(s1);
                match <i64 as Blob>::dec(s1) {
                    None => {},
                    Some((v2, n2)) => {
                        let s2 = s1.skip(n2);
                        <Option<pair<bankaraMatchSetting>> as Blob>::lemma_dec_len(s2);
                        match <Option<pair<bankaraMatchSetting>> as Blob>::dec(s2) {
                            None => {},
                            Some((v3, n3)) => {
                                let s3 = s2.skip(n3);
                                <Option<pair<festMatchSettingsFake>> as Blob>::lemma_dec_len(s3);
                            },
                        }
                    },
                }
            },
        }
    }

    proof fn lemma_round_trip(&self, rest: Seq<u8>) {
        reveal(enc_ok_bankaraSchedule);
        reveal(enc_bankaraSchedule);
        reveal(dec_bankaraSchedule);
        let e1 = self.startTime.enc();
        let e2 = self.endTime.enc();
        let e3 = self.bankaraMatchSettings.enc();
        let e4 = self.festMatchSetting.enc();
        let r4 = rest;
        let r3 = e4 + r4;
        let r2 = e3 + r3;
        let r1 = e2 + r2;
        let l1 = e1;
        let l2 = l1 + e2;
        let l3 = l2 + e3;
        let l4 = l3 + e4;
        assert(l4 + r4 =~= l3 + r3);
        assert(l3 + r3 =~= l2 + r2);
        assert(l2 + r2 =~= l1 + r1);
        assert(self.enc() + rest == l1 + r1);
        self.startTime.lemma_round_trip(r1);
        lemma_concat_skip(e1, r1);
        self.endTime.lemma_round_trip(r2);
        lemma_concat_skip(e2, r2);
        self.bankaraMatchSettings.lemma_round_trip(r3);
        lemma_concat_skip(e3, r3);
        self.festMatchSetting.lemma_round_trip(r4);
    }

    fn write(&self, out: &mut Vec<u8>) {
        proof {
            reveal(enc_ok_bankaraSchedule);
            reveal(enc_bankaraSchedule);
        }
        self.startTime.write(out);
        self.endTime.write(out);
        self.bankaraMatchSettings.write(out);
        self.festMatchSetting.write(out);
        proof {
            let e1 = self.startTime.enc();
            let e2 = self.endTime.enc();
            let e3 = self.bankaraMatchSettings.enc();
            let e4 = self.festMatchSetting.enc();
            let l1 = e1;
            let l2 = l1 + e2;
            let l3 = l2 + e3;
            let l4 = l3 + e4;
            assert((old(out)@ + l1) + e2 =~= old(out)@ + l2);
            assert((old(out)@ + l2) + e3 =~= old(out)@ + l3);
            assert((old(out)@ + l3) + e4 =~= old(out)@ + l4);
            assert(out@ == old(out)@ + self.enc());
        }
    }

    fn read(v: &Vec<u8>, pos: usize) -> (r: Option<(bankaraSchedule, usize)>) {
        proof {
            reveal(dec_bankaraSchedule);
            <i64 as Blob>::lemma_dec_len(v@.skip(pos as int));
        }
        let (x1, p1) = match <i64 as Blob>::read(v, pos) {
            None => {
                return None;
            },
            Some(q) => q,
        };
        proof {
            lemma_seq_skip_of_skip(v@, pos as int, (p1 - pos) as int);
            <i64 as Blob>::lemma_dec_len(v@.skip(p1 as int));
        }
        let (x2, p2) = match <i64 as Blob>::read(v, p1) {
            None => {
                return None;
            },
            Some(q) => q,
        };
        proof {
            lemma_seq_skip_of_skip(v@, p1 as int, (p2 - p1) as int);
            <Option<pair<bankaraMatchSetting>> as Blob>::lemma_dec_len(v@.skip(p2 as int));
        }
        let (x3, p3) = match <Option<pair<bankaraMatchSetting>> as Blob>::read(v, p2) {
            None => {
                return None;
            },
            Some(q) => q,
        };
        proof {
            lemma_seq_skip_of_skip(v@, p2 as int, (p3 - p2) as int);
            <Option<pair<festMatchSettingsFake>> as Blob>::lemma_dec_len(v@.skip(p3 as int));
        }
        let (x4, p4) = match <Option<pair<festMatchSettingsFake>> as Blob>::read(v, p3) {
            None => {
                return None;
            },
            Some(q) => q,
        };
        Some((bankaraSchedule { startTime: x1, endTime: x2, bankaraMatchSettings: x3, festMatchSetting: x4 }, p4))
    }
}

#[verifier::opaque]
pub open spec fn enc_ok_bankaraMatchSetting(x: bankaraMatchSetting) -> bool {
    x.__isVsSetting.enc_ok() && x.__typename.enc_ok() && x.vsStages.enc_ok() && x.vsRule.enc_ok() && x.bankaraMode.enc_ok()
}

#[verifier::opaque]
pub open spec fn enc_bankaraMatchSetting(x: bankaraMatchSetting) -> Seq<u8> {
    x.__isVsSetting.enc() + x.__typename.enc() + x.vsStages.enc() + x.vsRule.enc() + x.bankaraMode.enc()
}

#[verifier::opaque]
pub open spec fn dec_bankaraMatchSetting(s: Seq<u8>) -> Option<(bankaraMatchSettingV, int)> {
    match <String as Blob>::dec(s) {
        None => None,
        Some((v1, n1)) => {
            let s1 = s.skip(n1);
            match <String as Blob>::dec(s1) {
                None => None,
                Some((v2, n2)) => {
                    let s2 = s1.skip(n2);
                    match <pair<vsStage> as Blob>::dec(s2) {
                        None => None,
                        Some((v3, n3)) => {
                            let s3 = s2.skip(n3);
                            match <vsRule as Blob>::dec(s3) {
                                None => None,
                                Some((v4, n4)) => {
                                    let s4 = s3.skip(n4);
                                    match <String as Blob>::dec(s4) {
                                        None => None,
                                        Some((v5, n5)) => {
                                            Some((bankaraMatchSettingV { __isVsSetting: v1, __typename: v2, vsStages: v3, vsRule: v4, bankaraMode: v5 }, n1 + n2 + n3 + n4 + n5))
                                        },
                                    }
                                },
                            }
                        },
                    }
                },
            }
        },
    }
}

impl Blob for bankaraMatchSetting {
    open spec fn enc_ok(&self) -> bool {
        enc_ok_bankaraMatchSetting(*self)
    }

    open spec fn enc(&self) -> Seq<u8> {
        enc_bankaraMatchSetting(*self)
    }

    open spec fn dec(s: Seq<u8>) -> Option<(bankaraMatchSettingV, int)> {
        dec_bankaraMatchSetting(s)
    }

    proof fn lemma_dec_len(s: Seq<u8>) {
        reveal(dec_bankaraMatchSetting);
        <String as Blob>::lemma_dec_len(s);
        match <String as Blob>::dec(s) {
            None => {},
            Some((v1, n1)) => {
                let s1 = s.skip(n1);
                <String as Blob>::lemma_dec_len(s1);
                match <String as Blob>::dec(s1) {
                    None => {},
                    Some((v2, n2)) => {
                        let s2 = s1.skip(n2);
                        <pair<vsStage> as Blob>::lemma_dec_len(s2);
                        match <pair<vsStage> as Blob>::dec(s2) {
                            None => {},
                            Some((v3, n3)) => {
                                let s3 = s2.skip(n3);
                                <vsRule as Blob>::lemma_dec_len(s3);
                                match <vsRule as Blob>::dec(s3) {
                                    None => {},
                                    Some((v4, n4)) => {
                                        let s4 = s3.skip(n4);
                                        <String as Blob>::lemma_dec_len(s4);
                                    },
                                }
                            },
                        }
                    },
                }
            },
        }
    }

    proof fn lemma_round_trip(&self, rest: Seq<u8>) {
        reveal(enc_ok_bankaraMatchSetting);
        reveal(enc_bankaraMatchSetting);
        reveal(dec_bankaraMatchSetting);
        let e1 = self.__isVsSetting.enc();
        let e2 = self.__typename.enc();
        let e3 = self.vsStages.enc();
        let e4 = self.vsRule.enc();
        let e5 = self.bankaraMode.enc();
        let r5 = rest;
        let r4 = e5 + r5;
        let r3 = e4 + r4;
        let r2 = e3 + r3;
        let r1 = e2 + r2;
        let l1 = e1;
        let l2 = l1 + e2;
        let l3 = l2 + e3;
        let l4 = l3 + e4;
        let l5 = l4 + e5;
        assert(l5 + r5 =~= l4 + r4);
        assert(l4 + r4 =~= l3 + r3);
        assert(l3 + r3 =~= l2 + r2);
        assert(l2 + r2 =~= l1 + r1);
        assert(self.enc() + rest == l1 + r1);
        self.__isVsSetting.lemma_round_trip(r1);
        lemma_concat_skip(e1, r1);
        self.__typename.lemma_round_trip(r2);
        lemma_concat_skip(e2, r2);
        self.vsStages.lemma_round_trip(r3);
        lemma_concat_skip(e3, r3);
        self.vsRule.lemma_round_trip(r4);
        lemma_concat_skip(e4, r4);
        self.bankaraMode.lemma_round_trip(r5);
    }

    fn write(&self, out: &mut Vec<u8>) {
        proof {
            reveal(enc_ok_bankaraMatchSetting);
            reveal(enc_bankaraMatchSetting);
        }
        self.__isVsSetting.write(out);
        self.__typename.write(out);
        self.vsStages.write(out);
        self.vsRule.write(out);
        self.bankaraMode.write(out);
        proof {
            let e1 = self.__isVsSetting.enc();
            let e2 = self.__typename.enc();
            let e3 = self.vsStages.enc();
            let e4 = self.vsRule.enc();
            let e5 = self.bankaraMode.enc();
            let l1 = e1;
            let l2 = l1 + e2;
            let l3 = l2 + e3;
            let l4 = l3 + e4;
            let l5 = l4 + e5;
            assert((old(out)@ + l1) + e2 =~= old(out)@ + l2);
            assert((old(out)@ + l2) + e3 =~= old(out)@ + l3);
            assert((old(out)@ + l3) + e4 =~= old(out)@ + l4);
            assert((old(out)@ + l4) + e5 =~= old(out)@ + l5);
            assert(out@ == old(out)@ + self.enc());
        }
    }

    fn read(v: &Vec<u8>, pos: usize) -> (r: Option<(bankaraMatchSetting, usize)>) {
        proof {
            reveal(dec_bankaraMatchSetting);
            <String as Blob>::lemma_dec_len(v@.skip(pos as int));
        }
        let (x1, p1) = match <String as Blob>::read(v, pos) {
            None => {
                return None;
            },
            Some(q) => q,
        };
        proof {
            lemma_seq_skip_of_skip(v@, pos as int, (p1 - pos) as int);
            <String as Blob>::lemma_dec_len(v@.skip(p1 as int));
        }
        let (x2, p2) = match <String as Blob>::read(v, p1) {
            None => {
                return None;
            },
            Some(q) => q,
        };
        proof {
            lemma_seq_skip_of_skip(v@, p1 as int, (p2 - p1) as int);
            <pair<vsStage> as Blob>::lemma_dec_len(v@.skip(p2 as int));
        }
        let (x3, p3) = match <pair<vsStage> as Blob>::read(v, p2) {
            None => {
                return None;
            },
            Some(q) => q,
        };
        proof {
            lemma_seq_skip_of_skip(v@, p2 as int, (p3 - p2) as int);
            <vsRule as Blob>::lemma_dec_len(v@.skip(p3 as int));
        }
        let (x4, p4) = match <vsRule as Blob>::read(v, p3) {
            None => {
                return None;
            },
            Some(q) => q,
        };
        proof {
            lemma_seq_skip_of_skip(v@, p3 as int, (p4 - p3) as int);
            <String as Blob>::lemma_dec_len(v@.skip(p4 as int));
        }
        let (x5, p5) = match <String as Blob>::read(v, p4) {
            None => {
                return None;
            },
            Some(q) => q,
        };
        Some((bankaraMatchSetting { __isVsSetting: x1, __typename: x2, vsStages: x3, vsRule: x4, bankaraMode: x5 }, p5))
    }
}

#[verifier::opaque]
pub open spec fn enc_ok_xSchedule(x: xSchedule) -> bool {
    x.startTime.enc_ok() && x.endTime.enc_ok() && x.xMatchSetting.enc_ok() && x.festMatchSetting.enc_ok()
}

#[verifier::opaque]
pub open spec fn enc_xSchedule(x: xSchedule) -> Seq<u8> {
    x.startTime.enc() + x.endTime.enc() + x.xMatchSetting.enc() + x.festMatchSetting.enc()
}

#[verifier::opaque]
pub open spec fn dec_xSchedule(s: Seq<u8>) -> Option<(xScheduleV, int)> {
    match <i64 as Blob>::dec(s) {
        None => None,
        Some((v1, n1)) => {
            let s1 = s.skip(n1);
            match <i64 as Blob>::dec(s1) {
                None => None,
                Some((v2, n2)) => {
                    let s2 = s1.skip(n2);
                    match <Option<xMatchSetting> as Blob>::dec(s2) {
                        None => None,
                        Some((v3, n3)) => {
                            let s3 = s2.skip(n3);
                            match <Option<pair<festMatchSettingsFake>> as Blob>::dec(s3) {
                                None => None,
                                Some((v4, n4)) => {
                                    Some((xScheduleV { startTime: v1, endTime: v2, xMatchSetting: v3, festMatchSetting: v4 }, n1 + n2 + n3 + n4))
                                },
                            }
                        },
                    }
                },
            }
        },
    }
}

impl Blob for xSchedule {
    open spec fn enc_ok(&self) -> bool {
        enc_ok_xSchedule(*self)
    }

    open spec fn enc(&self) -> Seq<u8> {
        enc_xSchedule(*self)
    }

    open spec fn dec(s: Seq<u8>) -> Option<(xScheduleV, int)> {
        dec_xSchedule(s)
    }

    proof fn lemma_dec_len(s: Seq<u8>) {
        reveal(dec_xSchedule);
        <i64 as Blob>::lemma_dec_len(s);
        match <i64 as Blob>::dec(s) {
            None => {},
            Some((v1, n1)) => {
                let s1 = s.skip(n1);
                <i64 as Blob>::lemma_dec_len(s1);
                match <i64 as Blob>::dec(s1) {
                    None => {},
                    Some((v2, n2)) => {
                        let s2 = s1.skip(n2);
                        <Option<xMatchSetting> as Blob>::lemma_dec_len(s2);
                        match <Option<xMatchSetting> as Blob>::dec(s2) {
                            None => {},
                            Some((v3, n3)) => {
                                let s3 = s2.skip(n3);
                                <Option<pair<festMatchSettingsFake>> as Blob>::lemma_dec_len(s3);
                            },
                        }
                    },
                }
            },
        }
    }

    proof fn lemma_round_trip(&self, rest: Seq<u8>) {
        reveal(enc_ok_xSchedule);
        reveal(enc_xSchedule);
        reveal(dec_xSchedule);
        let e1 = self.startTime.enc();
        let e2 = self.endTime.enc();
        let e3 = self.xMatchSetting.enc();
        let e4 = self.festMatchSetting.enc();
        let r4 = rest;
        let r3 = e4 + r4;
        let r2 = e3 + r3;
        let r1 = e2 + r2;
        let l1 = e1;
        let l2 = l1 + e2;
        let l3 = l2 + e3;
        let l4 = l3 + e4;
        assert(l4 + r4 =~= l3 + r3);
        assert(l3 + r3 =~= l2 + r2);
        assert(l2 + r2 =~= l1 + r1);
        assert(self.enc() + rest == l1 + r1);
        self.startTime.lemma_round_trip(r1);
        lemma_concat_skip(e1, r1);
        self.endTime.lemma_round_trip(r2);
        lemma_concat_skip(e2, r2);
        self.xMatchSetting.lemma_round_trip(r3);
        lemma_concat_skip(e3, r3);
        self.festMatchSetting.lemma_round_trip(r4);
    }

    fn write(&self, out: &mut Vec<u8>) {
        proof {
            reveal(enc_ok_xSchedule);
            reveal(enc_xSchedule);
        }
        self.startTime.write(out);
        self.endTime.write(out);
        self.xMatchSetting.write(out);
        self.festMatchSetting.write(out);
        proof {
            let e1 = self.startTime.enc();
            let e2 = self.endTime.enc();
            let e3 = self.xMatchSetting.enc();
            let e4 = self.festMatchSetting.enc();
            let l1 = e1;
            let l2 = l1 + e2;
            let l3 = l2 + e3;
            let l4 = l3 + e4;
            assert((old(out)@ + l1) + e2 =~= old(out)@ + l2);
            assert((old(out)@ + l2) + e3 =~= old(out)@ + l3);
            assert((old(out)@ + l3) + e4 =~= old(out)@ + l4);
            assert(out@ == old(out)@ + self.enc());
        }
    }

    fn read(v: &Vec<u8>, pos: usize) -> (r: Option<(xSchedule, usize)>) {
        proof {
            reveal(dec_xSchedule);
            <i64 as Blob>::lemma_dec_len(v@.skip(pos as int));
        }
        let (x1, p1) = match <i64 as Blob>::read(v, pos) {
            None => {
                return None;
            },
            Some(q) => q,
        };
        proof {
            lemma_seq_skip_of_skip(v@, pos as int, (p1 - pos) as int);
            <i64 as Blob>::lemma_dec_len(v@.skip(p1 as int));
        }
        let (x2, p2) = match <i64 as Blob>::read(v, p1) {
            None => {
                return None;
            },
            Some(q) => q,
        };
        proof {
            lemma_seq_skip_of_skip(v@, p1 as int, (p2 - p1) as int);
            <Option<xMatchSetting> as Blob>::lemma_dec_len(v@.skip(p2 as int));
        }
        let (x3, p3) = match <Option<xMatchSetting> as Blob>::read(v, p2) {
            None => {
                return None;
            },
            Some(q) => q,
        };
        proof {
            lemma_seq_skip_of_skip(v@, p2 as int, (p3 - p2) as int);
            <Option<pair<festMatchSettingsFake>> as Blob>::lemma_dec_len(v@.skip(p3 as int));
        }
        let (x4, p4) = match <Option<pair<festMatchSettingsFake>> as Blob>::read(v, p3) {
            None => {
                return None;
            },
            Some(q) => q,
        };
        Some((xSchedule { startTime: x1, endTime: x2, xMatchSetting: x3, festMatchSetting: x4 }, p4))
    }
}

#[verifier::opaque]
pub open spec fn enc_ok_xMatchSetting(x: xMatchSetting) -> bool {
    x.__isVsSetting.enc_ok() && x.__typename.enc_ok() && x.vsStages.enc_ok() && x.vsRule.enc_ok()
}

#[verifier::opaque]
pub open spec fn enc_xMatchSetting(x: xMatchSetting) -> Seq<u8> {
    x.__isVsSetting.enc() + x.__typename.enc() + x.vsStages.enc() + x.vsRule.enc()
}

#[verifier::opaque]
pub open spec fn dec_xMatchSetting(s: Seq<u8>) -> Option<(xMatchSettingV, int)> {
    match <String as Blob>::dec(s) {
        None => None,
        Some((v1, n1)) => {
            let s1 = s.skip(n1);
            match <String as Blob>::dec(s1) {
                None => None,
                Some((v2, n2)) => {
                    let s2 = s1.skip(n2);
                    match <pair<vsStage> as Blob>::dec(s2) {
                        None => None,
                        Some((v3, n3)) => {
                            let s3 = s2.skip(n3);
                            match <vsRule as Blob>::dec(s3) {
                                None => None,
                                Some((v4, n4)) => {
                                    Some((xMatchSettingV { __isVsSetting: v1, __typename: v2, vsStages: v3, vsRule: v4 }, n1 + n2 + n3 + n4))
                                },
                            }
                        },
                    }
                },
            }
        },
    }
}

impl Blob for xMatchSetting {
    open spec fn enc_ok(&self) -> bool {
        enc_ok_xMatchSetting(*self)
    }

    open spec fn enc(&self) -> Seq<u8> {
        enc_xMatchSetting(*self)
    }

    open spec fn dec(s: Seq<u8>) -> Option<(xMatchSettingV, int)> {
        dec_xMatchSetting(s)
    }

    proof fn lemma_dec_len(s: Seq<u8>) {
        reveal(dec_xMatchSetting);
        <String as Blob>::lemma_dec_len(s);
        match <String as Blob>::dec(s) {
            None => {},
            Some((v1, n1)) => {
                let s1 = s.skip(n1);
                <String as Blob>::lemma_dec_len(s1);
                match <String as Blob>::dec(s1) {
                    None => {},
                    Some((v2, n2)) => {
                        let s2 = s1.skip(n2);
                        <pair<vsStage> as Blob>::lemma_dec_len(s2);
                        match <pair<vsStage> as Blob>::dec(s2) {
                            None => {},
                            Some((v3, n3)) => {
                                let s3 = s2.skip(n3);
                                <vsRule as Blob>::lemma_dec_len(s3);
                            },
                        }
                    },
                }
            },
        }
    }

    proof fn lemma_round_trip(&self, rest: Seq<u8>) {
        reveal(enc_ok_xMatchSetting);
        reveal(enc_xMatchSetting);
        reveal(dec_xMatchSetting);
        let e1 = self.__isVsSetting.enc();
        let e2 = self.__typename.enc();
        let e3 = self.vsStages.enc();
        let e4 = self.vsRule.enc();
        let r4 = rest;
        let r3 = e4 + r4;
        let r2 = e3 + r3;
        let r1 = e2 + r2;
        let l1 = e1;
        let l2 = l1 + e2;
        let l3 = l2 + e3;
        let l4 = l3 + e4;
        assert(l4 + r4 =~= l3 + r3);
        assert(l3 + r3 =~= l2 + r2);
        assert(l2 + r2 =~= l1 + r1);
        assert(self.enc() + rest == l1 + r1);
        self.__isVsSetting.lemma_round_trip(r1);
        lemma_concat_skip(e1, r1);
        self.__typename.lemma_round_trip(r2);
        lemma_concat_skip(e2, r2);
        self.vsStages.lemma_round_trip(r3);
        lemma_concat_skip(e3, r3);
        self.vsRule.lemma_round_trip(r4);
    }

    fn write(&self, out: &mut Vec<u8>) {
        proof {
            reveal(enc_ok_xMatchSetting);
            reveal(enc_xMatchSetting);
        }
        self.__isVsSetting.write(out);
        self.__typename.write(out);
        self.vsStages.write(out);
        self.vsRule.write(out);
        proof {
            let e1 = self.__isVsSetting.enc();
            let e2 = self.__typename.enc();
            let e3 = self.vsStages.enc();
            let e4 = self.vsRule.enc();
            let l1 = e1;
            let l2 = l1 + e2;
            let l3 = l2 + e3;
            let l4 = l3 + e4;
            assert((old(out)@ + l1) + e2 =~= old(out)@ + l2);
            assert((old(out)@ + l2) + e3 =~= old(out)@ + l3);
            assert((old(out)@ + l3) + e4 =~= old(out)@ + l4);
            assert(out@ == old(out)@ + self.enc());
        }
    }

    fn read(v: &Vec<u8>, pos: usize) -> (r: Option<(xMatchSetting, usize)>) {
        proof {
            reveal(dec_xMatchSetting);
            <String as Blob>::lemma_dec_len(v@.skip(pos as int));
        }
        let (x1, p1) = match <String as Blob>::read(v, pos) {
            None => {
                return None;
            },
            Some(q) => q,
        };
        proof {
            lemma_seq_skip_of_skip(v@, pos as int, (p1 - pos) as int);
            <String as Blob>::lemma_dec_len(v@.skip(p1 as int));
        }
        let (x2, p2) = match <String as Blob>::read(v, p1) {
            None => {
                return None;
            },
            Some(q) => q,
        };
        proof {
            lemma_seq_skip_of_skip(v@, p1 as int, (p2 - p1) as int);
            <pair<vsStage> as Blob>::lemma_dec_len(v@.skip(p2 as int));
        }
        let (x3, p3) = match <pair<vsStage> as Blob>::read(v, p2) {
            None => {
                return None;
            },
            Some(q) => q,
        };
        proof {
            lemma_seq_skip_of_skip(v@, p2 as int, (p3 - p2) as int);
            <vsRule as Blob>::lemma_dec_len(v@.skip(p3 as int));
        }
        let (x4, p4) = match <vsRule as Blob>::read(v, p3) {
            None => {
                return None;
            },
            Some(q) => q,
        };
        Some((xMatchSetting { __isVsSetting: x1, __typename: x2, vsStages: x3, vsRule: x4 }, p4))
    }
}

#[verifier::opaque]
pub open spec fn enc_ok_eventSchedule(x: eventSchedule) -> bool {
    x.leagueMatchSetting.enc_ok() && x.timePeriods.enc_ok()
}

#[verifier::opaque]
pub open spec fn enc_eventSchedule(x: eventSchedule) -> Seq<u8> {
    x.leagueMatchSetting.enc() + x.timePeriods.enc()
}

#[verifier::opaque]
pub open spec fn dec_eventSchedule(s: Seq<u8>) -> Option<(eventScheduleV, int)> {
    match <leagueMatchSetting as Blob>::dec(s) {
        None => None,
        Some((v1, n1)) => {
            let s1 = s.skip(n1);
            match <Vec<timePeriod> as Blob>::dec(s1) {
                None => None,
                Some((v2, n2)) => {
                    Some((eventScheduleV { leagueMatchSetting: v1, timePeriods: v2 }, n1 + n2))
                },
            }
        },
    }
}

impl Blob for eventSchedule {
    open spec fn enc_ok(&self) -> bool {
        enc_ok_eventSchedule(*self)
    }

    open spec fn enc(&self) -> Seq<u8> {
        enc_eventSchedule(*self)
    }

    open spec fn dec(s: Seq<u8>) -> Option<(eventScheduleV, int)> {
        dec_eventSchedule(s)
    }

    proof fn lemma_dec_len(s: Seq<u8>) {
        reveal(dec_eventSchedule);
        <leagueMatchSetting as Blob>::lemma_dec_len(s);
        match <leagueMatchSetting as Blob>::dec(s) {
            None => {},
            Some((v1, n1)) => {
                let s1 = s.skip(n1);
                <Vec<timePeriod> as Blob>::lemma_dec_len(s1);
            },
        }
    }

    proof fn lemma_round_trip(&self, rest: Seq<u8>) {
        reveal(enc_ok_eventSchedule);
        reveal(enc_eventSchedule);
        reveal(dec_eventSchedule);
        let e1 = self.leagueMatchSetting.enc();
        let e2 = self.timePeriods.enc();
        let r2 = rest;
        let r1 = e2 + r2;
        let l1 = e1;
        let l2 = l1 + e2;
        assert(l2 + r2 =~= l1 + r1);
        assert(self.enc() + rest == l1 + r1);
        self.leagueMatchSetting.lemma_round_trip(r1);
        lemma_concat_skip(e1, r1);
        self.timePeriods.lemma_round_trip(r2);
    }

    fn write(&self, out: &mut Vec<u8>) {
        proof {
            reveal(enc_ok_eventSchedule);
            reveal(enc_eventSchedule);
        }
        self.leagueMatchSetting.write(out);
        self.timePeriods.write(out);
        proof {
            let e1 = self.leagueMatchSetting.enc();
            let e2 = self.timePeriods.enc();
            let l1 = e1;
            let l2 = l1 + e2;
            assert((old(out)@ + l1) + e2 =~= old(out)@ + l2);
            assert(out@ == old(out)@ + self.enc());
        }
    }

    fn read(v: &Vec<u8>, pos: usize) -> (r: Option<(eventSchedule, usize)>) {
        proof {
            reveal(dec_eventSchedule);
            <leagueMatchSetting as Blob>::lemma_dec_len(v@.skip(pos as int));
        }
        let (x1, p1) = match <leagueMatchSetting as Blob>::read(v, pos) {
            None => {
                return None;
            },
            Some(q) => q,
        };
        proof {
            lemma_seq_skip_of_skip(v@, pos as int, (p1 - pos) as int);
            <Vec<timePeriod> as Blob>::lemma_dec_len(v@.skip(p1 as int));
        }
        let (x2, p2) = match <Vec<timePeriod> as Blob>::read(v, p1) {
            None => {
                return None;
            },
            Some(q) => q,
        };
        Some((eventSchedule { leagueMatchSetting: x1, timePeriods: x2 }, p2))
    }
}

#[verifier::opaque]
pub open spec fn enc_ok_timePeriod(x: timePeriod) -> bool {
    x.startTime.enc_ok() && x.endTime.enc_ok()
}

#[verifier::opaque]
pub open spec fn enc_timePeriod(x: timePeriod) -> Seq<u8> {
    x.startTime.enc() + x.endTime.enc()
}

#[verifier::opaque]
pub open spec fn dec_timePeriod(s: Seq<u8>) -> Option<(timePeriodV, int)> {
    match <i64 as Blob>::dec(s) {
        None => None,
        Some((v1, n1)) => {
            let s1 = s.skip(n1);
            match <i64 as Blob>::dec(s1) {
                None => None,
                Some((v2, n2)) => {
                    Some((timePeriodV { startTime: v1, endTime: v2 }, n1 + n2))
                },
            }
        },
    }
}

impl Blob for timePeriod {
    open spec fn enc_ok(&self) -> bool {
        enc_ok_timePeriod(*self)
    }

    open spec fn enc(&self) -> Seq<u8> {
        enc_timePeriod(*self)
    }

    open spec fn dec(s: Seq<u8>) -> Option<(timePeriodV, int)> {
        dec_timePeriod(s)
    }

    proof fn lemma_dec_len(s: Seq<u8>) {
        reveal(dec_timePeriod);
        <i64 as Blob>::lemma_dec_len(s);
        match <i64 as Blob>::dec(s) {
            None => {},
            Some((v1, n1)) => {
                let s1 = s.skip(n1);
                <i64 as Blob>::lemma_dec_len(s1);
            },
        }
    }

    proof fn lemma_round_trip(&self, rest: Seq<u8>) {
        reveal(enc_ok_timePeriod);
        reveal(enc_timePeriod);
        reveal(dec_timePeriod);
        let e1 = self.startTime.enc();
        let e2 = self.endTime.enc();
        let r2 = rest;
        let r1 = e2 + r2;
        let l1 = e1;
        let l2 = l1 + e2;
        assert(l2 + r2 =~= l1 + r1);
        assert(self.enc() + rest == l1 + r1);
        self.startTime.lemma_round_trip(r1);
        lemma_concat_skip(e1, r1);
        self.endTime.lemma_round_trip(r2);
    }

    fn write(&self, out: &mut Vec<u8>) {
        proof {
            reveal(enc_ok_timePeriod);
            reveal(enc_timePeriod);
        }
        self.startTime.write(out);
        self.endTime.write(out);
        proof {
            let e1 = self.startTime.enc();
            let e2 = self.endTime.enc();
            let l1 = e1;
            let l2 = l1 + e2;
            assert((old(out)@ + l1) + e2 =~= old(out)@ + l2);
            assert(out@ == old(out)@ + self.enc());
        }
    }

    fn read(v: &Vec<u8>, pos: usize) -> (r: Option<(timePeriod, usize)>) {
        proof {
            reveal(dec_timePeriod);
            <i64 as Blob>::lemma_dec_len(v@.skip(pos as int));
        }
        let (x1, p1) = match <i64 as Blob>::read(v, pos) {
            None => {
                return None;
            },
            Some(q) => q,
        };
        proof {
            lemma_seq_skip_of_skip(v@, pos as int, (p1 - pos) as int);
            <i64 as Blob>::lemma_dec_len(v@.skip(p1 as int));
        }
        let (x2, p2) = match <i64 as Blob>::read(v, p1) {
            None => {
                return None;
            },
            Some(q) => q,
        };
        Some((timePeriod { startTime: x1, endTime: x2 }, p2))
    }
}

#[verifier::opaque]
pub open spec fn enc_ok_leagueMatchSetting(x: leagueMatchSetting) -> bool {
    x.leagueMatchEvent.enc_ok() && x.vsStages.enc_ok() && x.__isVsSetting.enc_ok() && x.__typename.enc_ok() && x.vsRule.enc_ok()
}

#[verifier::opaque]
pub open spec fn enc_leagueMatchSetting(x: leagueMatchSetting) -> Seq<u8> {
    x.leagueMatchEvent.enc() + x.vsStages.enc() + x.__isVsSetting.enc() + x.__typename.enc() + x.vsRule.enc()
}

#[verifier::opaque]
pub open spec fn dec_leagueMatchSetting(s: Seq<u8>) -> Option<(leagueMatchSettingV, int)> {
    match <leagueMatchEvent as Blob>::dec(s) {
        None => None,
        Some((v1, n1)) => {
            let s1 = s.skip(n1);
            match <pair<vsStage> as Blob>::dec(s1) {
                None => None,
                Some((v2, n2)) => {
                    let s2 = s1.skip(n2);
                    match <String as Blob>::dec(s2) {
                        None => None,
                        Some((v3, n3)) => {
                            let s3 = s2.skip(n3);
                            match <String as Blob>::dec(s3) {
                                None => None,
                                Some((v4, n4)) => {
                                    let s4 = s3.skip(n4);
                                    match <Option<vsRule> as Blob>::dec(s4) {
                                        None => None,
                                        Some((v5, n5)) => {
                                            Some((leagueMatchSettingV { leagueMatchEvent: v1, vsStages: v2, __isVsSetting: v3, __typename: v4, vsRule: v5 }, n1 + n2 + n3 + n4 + n5))
                                        },
                                    }
                                },
                            }
                        },
                    }
                },
            }
        },
    }
}

impl Blob for leagueMatchSetting {
    open spec fn enc_ok(&self) -> bool {
        enc_ok_leagueMatchSetting(*self)
    }

    open spec fn enc(&self) -> Seq<u8> {
        enc_leagueMatchSetting(*self)
    }

    open spec fn dec(s: Seq<u8>) -> Option<(leagueMatchSettingV, int)> {
        dec_leagueMatchSetting(s)
    }

    proof fn lemma_dec_len(s: Seq<u8>) {
        reveal(dec_leagueMatchSetting);
        <leagueMatchEvent as Blob>::lemma_dec_len(s);
        match <leagueMatchEvent as Blob>::dec(s) {
            None => {},
            Some((v1, n1)) => {
                let s1 = s.skip(n1);
                <pair<vsStage> as Blob>::lemma_dec_len(s1);
                match <pair<vsStage> as Blob>::dec(s1) {
                    None => {},
                    Some((v2, n2)) => {
                        let s2 = s1.skip(n2);
                        <String as Blob>::lemma_dec_len(s2);
                        match <String as Blob>::dec(s2) {
                            None => {},
                            Some((v3, n3)) => {
                                let s3 = s2.skip(n3);
                                <String as Blob>::lemma_dec_len(s3);
                                match <String as Blob>::dec(s3) {
                                    None => {},
                                    Some((v4, n4)) => {
                                        let s4 = s3.skip(n4);
                                        <Option<vsRule> as Blob>::lemma_dec_len(s4);
                                    },
                                }
                            },
                        }
                    },
                }
            },
        }
    }

    proof fn lemma_round_trip(&self, rest: Seq<u8>) {
        reveal(enc_ok_leagueMatchSetting);
        reveal(enc_leagueMatchSetting);
        reveal(dec_leagueMatchSetting);
        let e1 = self.leagueMatchEvent.enc();
        let e2 = self.vsStages.enc();
        let e3 = self.__isVsSetting.enc();
        let e4 = self.__typename.enc();
        let e5 = self.vsRule.enc();
        let r5 = rest;
        let r4 = e5 + r5;
        let r3 = e4 + r4;
        let r2 = e3 + r3;
        let r1 = e2 + r2;
        let l1 = e1;
        let l2 = l1 + e2;
        let l3 = l2 + e3;
        let l4 = l3 + e4;
        let l5 = l4 + e5;
        assert(l5 + r5 =~= l4 + r4);
        assert(l4 + r4 =~= l3 + r3);
        assert(l3 + r3 =~= l2 + r2);
        assert(l2 + r2 =~= l1 + r1);
        assert(self.enc() + rest == l1 + r1);
        self.leagueMatchEvent.lemma_round_trip(r1);
        lemma_concat_skip(e1, r1);
        self.vsStages.lemma_round_trip(r2);
        lemma_concat_skip(e2, r2);
        self.__isVsSetting.lemma_round_trip(r3);
        lemma_concat_skip(e3, r3);
        self.__typename.lemma_round_trip(r4);
        lemma_concat_skip(e4, r4);
        self.vsRule.lemma_round_trip(r5);
    }

    fn write(&self, out: &mut Vec<u8>) {
        proof {
            reveal(enc_ok_leagueMatchSetting);
            reveal(enc_leagueMatchSetting);
        }
        self.leagueMatchEvent.write(out);
        self.vsStages.write(out);
        self.__isVsSetting.write(out);
        self.__typename.write(out);
        self.vsRule.write(out);
        proof {
            let e1 = self.leagueMatchEvent.enc();
            let e2 = self.vsStages.enc();
            let e3 = self.__isVsSetting.enc();
            let e4 = self.__typename.enc();
            let e5 = self.vsRule.enc();
            let l1 = e1;
            let l2 = l1 + e2;
            let l3 = l2 + e3;
            let l4 = l3 + e4;
            let l5 = l4 + e5;
            assert((old(out)@ + l1) + e2 =~= old(out)@ + l2);
            assert((old(out)@ + l2) + e3 =~= old(out)@ + l3);
            assert((old(out)@ + l3) + e4 =~= old(out)@ + l4);
            assert((old(out)@ + l4) + e5 =~= old(out)@ + l5);
            assert(out@ == old(out)@ + self.enc());
        }
    }

    fn read(v: &Vec<u8>, pos: usize) -> (r: Option<(leagueMatchSetting, usize)>) {
        proof {
            reveal(dec_leagueMatchSetting);
            <leagueMatchEvent as Blob>::lemma_dec_len(v@.skip(pos as int));
        }
        let (x1, p1) = match <leagueMatchEvent as Blob>::read(v, pos) {
            None => {
                return None;
            },
            Some(q) => q,
        };
        proof {
            lemma_seq_skip_of_skip(v@, pos as int, (p1 - pos) as int);
            <pair<vsStage> as Blob>::lemma_dec_len(v@.skip(p1 as int));
        }
        let (x2, p2) = match <pair<vsStage> as Blob>::read(v, p1) {
            None => {
                return None;
            },
            Some(q) => q,
        };
        proof {
            lemma_seq_skip_of_skip(v@, p1 as int, (p2 - p1) as int);
            <String as Blob>::lemma_dec_len(v@.skip(p2 as int));
        }
        let (x3, p3) = match <String as Blob>::read(v, p2) {
            None => {
                return None;
            },
            Some(q) => q,
        };
        proof {
            lemma_seq_skip_of_skip(v@, p2 as int, (p3 - p2) as int);
            <String as Blob>::lemma_dec_len(v@.skip(p3 as int));
        }
        let (x4, p4) = match <String as Blob>::read(v, p3) {
            None => {
                return None;
            },
            Some(q) => q,
        };
        proof {
            lemma_seq_skip_of_skip(v@, p3 as int, (p4 - p3) as int);
            <Option<vsRule> as Blob>::lemma_dec_len(v@.skip(p4 as int));
        }
        let (x5, p5) = match <Option<vsRule> as Blob>::read(v, p4) {
            None => {
                return None;
            },
            Some(q) => q,
        };
        Some((leagueMatchSetting { leagueMatchEvent: x1, vsStages: x2, __isVsSetting: x3, __typename: x4, vsRule: x5 }, p5))
    }
}

#[verifier::opaque]
pub open spec fn enc_ok_leagueMatchEvent(x: leagueMatchEvent) -> bool {
    x.leagueMatchEventId.enc_ok() && x.name.enc_ok() && x.desc.enc_ok() && x.regulationUrl.enc_ok() && x.regulation.enc_ok() && x.id.enc_ok()
}

#[verifier::opaque]
pub open spec fn enc_leagueMatchEvent(x: leagueMatchEvent) -> Seq<u8> {
    x.leagueMatchEventId.enc() + x.name.enc() + x.desc.enc() + x.regulationUrl.enc() + x.regulation.enc() + x.id.enc()
}

#[verifier::opaque]
pub open spec fn dec_leagueMatchEvent(s: Seq<u8>) -> Option<(leagueMatchEventV, int)> {
    match <String as Blob>::dec(s) {
        None => None,
        Some((v1, n1)) => {
            let s1 = s.skip(n1);
            match <String as Blob>::dec(s1) {
                None => None,
                Some((v2, n2)) => {
                    let s2 = s1.skip(n2);
                    match <String as Blob>::dec(s2) {
                        None => None,
                        Some((v3, n3)) => {
                            let s3 = s2.skip(n3);
                            match <Option<String> as Blob>::dec(s3) {
                                None => None,
                                Some((v4, n4)) => {
                                    let s4 = s3.skip(n4);
                                    match <String as Blob>::dec(s4) {
                                        None => None,
                                        Some((v5, n5)) => {
                                            let s5 = s4.skip(n5);
                                            match <String as Blob>::dec(s5) {
                                                None => None,
                                                Some((v6, n6)) => {
                                                    Some((leagueMatchEventV { leagueMatchEventId: v1, name: v2, desc: v3, regulationUrl: v4, regulation: v5, id: v6 }, n1 + n2 + n3 + n4 + n5 + n6))
                                                },
                                            }
                                        },
                                    }
                                },
                            }
                        },
                    }
                },
            }
        },
    }
}

impl Blob for leagueMatchEvent {
    open spec fn enc_ok(&self) -> bool {
        enc_ok_leagueMatchEvent(*self)
    }

    open spec fn enc(&self) -> Seq<u8> {
        enc_leagueMatchEvent(*self)
    }

    open spec fn dec(s: Seq<u8>) -> Option<(leagueMatchEventV, int)> {
        dec_leagueMatchEvent(s)
    }

    proof fn lemma_dec_len(s: Seq<u8>) {
        reveal(dec_leagueMatchEvent);
        <String as Blob>::lemma_dec_len(s);
        match <String as Blob>::dec(s) {
            None => {},
            Some((v1, n1)) => {
                let s1 = s.skip(n1);
                <String as Blob>::lemma_dec_len(s1);
                match <String as Blob>::dec(s1) {
                    None => {},
                    Some((v2, n2)) => {
                        let s2 = s1.skip(n2);
                        <String as Blob>::lemma_dec_len(s2);
                        match <String as Blob>::dec(s2) {
                            None => {},
                            Some((v3, n3)) => {
                                let s3 = s2.skip(n3);
                                <Option<String> as Blob>::lemma_dec_len(s3);
                                match <Option<String> as Blob>::dec(s3) {
                                    None => {},
                                    Some((v4, n4)) => {
                                        let s4 = s3.skip(n4);
                                        <String as Blob>::lemma_dec_len(s4);
                                        match <String as Blob>::dec(s4) {
                                            None => {},
                                            Some((v5, n5)) => {
                                                let s5 = s4.skip(n5);
                                                <String as Blob>::lemma_dec_len(s5);
                                            },
                                        }
                                    },
                                }
                            },
                        }
                    },
                }
            },
        }
    }

    proof fn lemma_round_trip(&self, rest: Seq<u8>) {
        reveal(enc_ok_leagueMatchEvent);
        reveal(enc_leagueMatchEvent);
        reveal(dec_leagueMatchEvent);
        let e1 = self.leagueMatchEventId.enc();
        let e2 = self.name.enc();
        let e3 = self.desc.enc();
        let e4 = self.regulationUrl.enc();
        let e5 = self.regulation.enc();
        let e6 = self.id.enc();
        let r6 = rest;
        let r5 = e6 + r6;
        let r4 = e5 + r5;
        let r3 = e4 + r4;
        let r2 = e3 + r3;
        let r1 = e2 + r2;
        let l1 = e1;
        let l2 = l1 + e2;
        let l3 = l2 + e3;
        let l4 = l3 + e4;
        let l5 = l4 + e5;
        let l6 = l5 + e6;
        assert(l6 + r6 =~= l5 + r5);
        assert(l5 + r5 =~= l4 + r4);
        assert(l4 + r4 =~= l3 + r3);
        assert(l3 + r3 =~= l2 + r2);
        assert(l2 + r2 =~= l1 + r1);
        assert(self.enc() + rest == l1 + r1);
        self.leagueMatchEventId.lemma_round_trip(r1);
        lemma_concat_skip(e1, r1);
        self.name.lemma_round_trip(r2);
        lemma_concat_skip(e2, r2);
        self.desc.lemma_round_trip(r3);
        lemma_concat_skip(e3, r3);
        self.regulationUrl.lemma_round_trip(r4);
        lemma_concat_skip(e4, r4);
        self.regulation.lemma_round_trip(r5);
        lemma_concat_skip(e5, r5);
        self.id.lemma_round_trip(r6);
    }

    fn write(&self, out: &mut Vec<u8>) {
        proof {
            reveal(enc_ok_leagueMatchEvent);
            reveal(enc_leagueMatchEvent);
        }
        self.leagueMatchEventId.write(out);
        self.name.write(out);
        self.desc.write(out);
        self.regulationUrl.write(out);
        self.regulation.write(out);
        self.id.write(out);
        proof {
            let e1 = self.leagueMatchEventId.enc();
            let e2 = self.name.enc();
            let e3 = self.desc.enc();
            let e4 = self.regulationUrl.enc();
            let e5 = self.regulation.enc();
            let e6 = self.id.enc();
            let l1 = e1;
            let l2 = l1 + e2;
            let l3 = l2 + e3;
            let l4 = l3 + e4;
            let l5 = l4 + e5;
            let l6 = l5 + e6;
            assert((old(out)@ + l1) + e2 =~= old(out)@ + l2);
            assert((old(out)@ + l2) + e3 =~= old(out)@ + l3);
            assert((old(out)@ + l3) + e4 =~= old(out)@ + l4);
            assert((old(out)@ + l4) + e5 =~= old(out)@ + l5);
            assert((old(out)@ + l5) + e6 =~= old(out)@ + l6);
            assert(out@ == old(out)@ + self.enc());
        }
    }

    fn read(v: &Vec<u8>, pos: usize) -> (r: Option<(leagueMatchEvent, usize)>) {
        proof {
            reveal(dec_leagueMatchEvent);
            <String as Blob>::lemma_dec_len(v@.skip(pos as int));
        }
        let (x1, p1) = match <String as Blob>::read(v, pos) {
            None => {
                return None;
            },
            Some(q) => q,
        };
        proof {
            lemma_seq_skip_of_skip(v@, pos as int, (p1 - pos) as int);
            <String as Blob>::lemma_dec_len(v@.skip(p1 as int));
        }
        let (x2, p2) = match <String as Blob>::read(v, p1) {
            None => {
                return None;
            },
            Some(q) => q,
        };
        proof {
            lemma_seq_skip_of_skip(v@, p1 as int, (p2 - p1) as int);
            <String as Blob>::lemma_dec_len(v@.skip(p2 as int));
        }
        let (x3, p3) = match <String as Blob>::read(v, p2) {
            None => {
                return None;
            },
            Some(q) => q,
        };
        proof {
            lemma_seq_skip_of_skip(v@, p2 as int, (p3 - p2) as int);
            <Option<String> as Blob>::lemma_dec_len(v@.skip(p3 as int));
        }
        let (x4, p4) = match <Option<String> as Blob>::read(v, p3) {
            None => {
                return None;
            },
            Some(q) => q,
        };
        proof {
            lemma_seq_skip_of_skip(v@, p3 as int, (p4 - p3) as int);
            <String as Blob>::lemma_dec_len(v@.skip(p4 as int));
        }
        let (x5, p5) = match <String as Blob>::read(v, p4) {
            None => {
                return None;
            },
            Some(q) => q,
        };
        proof {
            lemma_seq_skip_of_skip(v@, p4 as int, (p5 - p4) as int);
            <String as Blob>::lemma_dec_len(v@.skip(p5 as int));
        }
        let (x6, p6) = match <String as Blob>::read(v, p5) {
            None => {
                return None;
            },
            Some(q) => q,
        };
        Some((leagueMatchEvent { leagueMatchEventId: x1, name: x2, desc: x3, regulationUrl: x4, regulation: x5, id: x6 }, p6))
    }
}

#[verifier::opaque]
pub open spec fn enc_ok_festSchedule(x: festSchedule) -> bool {
    x.startTime.enc_ok() && x.festMatchSettings.enc_ok() && x.endTime.enc_ok()
}

#[verifier::opaque]
pub open spec fn enc_festSchedule(x: festSchedule) -> Seq<u8> {
    x.startTime.enc() + x.festMatchSettings.enc() + x.endTime.enc()
}

#[verifier::opaque]
pub open spec fn dec_festSchedule(s: Seq<u8>) -> Option<(festScheduleV, int)> {
    match <i64 as Blob>::dec(s) {
        None => None,
        Some((v1, n1)) => {
            let s1 = s.skip(n1);
            match <Option<pair<festMatchSetting>> as Blob>::dec(s1) {
                None => None,
                Some((v2, n2)) => {
                    let s2 = s1.skip(n2);
                    match <i64 as Blob>::dec(s2) {
                        None => None,
                        Some((v3, n3)) => {
                            Some((festScheduleV { startTime: v1, festMatchSettings: v2, endTime: v3 }, n1 + n2 + n3))
                        },
                    }
                },
            }
        },
    }
}

impl Blob for festSchedule {
    open spec fn enc_ok(&self) -> bool {
        enc_ok_festSchedule(*self)
    }

    open spec fn enc(&self) -> Seq<u8> {
        enc_festSchedule(*self)
    }

    open spec fn dec(s: Seq<u8>) -> Option<(festScheduleV, int)> {
        dec_festSchedule(s)
    }

    proof fn lemma_dec_len(s: Seq<u8>) {
        reveal(dec_festSchedule);
        <i64 as Blob>::lemma_dec_len(s);
        match <i64 as Blob>::dec(s) {
            None => {},
            Some((v1, n1)) => {
                let s1 = s.skip(n1);
                <Option<pair<festMatchSetting>> as Blob>::lemma_dec_len(s1);
                match <Option<pair<festMatchSetting>> as Blob>::dec(s1) {
                    None => {},
                    Some((v2, n2)) => {
                        let s2 = s1.skip(n2);
                        <i64 as Blob>::lemma_dec_len(s2);
                    },
                }
            },
        }
    }

    proof fn lemma_round_trip(&self, rest: Seq<u8>) {
        reveal(enc_ok_festSchedule);
        reveal(enc_festSchedule);
        reveal(dec_festSchedule);
        let e1 = self.startTime.enc();
        let e2 = self.festMatchSettings.enc();
        let e3 = self.endTime.enc();
        let r3 = rest;
        let r2 = e3 + r3;
        let r1 = e2 + r2;
        let l1 = e1;
        let l2 = l1 + e2;
        let l3 = l2 + e3;
        assert(l3 + r3 =~= l2 + r2);
        assert(l2 + r2 =~= l1 + r1);
        assert(self.enc() + rest == l1 + r1);
        self.startTime.lemma_round_trip(r1);
        lemma_concat_skip(e1, r1);
        self.festMatchSettings.lemma_round_trip(r2);
        lemma_concat_skip(e2, r2);
        self.endTime.lemma_round_trip(r3);
    }

    fn write(&self, out: &mut Vec<u8>) {
        proof {
            reveal(enc_ok_festSchedule);
            reveal(enc_festSchedule);
        }
        self.startTime.write(out);
        self.festMatchSettings.write(out);
        self.endTime.write(out);
        proof {
            let e1 = self.startTime.enc();
            let e2 = self.festMatchSettings.enc();
            let e3 = self.endTime.enc();
            let l1 = e1;
            let l2 = l1 + e2;
            let l3 = l2 + e3;
            assert((old(out)@ + l1) + e2 =~= old(out)@ + l2);
            assert((old(out)@ + l2) + e3 =~= old(out)@ + l3);
            assert(out@ == old(out)@ + self.enc());
        }
    }

    fn read(v: &Vec<u8>, pos: usize) -> (r: Option<(festSchedule, usize)>) {
        proof {
            reveal(dec_festSchedule);
            <i64 as Blob>::lemma_dec_len(v@.skip(pos as int));
        }
        let (x1, p1) = match <i64 as Blob>::read(v, pos) {
            None => {
                return None;
            },
            Some(q) => q,
        };
        proof {
            lemma_seq_skip_of_skip(v@, pos as int, (p1 - pos) as int);
            <Option<pair<festMatchSetting>> as Blob>::lemma_dec_len(v@.skip(p1 as int));
        }
        let (x2, p2) = match <Option<pair<festMatchSetting>> as Blob>::read(v, p1) {
            None => {
                return None;
            },
            Some(q) => q,
        };
        proof {
            lemma_seq_skip_of_skip(v@, p1 as int, (p2 - p1) as int);
            <i64 as Blob>::lemma_dec_len(v@.skip(p2 as int));
        }
        let (x3, p3) = match <i64 as Blob>::read(v, p2) {
            None => {
                return None;
            },
            Some(q) => q,
        };
        Some((festSchedule { startTime: x1, festMatchSettings: x2, endTime: x3 }, p3))
    }
}

#[verifier::opaque]
pub open spec fn enc_ok_festMatchSetting(x: festMatchSetting) -> bool {
    x.__typename.enc_ok() && x.__isVsSetting.enc_ok() && x.vsStages.enc_ok() && x.vsRule.enc_ok() && x.festMode.enc_ok()
}

#[verifier::opaque]
pub open spec fn enc_festMatchSetting(x: festMatchSetting) -> Seq<u8> {
    x.__typename.enc() + x.__isVsSetting.enc() + x.vsStages.enc() + x.vsRule.enc() + x.festMode.enc()
}

#[verifier::opaque]
pub open spec fn dec_festMatchSetting(s: Seq<u8>) -> Option<(festMatchSettingV, int)> {
    match <String as Blob>::dec(s) {
        None => None,
        Some((v1, n1)) => {
            let s1 = s.skip(n1);
            match <String as Blob>::dec(s1) {
                None => None,
                Some((v2, n2)) => {
                    let s2 = s1.skip(n2);
                    match <pair<vsStage> as Blob>::dec(s2) {
                        None => None,
                        Some((v3, n3)) => {
                            let s3 = s2.skip(n3);
                            match <vsRule as Blob>::dec(s3) {
                                None => None,
                                Some((v4, n4)) => {
                                    let s4 = s3.skip(n4);
                                    match <String as Blob>::dec(s4) {
                                        None => None,
                                        Some((v5, n5)) => {
                                            Some((festMatchSettingV { __typename: v1, __isVsSetting: v2, vsStages: v3, vsRule: v4, festMode: v5 }, n1 + n2 + n3 + n4 + n5))
                                        },
                                    }
                                },
                            }
                        },
                    }
                },
            }
        },
    }
}

impl Blob for festMatchSetting {
    open spec fn enc_ok(&self) -> bool {
        enc_ok_festMatchSetting(*self)
    }

    open spec fn enc(&self) -> Seq<u8> {
        enc_festMatchSetting(*self)
    }

    open spec fn dec(s: Seq<u8>) -> Option<(festMatchSettingV, int)> {
        dec_festMatchSetting(s)
    }

    proof fn lemma_dec_len(s: Seq<u8>) {
        reveal(dec_festMatchSetting);
        <String as Blob>::lemma_dec_len(s);
        match <String as Blob>::dec(s) {
            None => {},
            Some((v1, n1)) => {
                let s1 = s.skip(n1);
                <String as Blob>::lemma_dec_len(s1);
                match <String as Blob>::dec(s1) {
                    None => {},
                    Some((v2, n2)) => {
                        let s2 = s1.skip(n2);
                        <pair<vsStage> as Blob>::lemma_dec_len(s2);
                        match <pair<vsStage> as Blob>::dec(s2) {
                            None => {},
                            Some((v3, n3)) => {
                                let s3 = s2.skip(n3);
                                <vsRule as Blob>::lemma_dec_len(s3);
                                match <vsRule as Blob>::dec(s3) {
                                    None => {},
                                    Some((v4, n4)) => {
                                        let s4 = s3.skip(n4);
                                        <String as Blob>::lemma_dec_len(s4);
                                    },
                                }
                            },
                        }
                    },
                }
            },
        }
    }

    proof fn lemma_round_trip(&self, rest: Seq<u8>) {
        reveal(enc_ok_festMatchSetting);
        reveal(enc_festMatchSetting);
        reveal(dec_festMatchSetting);
        let e1 = self.__typename.enc();
        let e2 = self.__isVsSetting.enc();
        let e3 = self.vsStages.enc();
        let e4 = self.vsRule.enc();
        let e5 = self.festMode.enc();
        let r5 = rest;
        let r4 = e5 + r5;
        let r3 = e4 + r4;
        let r2 = e3 + r3;
        let r1 = e2 + r2;
        let l1 = e1;
        let l2 = l1 + e2;
        let l3 = l2 + e3;
        let l4 = l3 + e4;
        let l5 = l4 + e5;
        assert(l5 + r5 =~= l4 + r4);
        assert(l4 + r4 =~= l3 + r3);
        assert(l3 + r3 =~= l2 + r2);
        assert(l2 + r2 =~= l1 + r1);
        assert(self.enc() + rest == l1 + r1);
        self.__typename.lemma_round_trip(r1);
        lemma_concat_skip(e1, r1);
        self.__isVsSetting.lemma_round_trip(r2);
        lemma_concat_skip(e2, r2);
        self.vsStages.lemma_round_trip(r3);
        lemma_concat_skip(e3, r3);
        self.vsRule.lemma_round_trip(r4);
        lemma_concat_skip(e4, r4);
        self.festMode.lemma_round_trip(r5);
    }

    fn write(&self, out: &mut Vec<u8>) {
        proof {
            reveal(enc_ok_festMatchSetting);
            reveal(enc_festMatchSetting);
        }
        self.__typename.write(out);
        self.__isVsSetting.write(out);
        self.vsStages.write(out);
        self.vsRule.write(out);
        self.festMode.write(out);
        proof {
            let e1 = self.__typename.enc();
            let e2 = self.__isVsSetting.enc();
            let e3 = self.vsStages.enc();
            let e4 = self.vsRule.enc();
            let e5 = self.festMode.enc();
            let l1 = e1;
            let l2 = l1 + e2;
            let l3 = l2 + e3;
            let l4 = l3 + e4;
            let l5 = l4 + e5;
            assert((old(out)@ + l1) + e2 =~= old(out)@ + l2);
            assert((old(out)@ + l2) + e3 =~= old(out)@ + l3);
            assert((old(out)@ + l3) + e4 =~= old(out)@ + l4);
            assert((old(out)@ + l4) + e5 =~= old(out)@ + l5);
            assert(out@ == old(out)@ + self.enc());
        }
    }

    fn read(v: &Vec<u8>, pos: usize) -> (r: Option<(festMatchSetting, usize)>) {
        proof {
            reveal(dec_festMatchSetting);
            <String as Blob>::lemma_dec_len(v@.skip(pos as int));
        }
        let (x1, p1) = match <String as Blob>::read(v, pos) {
            None => {
                return None;
            },
            Some(q) => q,
        };
        proof {
            lemma_seq_skip_of_skip(v@, pos as int, (p1 - pos) as int);
            <String as Blob>::lemma_dec_len(v@.skip(p1 as int));
        }
        let (x2, p2) = match <String as Blob>::read(v, p1) {
            None => {
                return None;
            },
            Some(q) => q,
        };
        proof {
            lemma_seq_skip_of_skip(v@, p1 as int, (p2 - p1) as int);
            <pair<vsStage> as Blob>::lemma_dec_len(v@.skip(p2 as int));
        }
        let (x3, p3) = match <pair<vsStage> as Blob>::read(v, p2) {
            None => {
                return None;
            },
            Some(q) => q,
        };
        proof {
            lemma_seq_skip_of_skip(v@, p2 as int, (p3 - p2) as int);
            <vsRule as Blob>::lemma_dec_len(v@.skip(p3 as int));
        }
        let (x4, p4) = match <vsRule as Blob>::read(v, p3) {
            None => {
                return None;
            },
            Some(q) => q,
        };
        proof {
            lemma_seq_skip_of_skip(v@, p3 as int, (p4 - p3) as int);
            <String as Blob>::lemma_dec_len(v@.skip(p4 as int));
        }
        let (x5, p5) = match <String as Blob>::read(v, p4) {
            None => {
                return None;
            },
            Some(q) => q,
        };
        Some((festMatchSetting { __typename: x1, __isVsSetting: x2, vsStages: x3, vsRule: x4, festMode: x5 }, p5))
    }
}

#[verifier::opaque]
pub open spec fn enc_ok_coopGroupingSchedule(x: coopGroupingSchedule) -> bool {
    x.bannerImage.enc_ok() && x.regularSchedules.enc_ok() && x.bigRunSchedules.enc_ok() && x.teamContestSchedules.enc_ok()
}

#[verifier::opaque]
pub open spec fn enc_coopGroupingSchedule(x: coopGroupingSchedule) -> Seq<u8> {
    x.bannerImage.enc() + x.regularSchedules.enc() + x.bigRunSchedules.enc() + x.teamContestSchedules.enc()
}

#[verifier::opaque]
pub open spec fn dec_coopGroupingSchedule(s: Seq<u8>) -> Option<(coopGroupingScheduleV, int)> {
    match <Option<image> as Blob>::dec(s) {
        None => None,
        Some((v1, n1)) => {
            let s1 = s.skip(n1);
            match <nodes<salmonRunRotation> as Blob>::dec(s1) {
                None => None,
                Some((v2, n2)) => {
                    let s2 = s1.skip(n2);
                    match <nodes<salmonRunRotation> as Blob>::dec(s2) {
                        None => None,
                        Some((v3, n3)) => {
                            let s3 = s2.skip(n3);
                            match <nodes<eggstraWorkRotation> as Blob>::dec(s3) {
                                None => None,
                                Some((v4, n4)) => {
                                    Some((coopGroupingScheduleV { bannerImage: v1, regularSchedules: v2, bigRunSchedules: v3, teamContestSchedules: v4 }, n1 + n2 + n3 + n4))
                                },
                            }
                        },
                    }
                },
            }
        },
    }
}

impl Blob for coopGroupingSchedule {
    open spec fn enc_ok(&self) -> bool {
        enc_ok_coopGroupingSchedule(*self)
    }

    open spec fn enc(&self) -> Seq<u8> {
        enc_coopGroupingSchedule(*self)
    }

    open spec fn dec(s: Seq<u8>) -> Option<(coopGroupingScheduleV, int)> {
        dec_coopGroupingSchedule(s)
    }

    proof fn lemma_dec_len(s: Seq<u8>) {
        reveal(dec_coopGroupingSchedule);
        <Option<image> as Blob>::lemma_dec_len(s);
        match <Option<image> as Blob>::dec(s) {
            None => {},
            Some((v1, n1)) => {
                let s1 = s.skip(n1);
                <nodes<salmonRunRotation> as Blob>::lemma_dec_len(s1);
                match <nodes<salmonRunRotation> as Blob>::dec(s1) {
                    None => {},
                    Some((v2, n2)) => {
                        let s2 = s1.skip(n2);
                        <nodes<salmonRunRotation> as Blob>::lemma_dec_len(s2);
                        match <nodes<salmonRunRotation> as Blob>::dec(s2) {
                            None => {},
                            Some((v3, n3)) => {
                                let s3 = s2.skip(n3);
                                <nodes<eggstraWorkRotation> as Blob>::lemma_dec_len(s3);
                            },
                        }
                    },
                }
            },
        }
    }

    proof fn lemma_round_trip(&self, rest: Seq<u8>) {
        reveal(enc_ok_coopGroupingSchedule);
        reveal(enc_coopGroupingSchedule);
        reveal(dec_coopGroupingSchedule);
        let e1 = self.bannerImage.enc();
        let e2 = self.regularSchedules.enc();
        let e3 = self.bigRunSchedules.enc();
        let e4 = self.teamContestSchedules.enc();
        let r4 = rest;
        let r3 = e4 + r4;
        let r2 = e3 + r3;
        let r1 = e2 + r2;
        let l1 = e1;
        let l2 = l1 + e2;
        let l3 = l2 + e3;
        let l4 = l3 + e4;
        assert(l4 + r4 =~= l3 + r3);
        assert(l3 + r3 =~= l2 + r2);
        assert(l2 + r2 =~= l1 + r1);
        assert(self.enc() + rest == l1 + r1);
        self.bannerImage.lemma_round_trip(r1);
        lemma_concat_skip(e1, r1);
        self.regularSchedules.lemma_round_trip(r2);
        lemma_concat_skip(e2, r2);
        self.bigRunSchedules.lemma_round_trip(r3);
        lemma_concat_skip(e3, r3);
        self.teamContestSchedules.lemma_round_trip(r4);
    }

    fn write(&self, out: &mut Vec<u8>) {
        proof {
            reveal(enc_ok_coopGroupingSchedule);
            reveal(enc_coopGroupingSchedule);
        }
        self.bannerImage.write(out);
        self.regularSchedules.write(out);
        self.bigRunSchedules.write(out);
        self.teamContestSchedules.write(out);
        proof {
            let e1 = self.bannerImage.enc();
            let e2 = self.regularSchedules.enc();
            let e3 = self.bigRunSchedules.enc();
            let e4 = self.teamContestSchedules.enc();
            let l1 = e1;
            let l2 = l1 + e2;
            let l3 = l2 + e3;
            let l4 = l3 + e4;
            assert((old(out)@ + l1) + e2 =~= old(out)@ + l2);
            assert((old(out)@ + l2) + e3 =~= old(out)@ + l3);
            assert((old(out)@ + l3) + e4 =~= old(out)@ + l4);
            assert(out@ == old(out)@ + self.enc());
        }
    }

    fn read(v: &Vec<u8>, pos: usize) -> (r: Option<(coopGroupingSchedule, usize)>) {
        proof {
            reveal(dec_coopGroupingSchedule);
            <Option<image> as Blob>::lemma_dec_len(v@.skip(pos as int));
        }
        let (x1, p1) = match <Option<image> as Blob>::read(v, pos) {
            None => {
                return None;
            },
            Some(q) => q,
        };
        proof {
            lemma_seq_skip_of_skip(v@, pos as int, (p1 - pos) as int);
            <nodes<salmonRunRotation> as Blob>::lemma_dec_len(v@.skip(p1 as int));
        }
        let (x2, p2) = match <nodes<salmonRunRotation> as Blob>::read(v, p1) {
            None => {
                return None;
            },
            Some(q) => q,
        };
        proof {
            lemma_seq_skip_of_skip(v@, p1 as int, (p2 - p1) as int);
            <nodes<salmonRunRotation> as Blob>::lemma_dec_len(v@.skip(p2 as int));
        }
        let (x3, p3) = match <nodes<salmonRunRotation> as Blob>::read(v, p2) {
            None => {
                return None;
            },
            Some(q) => q,
        };
        proof {
            lemma_seq_skip_of_skip(v@, p2 as int, (p3 - p2) as int);
            <nodes<eggstraWorkRotation> as Blob>::lemma_dec_len(v@.skip(p3 as int));
        }
        let (x4, p4) = match <nodes<eggstraWorkRotation> as Blob>::read(v, p3) {
            None => {
                return None;
            },
            Some(q) => q,
        };
        Some((coopGroupingSchedule { bannerImage: x1, regularSchedules: x2, bigRunSchedules: x3, teamContestSchedules: x4 }, p4))
    }
}

#[verifier::opaque]
pub open spec fn enc_ok_salmonRunRotation(x: salmonRunRotation) -> bool {
    x.startTime.enc_ok() && x.endTime.enc_ok() && x.setting.enc_ok() && x.__splatoon3ink_king_salmonid_guess.enc_ok()
}

#[verifier::opaque]
pub open spec fn enc_salmonRunRotation(x: salmonRunRotation) -> Seq<u8> {
    x.startTime.enc() + x.endTime.enc() + x.setting.enc() + x.__splatoon3ink_king_salmonid_guess.enc()
}

#[verifier::opaque]
pub open spec fn dec_salmonRunRotation(s: Seq<u8>) -> Option<(salmonRunRotationV, int)> {
    match <i64 as Blob>::dec(s) {
        None => None,
        Some((v1, n1)) => {
            let s1 = s.skip(n1);
            match <i64 as Blob>::dec(s1) {
                None => None,
                Some((v2, n2)) => {
                    let s2 = s1.skip(n2);
                    match <salmonRunSetting as Blob>::dec(s2) {
                        None => None,
                        Some((v3, n3)) => {
                            let s3 = s2.skip(n3);
                            match <String as Blob>::dec(s3) {
                                None => None,
                                Some((v4, n4)) => {
                                    Some((salmonRunRotationV { startTime: v1, endTime: v2, setting: v3, __splatoon3ink_king_salmonid_guess: v4 }, n1 + n2 + n3 + n4))
                                },
                            }
                        },
                    }
                },
            }
        },
    }
}

impl Blob for salmonRunRotation {
    open spec fn enc_ok(&self) -> bool {
        enc_ok_salmonRunRotation(*self)
    }

    open spec fn enc(&self) -> Seq<u8> {
        enc_salmonRunRotation(*self)
    }

    open spec fn dec(s: Seq<u8>) -> Option<(salmonRunRotationV, int)> {
        dec_salmonRunRotation(s)
    }

    proof fn lemma_dec_len(s: Seq<u8>) {
        reveal(dec_salmonRunRotation);
        <i64 as Blob>::lemma_dec_len(s);
        match <i64 as Blob>::dec(s) {
            None => {},
            Some((v1, n1)) => {
                let s1 = s.skip(n1);
                <i64 as Blob>::lemma_dec_len(s1);
                match <i64 as Blob>::dec(s1) {
                    None => {},
                    Some((v2, n2)) => {
                        let s2 = s1.skip(n2);
                        <salmonRunSetting as Blob>::lemma_dec_len(s2);
                        match <salmonRunSetting as Blob>::dec(s2) {
                            None => {},
                            Some((v3, n3)) => {
                                let s3 = s2.skip(n3);
                                <String as Blob>::lemma_dec_len(s3);
                            },
                        }
                    },
                }
            },
        }
    }

    proof fn lemma_round_trip(&self, rest: Seq<u8>) {
        reveal(enc_ok_salmonRunRotation);
        reveal(enc_salmonRunRotation);
        reveal(dec_salmonRunRotation);
        let e1 = self.startTime.enc();
        let e2 = self.endTime.enc();
        let e3 = self.setting.enc();
        let e4 = self.__splatoon3ink_king_salmonid_guess.enc();
        let r4 = rest;
        let r3 = e4 + r4;
        let r2 = e3 + r3;
        let r1 = e2 + r2;
        let l1 = e1;
        let l2 = l1 + e2;
        let l3 = l2 + e3;
        let l4 = l3 + e4;
        assert(l4 + r4 =~= l3 + r3);
        assert(l3 + r3 =~= l2 + r2);
        assert(l2 + r2 =~= l1 + r1);
        assert(self.enc() + rest == l1 + r1);
        self.startTime.lemma_round_trip(r1);
        lemma_concat_skip(e1, r1);
        self.endTime.lemma_round_trip(r2);
        lemma_concat_skip(e2, r2);
        self.setting.lemma_round_trip(r3);
        lemma_concat_skip(e3, r3);
        self.__splatoon3ink_king_salmonid_guess.lemma_round_trip(r4);
    }

    fn write(&self, out: &mut Vec<u8>) {
        proof {
            reveal(enc_ok_salmonRunRotation);
            reveal(enc_salmonRunRotation);
        }
        self.startTime.write(out);
        self.endTime.write(out);
        self.setting.write(out);
        self.__splatoon3ink_king_salmonid_guess.write(out);
        proof {
            let e1 = self.startTime.enc();
            let e2 = self.endTime.enc();
            let e3 = self.setting.enc();
            let e4 = self.__splatoon3ink_king_salmonid_guess.enc();
            let l1 = e1;
            let l2 = l1 + e2;
            let l3 = l2 + e3;
            let l4 = l3 + e4;
            assert((old(out)@ + l1) + e2 =~= old(out)@ + l2);
            assert((old(out)@ + l2) + e3 =~= old(out)@ + l3);
            assert((old(out)@ + l3) + e4 =~= old(out)@ + l4);
            assert(out@ == old(out)@ + self.enc());
        }
    }

    fn read(v: &Vec<u8>, pos: usize) -> (r: Option<(salmonRunRotation, usize)>) {
        proof {
            reveal(dec_salmonRunRotation);
            <i64 as Blob>::lemma_dec_len(v@.skip(pos as int));
        }
        let (x1, p1) = match <i64 as Blob>::read(v, pos) {
            None => {
                return None;
            },
            Some(q) => q,
        };
        proof {
            lemma_seq_skip_of_skip(v@, pos as int, (p1 - pos) as int);
            <i64 as Blob>::lemma_dec_len(v@.skip(p1 as int));
        }
        let (x2, p2) = match <i64 as Blob>::read(v, p1) {
            None => {
                return None;
            },
            Some(q) => q,
        };
        proof {
            lemma_seq_skip_of_skip(v@, p1 as int, (p2 - p1) as int);
            <salmonRunSetting as Blob>::lemma_dec_len(v@.skip(p2 as int));
        }
        let (x3, p3) = match <salmonRunSetting as Blob>::read(v, p2) {
            None => {
                return None;
            },
            Some(q) => q,
        };
        proof {
            lemma_seq_skip_of_skip(v@, p2 as int, (p3 - p2) as int);
            <String as Blob>::lemma_dec_len(v@.skip(p3 as int));
        }
        let (x4, p4) = match <String as Blob>::read(v, p3) {
            None => {
                return None;
            },
            Some(q) => q,
        };
        Some((salmonRunRotation { startTime: x1, endTime: x2, setting: x3, __splatoon3ink_king_salmonid_guess: x4 }, p4))
    }
}

#[verifier::opaque]
pub open spec fn enc_ok_salmonRunSetting(x: salmonRunSetting) -> bool {
    x.__typename.enc_ok() && x.coopStage.enc_ok() && x.__isCoopSetting.enc_ok() && x.weapons.enc_ok()
}

#[verifier::opaque]
pub open spec fn enc_salmonRunSetting(x: salmonRunSetting) -> Seq<u8> {
    x.__typename.enc() + x.coopStage.enc() + x.__isCoopSetting.enc() + x.weapons.enc()
}

#[verifier::opaque]
pub open spec fn dec_salmonRunSetting(s: Seq<u8>) -> Option<(salmonRunSettingV, int)> {
    match <String as Blob>::dec(s) {
        None => None,
        Some((v1, n1)) => {
            let s1 = s.skip(n1);
            match <coopStage as Blob>::dec(s1) {
                None => None,
                Some((v2, n2)) => {
                    let s2 = s1.skip(n2);
                    match <String as Blob>::dec(s2) {
                        None => None,
                        Some((v3, n3)) => {
                            let s3 = s2.skip(n3);
                            match <Vec<weapon> as Blob>::dec(s3) {
                                None => None,
                                Some((v4, n4)) => {
                                    Some((salmonRunSettingV { __typename: v1, coopStage: v2, __isCoopSetting: v3, weapons: v4 }, n1 + n2 + n3 + n4))
                                },
                            }
                        },
                    }
                },
            }
        },
    }
}

impl Blob for salmonRunSetting {
    open spec fn enc_ok(&self) -> bool {
        enc_ok_salmonRunSetting(*self)
    }

    open spec fn enc(&self) -> Seq<u8> {
        enc_salmonRunSetting(*self)
    }

    open spec fn dec(s: Seq<u8>) -> Option<(salmonRunSettingV, int)> {
        dec_salmonRunSetting(s)
    }

    proof fn lemma_dec_len(s: Seq<u8>) {
        reveal(dec_salmonRunSetting);
        <String as Blob>::lemma_dec_len(s);
        match <String as Blob>::dec(s) {
            None => {},
            Some((v1, n1)) => {
                let s1 = s.skip(n1);
                <coopStage as Blob>::lemma_dec_len(s1);
                match <coopStage as Blob>::dec(s1) {
                    None => {},
                    Some((v2, n2)) => {
                        let s2 = s1.skip(n2);
                        <String as Blob>::lemma_dec_len(s2);
                        match <String as Blob>::dec(s2) {
                            None => {},
                            Some((v3, n3)) => {
                                let s3 = s2.skip(n3);
                                <Vec<weapon> as Blob>::lemma_dec_len(s3);
                            },
                        }
                    },
                }
            },
        }
    }

    proof fn lemma_round_trip(&self, rest: Seq<u8>) {
        reveal(enc_ok_salmonRunSetting);
        reveal(enc_salmonRunSetting);
        reveal(dec_salmonRunSetting);
        let e1 = self.__typename.enc();
        let e2 = self.coopStage.enc();
        let e3 = self.__isCoopSetting.enc();
        let e4 = self.weapons.enc();
        let r4 = rest;
        let r3 = e4 + r4;
        let r2 = e3 + r3;
        let r1 = e2 + r2;
        let l1 = e1;
        let l2 = l1 + e2;
        let l3 = l2 + e3;
        let l4 = l3 + e4;
        assert(l4 + r4 =~= l3 + r3);
        assert(l3 + r3 =~= l2 + r2);
        assert(l2 + r2 =~= l1 + r1);
        assert(self.enc() + rest == l1 + r1);
        self.__typename.lemma_round_trip(r1);
        lemma_concat_skip(e1, r1);
        self.coopStage.lemma_round_trip(r2);
        lemma_concat_skip(e2, r2);
        self.__isCoopSetting.lemma_round_trip(r3);
        lemma_concat_skip(e3, r3);
        self.weapons.lemma_round_trip(r4);
    }

    fn write(&self, out: &mut Vec<u8>) {
        proof {
            reveal(enc_ok_salmonRunSetting);
            reveal(enc_salmonRunSetting);
        }
        self.__typename.write(out);
        self.coopStage.write(out);
        self.__isCoopSetting.write(out);
        self.weapons.write(out);
        proof {
            let e1 = self.__typename.enc();
            let e2 = self.coopStage.enc();
            let e3 = self.__isCoopSetting.enc();
            let e4 = self.weapons.enc();
            let l1 = e1;
            let l2 = l1 + e2;
            let l3 = l2 + e3;
            let l4 = l3 + e4;
            assert((old(out)@ + l1) + e2 =~= old(out)@ + l2);
            assert((old(out)@ + l2) + e3 =~= old(out)@ + l3);
            assert((old(out)@ + l3) + e4 =~= old(out)@ + l4);
            assert(out@ == old(out)@ + self.enc());
        }
    }

    fn read(v: &Vec<u8>, pos: usize) -> (r: Option<(salmonRunSetting, usize)>) {
        proof {
            reveal(dec_salmonRunSetting);
            <String as Blob>::lemma_dec_len(v@.skip(pos as int));
        }
        let (x1, p1) = match <String as Blob>::read(v, pos) {
            None => {
                return None;
            },
            Some(q) => q,
        };
        proof {
            lemma_seq_skip_of_skip(v@, pos as int, (p1 - pos) as int);
            <coopStage as Blob>::lemma_dec_len(v@.skip(p1 as int));
        }
        let (x2, p2) = match <coopStage as Blob>::read(v, p1) {
            None => {
                return None;
            },
            Some(q) => q,
        };
        proof {
            lemma_seq_skip_of_skip(v@, p1 as int, (p2 - p1) as int);
            <String as Blob>::lemma_dec_len(v@.skip(p2 as int));
        }
        let (x3, p3) = match <String as Blob>::read(v, p2) {
            None => {
                return None;
            },
            Some(q) => q,
        };
        proof {
            lemma_seq_skip_of_skip(v@, p2 as int, (p3 - p2) as int);
            <Vec<weapon> as Blob>::lemma_dec_len(v@.skip(p3 as int));
        }
        let (x4, p4) = match <Vec<weapon> as Blob>::read(v, p3) {
            None => {
                return None;
            },
            Some(q) => q,
        };
        Some((salmonRunSetting { __typename: x1, coopStage: x2, __isCoopSetting: x3, weapons: x4 }, p4))
    }
}

#[verifier::opaque]
pub open spec fn enc_ok_coopStage(x: coopStage) -> bool {
    x.name.enc_ok() && x.thumbnailImage.enc_ok() && x.image.enc_ok() && x.id.enc_ok()
}

#[verifier::opaque]
pub open spec fn enc_coopStage(x: coopStage) -> Seq<u8> {
    x.name.enc() + x.thumbnailImage.enc() + x.image.enc() + x.id.enc()
}

#[verifier::opaque]
pub open spec fn dec_coopStage(s: Seq<u8>) -> Option<(coopStageV, int)> {
    match <String as Blob>::dec(s) {
        None => None,
        Some((v1, n1)) => {
            let s1 = s.skip(n1);
            match <image as Blob>::dec(s1) {
                None => None,
                Some((v2, n2)) => {
                    let s2 = s1.skip(n2);
                    match <image as Blob>::dec(s2) {
                        None => None,
                        Some((v3, n3)) => {
                            let s3 = s2.skip(n3);
                            match <String as Blob>::dec(s3) {
                                None => None,
                                Some((v4, n4)) => {
                                    Some((coopStageV { name: v1, thumbnailImage: v2, image: v3, id: v4 }, n1 + n2 + n3 + n4))
                                },
                            }
                        },
                    }
                },
            }
        },
    }
}

impl Blob for coopStage {
    open spec fn enc_ok(&self) -> bool {
        enc_ok_coopStage(*self)
    }

    open spec fn enc(&self) -> Seq<u8> {
        enc_coopStage(*self)
    }

    open spec fn dec(s: Seq<u8>) -> Option<(coopStageV, int)> {
        dec_coopStage(s)
    }

    proof fn lemma_dec_len(s: Seq<u8>) {
        reveal(dec_coopStage);
        <String as Blob>::lemma_dec_len(s);
        match <String as Blob>::dec(s) {
            None => {},
            Some((v1, n1)) => {
                let s1 = s.skip(n1);
                <image as Blob>::lemma_dec_len(s1);
                match <image as Blob>::dec(s1) {
                    None => {},
                    Some((v2, n2)) => {
                        let s2 = s1.skip(n2);
                        <image as Blob>::lemma_dec_len(s2);
                        match <image as Blob>::dec(s2) {
                            None => {},
                            Some((v3, n3)) => {
                                let s3 = s2.skip(n3);
                                <String as Blob>::lemma_dec_len(s3);
                            },
                        }
                    },
                }
            },
        }
    }

    proof fn lemma_round_trip(&self, rest: Seq<u8>) {
        reveal(enc_ok_coopStage);
        reveal(enc_coopStage);
        reveal(dec_coopStage);
        let e1 = self.name.enc();
        let e2 = self.thumbnailImage.enc();
        let e3 = self.image.enc();
        let e4 = self.id.enc();
        let r4 = rest;
        let r3 = e4 + r4;
        let r2 = e3 + r3;
        let r1 = e2 + r2;
        let l1 = e1;
        let l2 = l1 + e2;
        let l3 = l2 + e3;
        let l4 = l3 + e4;
        assert(l4 + r4 =~= l3 + r3);
        assert(l3 + r3 =~= l2 + r2);
        assert(l2 + r2 =~= l1 + r1);
        assert(self.enc() + rest == l1 + r1);
        self.name.lemma_round_trip(r1);
        lemma_concat_skip(e1, r1);
        self.thumbnailImage.lemma_round_trip(r2);
        lemma_concat_skip(e2, r2);
        self.image.lemma_round_trip(r3);
        lemma_concat_skip(e3, r3);
        self.id.lemma_round_trip(r4);
    }

    fn write(&self, out: &mut Vec<u8>) {
        proof {
            reveal(enc_ok_coopStage);
            reveal(enc_coopStage);
        }
        self.name.write(out);
        self.thumbnailImage.write(out);
        self.image.write(out);
        self.id.write(out);
        proof {
            let e1 = self.name.enc();
            let e2 = self.thumbnailImage.enc();
            let e3 = self.image.enc();
            let e4 = self.id.enc();
            let l1 = e1;
            let l2 = l1 + e2;
            let l3 = l2 + e3;
            let l4 = l3 + e4;
            assert((old(out)@ + l1) + e2 =~= old(out)@ + l2);
            assert((old(out)@ + l2) + e3 =~= old(out)@ + l3);
            assert((old(out)@ + l3) + e4 =~= old(out)@ + l4);
            assert(out@ == old(out)@ + self.enc());
        }
    }

    fn read(v: &Vec<u8>, pos: usize) -> (r: Option<(coopStage, usize)>) {
        proof {
            reveal(dec_coopStage);
            <String as Blob>::lemma_dec_len(v@.skip(pos as int));
        }
        let (x1, p1) = match <String as Blob>::read(v, pos) {
            None => {
                return None;
            },
            Some(q) => q,
        };
        proof {
            lemma_seq_skip_of_skip(v@, pos as int, (p1 - pos) as int);
            <image as Blob>::lemma_dec_len(v@.skip(p1 as int));
        }
        let (x2, p2) = match <image as Blob>::read(v, p1) {
            None => {
                return None;
            },
            Some(q) => q,
        };
        proof {
            lemma_seq_skip_of_skip(v@, p1 as int, (p2 - p1) as int);
            <image as Blob>::lemma_dec_len(v@.skip(p2 as int));
        }
        let (x3, p3) = match <image as Blob>::read(v, p2) {
            None => {
                return None;
            },
            Some(q) => q,
        };
        proof {
            lemma_seq_skip_of_skip(v@, p2 as int, (p3 - p2) as int);
            <String as Blob>::lemma_dec_len(v@.skip(p3 as int));
        }
        let (x4, p4) = match <String as Blob>::read(v, p3) {
            None => {
                return None;
            },
            Some(q) => q,
        };
        Some((coopStage { name: x1, thumbnailImage: x2, image: x3, id: x4 }, p4))
    }
}

#[verifier::opaque]
pub open spec fn enc_ok_weapon(x: weapon) -> bool {
    x.__splatoon3ink_id.enc_ok() && x.name.enc_ok() && x.image.enc_ok()
}

#[verifier::opaque]
pub open spec fn enc_weapon(x: weapon) -> Seq<u8> {
    x.__splatoon3ink_id.enc() + x.name.enc() + x.image.enc()
}

#[verifier::opaque]
pub open spec fn dec_weapon(s: Seq<u8>) -> Option<(weaponV, int)> {
    match <String as Blob>::dec(s) {
        None => None,
        Some((v1, n1)) => {
            let s1 = s.skip(n1);
            match <String as Blob>::dec(s1) {
                None => None,
                Some((v2, n2)) => {
                    let s2 = s1.skip(n2);
                    match <image as Blob>::dec(s2) {
                        None => None,
                        Some((v3, n3)) => {
                            Some((weaponV { __splatoon3ink_id: v1, name: v2, image: v3 }, n1 + n2 + n3))
                        },
                    }
                },
            }
        },
    }
}

impl Blob for weapon {
    open spec fn enc_ok(&self) -> bool {
        enc_ok_weapon(*self)
    }

    open spec fn enc(&self) -> Seq<u8> {
        enc_weapon(*self)
    }

    open spec fn dec(s: Seq<u8>) -> Option<(weaponV, int)> {
        dec_weapon(s)
    }

    proof fn lemma_dec_len(s: Seq<u8>) {
        reveal(dec_weapon);
        <String as Blob>::lemma_dec_len(s);
        match <String as Blob>::dec(s) {
            None => {},
            Some((v1, n1)) => {
                let s1 = s.skip(n1);
                <String as Blob>::lemma_dec_len(s1);
                match <String as Blob>::dec(s1) {
                    None => {},
                    Some((v2, n2)) => {
                        let s2 = s1.skip(n2);
                        <image as Blob>::lemma_dec_len(s2);
                    },
                }
            },
        }
    }

    proof fn lemma_round_trip(&self, rest: Seq<u8>) {
        reveal(enc_ok_weapon);
        reveal(enc_weapon);
        reveal(dec_weapon);
        let e1 = self.__splatoon3ink_id.enc();
        let e2 = self.name.enc();
        let e3 = self.image.enc();
        let r3 = rest;
        let r2 = e3 + r3;
        let r1 = e2 + r2;
        let l1 = e1;
        let l2 = l1 + e2;
        let l3 = l2 + e3;
        assert(l3 + r3 =~= l2 + r2);
        assert(l2 + r2 =~= l1 + r1);
        assert(self.enc() + rest == l1 + r1);
        self.__splatoon3ink_id.lemma_round_trip(r1);
        lemma_concat_skip(e1, r1);
        self.name.lemma_round_trip(r2);
        lemma_concat_skip(e2, r2);
        self.image.lemma_round_trip(r3);
    }

    fn write(&self, out: &mut Vec<u8>) {
        proof {
            reveal(enc_ok_weapon);
            reveal(enc_weapon);
        }
        self.__splatoon3ink_id.write(out);
        self.name.write(out);
        self.image.write(out);
        proof {
            let e1 = self.__splatoon3ink_id.enc();
            let e2 = self.name.enc();
            let e3 = self.image.enc();
            let l1 = e1;
            let l2 = l1 + e2;
            let l3 = l2 + e3;
            assert((old(out)@ + l1) + e2 =~= old(out)@ + l2);
            assert((old(out)@ + l2) + e3 =~= old(out)@ + l3);
            assert(out@ == old(out)@ + self.enc());
        }
    }

    fn read(v: &Vec<u8>, pos: usize) -> (r: Option<(weapon, usize)>) {
        proof {
            reveal(dec_weapon);
            <String as Blob>::lemma_dec_len(v@.skip(pos as int));
        }
        let (x1, p1) = match <String as Blob>::read(v, pos) {
            None => {
                return None;
            },
            Some(q) => q,
        };
        proof {
            lemma_seq_skip_of_skip(v@, pos as int, (p1 - pos) as int);
            <String as Blob>::lemma_dec_len(v@.skip(p1 as int));
        }
        let (x2, p2) = match <String as Blob>::read(v, p1) {
            None => {
                return None;
            },
            Some(q) => q,
        };
        proof {
            lemma_seq_skip_of_skip(v@, p1 as int, (p2 - p1) as int);
            <image as Blob>::lemma_dec_len(v@.skip(p2 as int));
        }
        let (x3, p3) = match <image as Blob>::read(v, p2) {
            None => {
                return None;
            },
            Some(q) => q,
        };
        Some((weapon { __splatoon3ink_id: x1, name: x2, image: x3 }, p3))
    }
}

#[verifier::opaque]
pub open spec fn enc_ok_eggstraWorkRotation(x: eggstraWorkRotation) -> bool {
    x.startTime.enc_ok() && x.endTime.enc_ok() && x.setting.enc_ok()
}

#[verifier::opaque]
pub open spec fn enc_eggstraWorkRotation(x: eggstraWorkRotation) -> Seq<u8> {
    x.startTime.enc() + x.endTime.enc() + x.setting.enc()
}

#[verifier::opaque]
pub open spec fn dec_eggstraWorkRotation(s: Seq<u8>) -> Option<(eggstraWorkRotationV, int)> {
    match <i64 as Blob>::dec(s) {
        None => None,
        Some((v1, n1)) => {
            let s1 = s.skip(n1);
            match <i64 as Blob>::dec(s1) {
                None => None,
                Some((v2, n2)) => {
                    let s2 = s1.skip(n2);
                    match <salmonRunSetting as Blob>::dec(s2) {
                        None => None,
                        Some((v3, n3)) => {
                            Some((eggstraWorkRotationV { startTime: v1, endTime: v2, setting: v3 }, n1 + n2 + n3))
                        },
                    }
                },
            }
        },
    }
}

impl Blob for eggstraWorkRotation {
    open spec fn enc_ok(&self) -> bool {
        enc_ok_eggstraWorkRotation(*self)
    }

    open spec fn enc(&self) -> Seq<u8> {
        enc_eggstraWorkRotation(*self)
    }

    open spec fn dec(s: Seq<u8>) -> Option<(eggstraWorkRotationV, int)> {
        dec_eggstraWorkRotation(s)
    }

    proof fn lemma_dec_len(s: Seq<u8>) {
        reveal(dec_eggstraWorkRotation);
        <i64 as Blob>::lemma_dec_len(s);
        match <i64 as Blob>::dec(s) {
            None => {},
            Some((v1, n1)) => {
                let s1 = s.skip(n1);
                <i64 as Blob>::lemma_dec_len(s1);
                match <i64 as Blob>::dec(s1) {
                    None => {},
                    Some((v2, n2)) => {
                        let s2 = s1.skip(n2);
                        <salmonRunSetting as Blob>::lemma_dec_len(s2);
                    },
                }
            },
        }
    }

    proof fn lemma_round_trip(&self, rest: Seq<u8>) {
        reveal(enc_ok_eggstraWorkRotation);
        reveal(enc_eggstraWorkRotation);
        reveal(dec_eggstraWorkRotation);
        let e1 = self.startTime.enc();
        let e2 = self.endTime.enc();
        let e3 = self.setting.enc();
        let r3 = rest;
        let r2 = e3 + r3;
        let r1 = e2 + r2;
        let l1 = e1;
        let l2 = l1 + e2;
        let l3 = l2 + e3;
        assert(l3 + r3 =~= l2 + r2);
        assert(l2 + r2 =~= l1 + r1);
        assert(self.enc() + rest == l1 + r1);
        self.startTime.lemma_round_trip(r1);
        lemma_concat_skip(e1, r1);
        self.endTime.lemma_round_trip(r2);
        lemma_concat_skip(e2, r2);
        self.setting.lemma_round_trip(r3);
    }

    fn write(&self, out: &mut Vec<u8>) {
        proof {
            reveal(enc_ok_eggstraWorkRotation);
            reveal(enc_eggstraWorkRotation);
        }
        self.startTime.write(out);
        self.endTime.write(out);
        self.setting.write(out);
        proof {
            let e1 = self.startTime.enc();
            let e2 = self.endTime.enc();
            let e3 = self.setting.enc();
            let l1 = e1;
            let l2 = l1 + e2;
            let l3 = l2 + e3;
            assert((old(out)@ + l1) + e2 =~= old(out)@ + l2);
            assert((old(out)@ + l2) + e3 =~= old(out)@ + l3);
            assert(out@ == old(out)@ + self.enc());
        }
    }

    fn read(v: &Vec<u8>, pos: usize) -> (r: Option<(eggstraWorkRotation, usize)>) {
        proof {
            reveal(dec_eggstraWorkRotation);
            <i64 as Blob>::lemma_dec_len(v@.skip(pos as int));
        }
        let (x1, p1) = match <i64 as Blob>::read(v, pos) {
            None => {
                return None;
            },
            Some(q) => q,
        };
        proof {
            lemma_seq_skip_of_skip(v@, pos as int, (p1 - pos) as int);
            <i64 as Blob>::lemma_dec_len(v@.skip(p1 as int));
        }
        let (x2, p2) = match <i64 as Blob>::read(v, p1) {
            None => {
                return None;
            },
            Some(q) => q,
        };
        proof {
            lemma_seq_skip_of_skip(v@, p1 as int, (p2 - p1) as int);
            <salmonRunSetting as Blob>::lemma_dec_len(v@.skip(p2 as int));
        }
        let (x3, p3) = match <salmonRunSetting as Blob>::read(v, p2) {
            None => {
                return None;
            },
            Some(q) => q,
        };
        Some((eggstraWorkRotation { startTime: x1, endTime: x2, setting: x3 }, p3))
    }
}

#[verifier::opaque]
pub open spec fn enc_ok_currentFest(x: currentFest) -> bool {
    x.id.enc_ok() && x.title.enc_ok() && x.startTime.enc_ok() && x.endTime.enc_ok() && x.midtermTime.enc_ok() && x.state.enc_ok() && x.teams.enc_ok() && x.tricolorStage.enc_ok()
}

#[verifier::opaque]
pub open spec fn enc_currentFest(x: currentFest) -> Seq<u8> {
    x.id.enc() + x.title.enc() + x.startTime.enc() + x.endTime.enc() + x.midtermTime.enc() + x.state.enc() + x.teams.enc() + x.tricolorStage.enc()
}

#[verifier::opaque]
pub open spec fn dec_currentFest(s: Seq<u8>) -> Option<(currentFestV, int)> {
    match <String as Blob>::dec(s) {
        None => None,
        Some((v1, n1)) => {
            let s1 = s.skip(n1);
            match <String as Blob>::dec(s1) {
                None => None,
                Some((v2, n2)) => {
                    let s2 = s1.skip(n2);
                    match <i64 as Blob>::dec(s2) {
                        None => None,
                        Some((v3, n3)) => {
                            let s3 = s2.skip(n3);
                            match <i64 as Blob>::dec(s3) {
                                None => None,
                                Some((v4, n4)) => {
                                    let s4 = s3.skip(n4);
                                    match <i64 as Blob>::dec(s4) {
                                        None => None,
                                        Some((v5, n5)) => {
                                            let s5 = s4.skip(n5);
                                            match <String as Blob>::dec(s5) {
                                                None => None,
                                                Some((v6, n6)) => {
                                                    let s6 = s5.skip(n6);
                                                    match <trio<team> as Blob>::dec(s6) {
                                                        None => None,
                                                        Some((v7, n7)) => {
                                                            let s7 = s6.skip(n7);
                                                            match <tricolorStage as Blob>::dec(s7) {
                                                                None => None,
                                                                Some((v8, n8)) => {
                                                                    Some((currentFestV { id: v1, title: v2, startTime: v3, endTime: v4, midtermTime: v5, state: v6, teams: v7, tricolorStage: v8 }, n1 + n2 + n3 + n4 + n5 + n6 + n7 + n8))
                                                                },
                                                            }
                                                        },
                                                    }
                                                },
                                            }
                                        },
                                    }
                                },
                            }
                        },
                    }
                },
            }
        },
    }
}

impl Blob for currentFest {
    open spec fn enc_ok(&self) -> bool {
        enc_ok_currentFest(*self)
    }

    open spec fn enc(&self) -> Seq<u8> {
        enc_currentFest(*self)
    }

    open spec fn dec(s: Seq<u8>) -> Option<(currentFestV, int)> {
        dec_currentFest(s)
    }

    proof fn lemma_dec_len(s: Seq<u8>) {
        reveal(dec_currentFest);
        <String as Blob>::lemma_dec_len(s);
        match <String as Blob>::dec(s) {
            None => {},
            Some((v1, n1)) => {
                let s1 = s.skip(n1);
                <String as Blob>::lemma_dec_len(s1);
                match <String as Blob>::dec(s1) {
                    None => {},
                    Some((v2, n2)) => {
                        let s2 = s1.skip(n2);
                        <i64 as Blob>::lemma_dec_len(s2);
                        match <i64 as Blob>::dec(s2) {
                            None => {},
                            Some((v3, n3)) => {
                                let s3 = s2.skip(n3);
                                <i64 as Blob>::lemma_dec_len(s3);
                                match <i64 as Blob>::dec(s3) {
                                    None => {},
                                    Some((v4, n4)) => {
                                        let s4 = s3.skip(n4);
                                        <i64 as Blob>::lemma_dec_len(s4);
                                        match <i64 as Blob>::dec(s4) {
                                            None => {},
                                            Some((v5, n5)) => {
                                                let s5 = s4.skip(n5);
                                                <String as Blob>::lemma_dec_len(s5);
                                                match <String as Blob>::dec(s5) {
                                                    None => {},
                                                    Some((v6, n6)) => {
                                                        let s6 = s5.skip(n6);
                                                        <trio<team> as Blob>::lemma_dec_len(s6);
                                                        match <trio<team> as Blob>::dec(s6) {
                                                            None => {},
                                                            Some((v7, n7)) => {
                                                                let s7 = s6.skip(n7);
                                                                <tricolorStage as Blob>::lemma_dec_len(s7);
                                                            },
                                                        }
                                                    },
                                                }
                                            },
                                        }
                                    },
                                }
                            },
                        }
                    },
                }
            },
        }
    }

    #[verifier::rlimit(100)]
    #[verifier::spinoff_prover]
    proof fn lemma_round_trip(&self, rest: Seq<u8>) {
        reveal(enc_ok_currentFest);
        reveal(enc_currentFest);
        reveal(dec_currentFest);
        let e1 = self.id.enc();
        let e2 = self.title.enc();
        let e3 = self.startTime.enc();
        let e4 = self.endTime.enc();
        let e5 = self.midtermTime.enc();
        let e6 = self.state.enc();
        let e7 = self.teams.enc();
        let e8 = self.tricolorStage.enc();
        let r8 = rest;
        let r7 = e8 + r8;
        let r6 = e7 + r7;
        let r5 = e6 + r6;
        let r4 = e5 + r5;
        let r3 = e4 + r4;
        let r2 = e3 + r3;
        let r1 = e2 + r2;
        let l1 = e1;
        let l2 = l1 + e2;
        let l3 = l2 + e3;
        let l4 = l3 + e4;
        let l5 = l4 + e5;
        let l6 = l5 + e6;
        let l7 = l6 + e7;
        let l8 = l7 + e8;
        assert(l8 + r8 =~= l7 + r7);
        assert(l7 + r7 =~= l6 + r6);
        assert(l6 + r6 =~= l5 + r5);
        assert(l5 + r5 =~= l4 + r4);
        assert(l4 + r4 =~= l3 + r3);
        assert(l3 + r3 =~= l2 + r2);
        assert(l2 + r2 =~= l1 + r1);
        assert(self.enc() + rest == l1 + r1);
        self.id.lemma_round_trip(r1);
        lemma_concat_skip(e1, r1);
        self.title.lemma_round_trip(r2);
        lemma_concat_skip(e2, r2);
        self.startTime.lemma_round_trip(r3);
        lemma_concat_skip(e3, r3);
        self.endTime.lemma_round_trip(r4);
        lemma_concat_skip(e4, r4);
        self.midtermTime.lemma_round_trip(r5);
        lemma_concat_skip(e5, r5);
        self.state.lemma_round_trip(r6);
        lemma_concat_skip(e6, r6);
        self.teams.lemma_round_trip(r7);
        lemma_concat_skip(e7, r7);
        self.tricolorStage.lemma_round_trip(r8);
    }

    #[verifier::rlimit(100)]
    #[verifier::spinoff_prover]
    fn write(&self, out: &mut Vec<u8>) {
        proof {
            reveal(enc_ok_currentFest);
            reveal(enc_currentFest);
        }
        self.id.write(out);
        self.title.write(out);
        self.startTime.write(out);
        self.endTime.write(out);
        self.midtermTime.write(out);
        self.state.write(out);
        self.teams.write(out);
        self.tricolorStage.write(out);
        proof {
            let e1 = self.id.enc();
            let e2 = self.title.enc();
            let e3 = self.startTime.enc();
            let e4 = self.endTime.enc();
            let e5 = self.midtermTime.enc();
            let e6 = self.state.enc();
            let e7 = self.teams.enc();
            let e8 = self.tricolorStage.enc();
            let l1 = e1;
            let l2 = l1 + e2;
            let l3 = l2 + e3;
            let l4 = l3 + e4;
            let l5 = l4 + e5;
            let l6 = l5 + e6;
            let l7 = l6 + e7;
            let l8 = l7 + e8;
            assert((old(out)@ + l1) + e2 =~= old(out)@ + l2);
            assert((old(out)@ + l2) + e3 =~= old(out)@ + l3);
            assert((old(out)@ + l3) + e4 =~= old(out)@ + l4);
            assert((old(out)@ + l4) + e5 =~= old(out)@ + l5);
            assert((old(out)@ + l5) + e6 =~= old(out)@ + l6);
            assert((old(out)@ + l6) + e7 =~= old(out)@ + l7);
            assert((old(out)@ + l7) + e8 =~= old(out)@ + l8);
            assert(out@ == old(out)@ + self.enc());
        }
    }

    #[verifier::rlimit(100)]
    #[verifier::spinoff_prover]
    fn read(v: &Vec<u8>, pos: usize) -> (r: Option<(currentFest, usize)>) {
        proof {
            reveal(dec_currentFest);
            <String as Blob>::lemma_dec_len(v@.skip(pos as int));
        }
        let (x1, p1) = match <String as Blob>::read(v, pos) {
            None => {
                return None;
            },
            Some(q) => q,
        };
        proof {
            lemma_seq_skip_of_skip(v@, pos as int, (p1 - pos) as int);
            <String as Blob>::lemma_dec_len(v@.skip(p1 as int));
        }
        let (x2, p2) = match <String as Blob>::read(v, p1) {
            None => {
                return None;
            },
            Some(q) => q,
        };
        proof {
            lemma_seq_skip_of_skip(v@, p1 as int, (p2 - p1) as int);
            <i64 as Blob>::lemma_dec_len(v@.skip(p2 as int));
        }
        let (x3, p3) = match <i64 as Blob>::read(v, p2) {
            None => {
                return None;
            },
            Some(q) => q,
        };
        proof {
            lemma_seq_skip_of_skip(v@, p2 as int, (p3 - p2) as int);
            <i64 as Blob>::lemma_dec_len(v@.skip(p3 as int));
        }
        let (x4, p4) = match <i64 as Blob>::read(v, p3) {
            None => {
                return None;
            },
            Some(q) => q,
        };
        proof {
            lemma_seq_skip_of_skip(v@, p3 as int, (p4 - p3) as int);
            <i64 as Blob>::lemma_dec_len(v@.skip(p4 as int));
        }
        let (x5, p5) = match <i64 as Blob>::read(v, p4) {
            None => {
                return None;
            },
            Some(q) => q,
        };
        proof {
            lemma_seq_skip_of_skip(v@, p4 as int, (p5 - p4) as int);
            <String as Blob>::lemma_dec_len(v@.skip(p5 as int));
        }
        let (x6, p6) = match <String as Blob>::read(v, p5) {
            None => {
                return None;
            },
            Some(q) => q,
        };
        proof {
            lemma_seq_skip_of_skip(v@, p5 as int, (p6 - p5) as int);
            <trio<team> as Blob>::lemma_dec_len(v@.skip(p6 as int));
        }
        let (x7, p7) = match <trio<team> as Blob>::read(v, p6) {
            None => {
                return None;
            },
            Some(q) => q,
        };
        proof {
            lemma_seq_skip_of_skip(v@, p6 as int, (p7 - p6) as int);
            <tricolorStage as Blob>::lemma_dec_len(v@.skip(p7 as int));
        }
        let (x8, p8) = match <tricolorStage as Blob>::read(v, p7) {
            None => {
                return None;
            },
            Some(q) => q,
        };
        Some((currentFest { id: x1, title: x2, startTime: x3, endTime: x4, midtermTime: x5, state: x6, teams: x7, tricolorStage: x8 }, p8))
    }
}

#[verifier::opaque]
pub open spec fn enc_ok_team(x: team) -> bool {
    x.id.enc_ok() && x.color.enc_ok() && x.myVoteState.enc_ok()
}

#[verifier::opaque]
pub open spec fn enc_team(x: team) -> Seq<u8> {
    x.id.enc() + x.color.enc() + x.myVoteState.enc()
}

#[verifier::opaque]
pub open spec fn dec_team(s: Seq<u8>) -> Option<(teamV, int)> {
    match <String as Blob>::dec(s) {
        None => None,
        Some((v1, n1)) => {
            let s1 = s.skip(n1);
            match <Color as Blob>::dec(s1) {
                None => None,
                Some((v2, n2)) => {
                    let s2 = s1.skip(n2);
                    match <Option<()> as Blob>::dec(s2) {
                        None => None,
                        Some((v3, n3)) => {
                            Some((teamV { id: v1, color: v2, myVoteState: v3 }, n1 + n2 + n3))
                        },
                    }
                },
            }
        },
    }
}

impl Blob for team {
    open spec fn enc_ok(&self) -> bool {
        enc_ok_team(*self)
    }

    open spec fn enc(&self) -> Seq<u8> {
        enc_team(*self)
    }

    open spec fn dec(s: Seq<u8>) -> Option<(teamV, int)> {
        dec_team(s)
    }

    proof fn lemma_dec_len(s: Seq<u8>) {
        reveal(dec_team);
        <String as Blob>::lemma_dec_len(s);
        match <String as Blob>::dec(s) {
            None => {},
            Some((v1, n1)) => {
                let s1 = s.skip(n1);
                <Color as Blob>::lemma_dec_len(s1);
                match <Color as Blob>::dec(s1) {
                    None => {},
                    Some((v2, n2)) => {
                        let s2 = s1.skip(n2);
                        <Option<()> as Blob>::lemma_dec_len(s2);
                    },
                }
            },
        }
    }

    proof fn lemma_round_trip(&self, rest: Seq<u8>) {
        reveal(enc_ok_team);
        reveal(enc_team);
        reveal(dec_team);
        let e1 = self.id.enc();
        let e2 = self.color.enc();
        let e3 = self.myVoteState.enc();
        let r3 = rest;
        let r2 = e3 + r3;
        let r1 = e2 + r2;
        let l1 = e1;
        let l2 = l1 + e2;
        let l3 = l2 + e3;
        assert(l3 + r3 =~= l2 + r2);
        assert(l2 + r2 =~= l1 + r1);
        assert(self.enc() + rest == l1 + r1);
        self.id.lemma_round_trip(r1);
        lemma_concat_skip(e1, r1);
        self.color.lemma_round_trip(r2);
        lemma_concat_skip(e2, r2);
        self.myVoteState.lemma_round_trip(r3);
    }

    fn write(&self, out: &mut Vec<u8>) {
        proof {
            reveal(enc_ok_team);
            reveal(enc_team);
        }
        self.id.write(out);
        self.color.write(out);
        self.myVoteState.write(out);
        proof {
            let e1 = self.id.enc();
            let e2 = self.color.enc();
            let e3 = self.myVoteState.enc();
            let l1 = e1;
            let l2 = l1 + e2;
            let l3 = l2 + e3;
            assert((old(out)@ + l1) + e2 =~= old(out)@ + l2);
            assert((old(out)@ + l2) + e3 =~= old(out)@ + l3);
            assert(out@ == old(out)@ + self.enc());
        }
    }

    fn read(v: &Vec<u8>, pos: usize) -> (r: Option<(team, usize)>) {
        proof {
            reveal(dec_team);
            <String as Blob>::lemma_dec_len(v@.skip(pos as int));
        }
        let (x1, p1) = match <String as Blob>::read(v, pos) {
            None => {
                return None;
            },
            Some(q) => q,
        };
        proof {
            lemma_seq_skip_of_skip(v@, pos as int, (p1 - pos) as int);
            <Color as Blob>::lemma_dec_len(v@.skip(p1 as int));
        }
        let (x2, p2) = match <Color as Blob>::read(v, p1) {
            None => {
                return None;
            },
            Some(q) => q,
        };
        proof {
            lemma_seq_skip_of_skip(v@, p1 as int, (p2 - p1) as int);
            <Option<()> as Blob>::lemma_dec_len(v@.skip(p2 as int));
        }
        let (x3, p3) = match <Option<()> as Blob>::read(v, p2) {
            None => {
                return None;
            },
            Some(q) => q,
        };
        Some((team { id: x1, color: x2, myVoteState: x3 }, p3))
    }
}

#[verifier::opaque]
pub open spec fn enc_ok_tricolorStage(x: tricolorStage) -> bool {
    x.name.enc_ok() && x.image.enc_ok() && x.id.enc_ok()
}

#[verifier::opaque]
pub open spec fn enc_tricolorStage(x: tricolorStage) -> Seq<u8> {
    x.name.enc() + x.image.enc() + x.id.enc()
}

#[verifier::opaque]
pub open spec fn dec_tricolorStage(s: Seq<u8>) -> Option<(tricolorStageV, int)> {
    match <String as Blob>::dec(s) {
        None => None,
        Some((v1, n1)) => {
            let s1 = s.skip(n1);
            match <image as Blob>::dec(s1) {
                None => None,
                Some((v2, n2)) => {
                    let s2 = s1.skip(n2);
                    match <String as Blob>::dec(s2) {
                        None => None,
                        Some((v3, n3)) => {
                            Some((tricolorStageV { name: v1, image: v2, id: v3 }, n1 + n2 + n3))
                        },
                    }
                },
            }
        },
    }
}

impl Blob for tricolorStage {
    open spec fn enc_ok(&self) -> bool {
        enc_ok_tricolorStage(*self)
    }

    open spec fn enc(&self) -> Seq<u8> {
        enc_tricolorStage(*self)
    }

    open spec fn dec(s: Seq<u8>) -> Option<(tricolorStageV, int)> {
        dec_tricolorStage(s)
    }

    proof fn lemma_dec_len(s: Seq<u8>) {
        reveal(dec_tricolorStage);
        <String as Blob>::lemma_dec_len(s);
        match <String as Blob>::dec(s) {
            None => {},
            Some((v1, n1)) => {
                let s1 = s.skip(n1);
                <image as Blob>::lemma_dec_len(s1);
                match <image as Blob>::dec(s1) {
                    None => {},
                    Some((v2, n2)) => {
                        let s2 = s1.skip(n2);
                        <String as Blob>::lemma_dec_len(s2);
                    },
                }
            },
        }
    }

    proof fn lemma_round_trip(&self, rest: Seq<u8>) {
        reveal(enc_ok_tricolorStage);
        reveal(enc_tricolorStage);
        reveal(dec_tricolorStage);
        let e1 = self.name.enc();
        let e2 = self.image.enc();
        let e3 = self.id.enc();
        let r3 = rest;
        let r2 = e3 + r3;
        let r1 = e2 + r2;
        let l1 = e1;
        let l2 = l1 + e2;
        let l3 = l2 + e3;
        assert(l3 + r3 =~= l2 + r2);
        assert(l2 + r2 =~= l1 + r1);
        assert(self.enc() + rest == l1 + r1);
        self.name.lemma_round_trip(r1);
        lemma_concat_skip(e1, r1);
        self.image.lemma_round_trip(r2);
        lemma_concat_skip(e2, r2);
        self.id.lemma_round_trip(r3);
    }

    fn write(&self, out: &mut Vec<u8>) {
        proof {
            reveal(enc_ok_tricolorStage);
            reveal(enc_tricolorStage);
        }
        self.name.write(out);
        self.image.write(out);
        self.id.write(out);
        proof {
            let e1 = self.name.enc();
            let e2 = self.image.enc();
            let e3 = self.id.enc();
            let l1 = e1;
            let l2 = l1 + e2;
            let l3 = l2 + e3;
            assert((old(out)@ + l1) + e2 =~= old(out)@ + l2);
            assert((old(out)@ + l2) + e3 =~= old(out)@ + l3);
            assert(out@ == old(out)@ + self.enc());
        }
    }

    fn read(v: &Vec<u8>, pos: usize) -> (r: Option<(tricolorStage, usize)>) {
        proof {
            reveal(dec_tricolorStage);
            <String as Blob>::lemma_dec_len(v@.skip(pos as int));
        }
        let (x1, p1) = match <String as Blob>::read(v, pos) {
            None => {
                return None;
            },
            Some(q) => q,
        };
        proof {
            lemma_seq_skip_of_skip(v@, pos as int, (p1 - pos) as int);
            <image as Blob>::lemma_dec_len(v@.skip(p1 as int));
        }
        let (x2, p2) = match <image as Blob>::read(v, p1) {
            None => {
                return None;
            },
            Some(q) => q,
        };
        proof {
            lemma_seq_skip_of_skip(v@, p1 as int, (p2 - p1) as int);
            <String as Blob>::lemma_dec_len(v@.skip(p2 as int));
        }
        let (x3, p3) = match <String as Blob>::read(v, p2) {
            None => {
                return None;
            },
            Some(q) => q,
        };
        Some((tricolorStage { name: x1, image: x2, id: x3 }, p3))
    }
}

#[verifier::opaque]
pub open spec fn enc_ok_Player(x: Player) -> bool {
    x.userIcon.enc_ok()
}

#[verifier::opaque]
pub open spec fn enc_Player(x: Player) -> Seq<u8> {
    x.userIcon.enc()
}

#[verifier::opaque]
pub open spec fn dec_Player(s: Seq<u8>) -> Option<(PlayerV, int)> {
    match <image as Blob>::dec(s) {
        None => None,
        Some((v1, n1)) => {
            Some((PlayerV { userIcon: v1 }, n1))
        },
    }
}

impl Blob for Player {
    open spec fn enc_ok(&self) -> bool {
        enc_ok_Player(*self)
    }

    open spec fn enc(&self) -> Seq<u8> {
        enc_Player(*self)
    }

    open spec fn dec(s: Seq<u8>) -> Option<(PlayerV, int)> {
        dec_Player(s)
    }

    proof fn lemma_dec_len(s: Seq<u8>) {
        reveal(dec_Player);
        <image as Blob>::lemma_dec_len(s);
    }

    proof fn lemma_round_trip(&self, rest: Seq<u8>) {
        reveal(enc_ok_Player);
        reveal(enc_Player);
        reveal(dec_Player);
        self.userIcon.lemma_round_trip(rest);
    }

    fn write(&self, out: &mut Vec<u8>) {
        proof {
            reveal(enc_ok_Player);
            reveal(enc_Player);
        }
        self.userIcon.write(out);
        proof {
            assert(out@ =~= old(out)@ + self.enc());
        }
    }

    fn read(v: &Vec<u8>, pos: usize) -> (r: Option<(Player, usize)>) {
        proof {
            reveal(dec_Player);
            <image as Blob>::lemma_dec_len(v@.skip(pos as int));
        }
        let (x1, p1) = match <image as Blob>::read(v, pos) {
            None => {
                return None;
            },
            Some(q) => q,
        };
        Some((Player { userIcon: x1 }, p1))
    }
}

#[verifier::opaque]
pub open spec fn enc_ok_vsStageRecon(x: vsStageRecon) -> bool {
    x.vsStageId.enc_ok() && x.originalImage.enc_ok() && x.name.enc_ok() && x.stats.enc_ok() && x.id.enc_ok()
}

#[verifier::opaque]
pub open spec fn enc_vsStageRecon(x: vsStageRecon) -> Seq<u8> {
    x.vsStageId.enc() + x.originalImage.enc() + x.name.enc() + x.stats.enc() + x.id.enc()
}

#[verifier::opaque]
pub open spec fn dec_vsStageRecon(s: Seq<u8>) -> Option<(vsStageReconV, int)> {
    match <i64 as Blob>::dec(s) {
        None => None,
        Some((v1, n1)) => {
            let s1 = s.skip(n1);
            match <image as Blob>::dec(s1) {
                None => None,
                Some((v2, n2)) => {
                    let s2 = s1.skip(n2);
                    match <String as Blob>::dec(s2) {
                        None => None,
                        Some((v3, n3)) => {
                            let s3 = s2.skip(n3);
                            match <Option<()> as Blob>::dec(s3) {
                                None => None,
                                Some((v4, n4)) => {
                                    let s4 = s3.skip(n4);
                                    match <String as Blob>::dec(s4) {
                                        None => None,
                                        Some((v5, n5)) => {
                                            Some((vsStageReconV { vsStageId: v1, originalImage: v2, name: v3, stats: v4, id: v5 }, n1 + n2 + n3 + n4 + n5))
                                        },
                                    }
                                },
                            }
                        },
                    }
                },
            }
        },
    }
}

impl Blob for vsStageRecon {
    open spec fn enc_ok(&self) -> bool {
        enc_ok_vsStageRecon(*self)
    }

    open spec fn enc(&self) -> Seq<u8> {
        enc_vsStageRecon(*self)
    }

    open spec fn dec(s: Seq<u8>) -> Option<(vsStageReconV, int)> {
        dec_vsStageRecon(s)
    }

    proof fn lemma_dec_len(s: Seq<u8>) {
        reveal(dec_vsStageRecon);
        <i64 as Blob>::lemma_dec_len(s);
        match <i64 as Blob>::dec(s) {
            None => {},
            Some((v1, n1)) => {
                let s1 = s.skip(n1);
                <image as Blob>::lemma_dec_len(s1);
                match <image as Blob>::dec(s1) {
                    None => {},
                    Some((v2, n2)) => {
                        let s2 = s1.skip(n2);
                        <String as Blob>::lemma_dec_len(s2);
                        match <String as Blob>::dec(s2) {
                            None => {},
                            Some((v3, n3)) => {
                                let s3 = s2.skip(n3);
                                <Option<()> as Blob>::lemma_dec_len(s3);
                                match <Option<()> as Blob>::dec(s3) {
                                    None => {},
                                    Some((v4, n4)) => {
                                        let s4 = s3.skip(n4);
                                        <String as Blob>::lemma_dec_len(s4);
                                    },
                                }
                            },
                        }
                    },
                }
            },
        }
    }

    proof fn lemma_round_trip(&self, rest: Seq<u8>) {
        reveal(enc_ok_vsStageRecon);
        reveal(enc_vsStageRecon);
        reveal(dec_vsStageRecon);
        let e1 = self.vsStageId.enc();
        let e2 = self.originalImage.enc();
        let e3 = self.name.enc();
        let e4 = self.stats.enc();
        let e5 = self.id.enc();
        let r5 = rest;
        let r4 = e5 + r5;
        let r3 = e4 + r4;
        let r2 = e3 + r3;
        let r1 = e2 + r2;
        let l1 = e1;
        let l2 = l1 + e2;
        let l3 = l2 + e3;
        let l4 = l3 + e4;
        let l5 = l4 + e5;
        assert(l5 + r5 =~= l4 + r4);
        assert(l4 + r4 =~= l3 + r3);
        assert(l3 + r3 =~= l2 + r2);
        assert(l2 + r2 =~= l1 + r1);
        assert(self.enc() + rest == l1 + r1);
        self.vsStageId.lemma_round_trip(r1);
        lemma_concat_skip(e1, r1);
        self.originalImage.lemma_round_trip(r2);
        lemma_concat_skip(e2, r2);
        self.name.lemma_round_trip(r3);
        lemma_concat_skip(e3, r3);
        self.stats.lemma_round_trip(r4);
        lemma_concat_skip(e4, r4);
        self.id.lemma_round_trip(r5);
    }

    fn write(&self, out: &mut Vec<u8>) {
        proof {
            reveal(enc_ok_vsStageRecon);
            reveal(enc_vsStageRecon);
        }
        self.vsStageId.write(out);
        self.originalImage.write(out);
        self.name.write(out);
        self.stats.write(out);
        self.id.write(out);
        proof {
            let e1 = self.vsStageId.enc();
            let e2 = self.originalImage.enc();
            let e3 = self.name.enc();
            let e4 = self.stats.enc();
            let e5 = self.id.enc();
            let l1 = e1;
            let l2 = l1 + e2;
            let l3 = l2 + e3;
            let l4 = l3 + e4;
            let l5 = l4 + e5;
            assert((old(out)@ + l1) + e2 =~= old(out)@ + l2);
            assert((old(out)@ + l2) + e3 =~= old(out)@ + l3);
            assert((old(out)@ + l3) + e4 =~= old(out)@ + l4);
            assert((old(out)@ + l4) + e5 =~= old(out)@ + l5);
            assert(out@ == old(out)@ + self.enc());
        }
    }

    fn read(v: &Vec<u8>, pos: usize) -> (r: Option<(vsStageRecon, usize)>) {
        proof {
            reveal(dec_vsStageRecon);
            <i64 as Blob>::lemma_dec_len(v@.skip(pos as int));
        }
        let (x1, p1) = match <i64 as Blob>::read(v, pos) {
            None => {
                return None;
            },
            Some(q) => q,
        };
        proof {
            lemma_seq_skip_of_skip(v@, pos as int, (p1 - pos) as int);
            <image as Blob>::lemma_dec_len(v@.skip(p1 as int));
        }
        let (x2, p2) = match <image as Blob>::read(v, p1) {
            None => {
                return None;
            },
            Some(q) => q,
        };
        proof {
            lemma_seq_skip_of_skip(v@, p1 as int, (p2 - p1) as int);
            <String as Blob>::lemma_dec_len(v@.skip(p2 as int));
        }
        let (x3, p3) = match <String as Blob>::read(v, p2) {
            None => {
                return None;
            },
            Some(q) => q,
        };
        proof {
            lemma_seq_skip_of_skip(v@, p2 as int, (p3 - p2) as int);
            <Option<()> as Blob>::lemma_dec_len(v@.skip(p3 as int));
        }
        let (x4, p4) = match <Option<()> as Blob>::read(v, p3) {
            None => {
                return None;
            },
            Some(q) => q,
        };
        proof {
            lemma_seq_skip_of_skip(v@, p3 as int, (p4 - p3) as int);
            <String as Blob>::lemma_dec_len(v@.skip(p4 as int));
        }
        let (x5, p5) = match <String as Blob>::read(v, p4) {
            None => {
                return None;
            },
            Some(q) => q,
        };
        Some((vsStageRecon { vsStageId: x1, originalImage: x2, name: x3, stats: x4, id: x5 }, p5))
    }
}

#[verifier::opaque]
pub open spec fn enc_ok_Color(x: Color) -> bool {
    x.a.enc_ok() && x.r.enc_ok() && x.g.enc_ok() && x.b.enc_ok()
}

#[verifier::opaque]
pub open spec fn enc_Color(x: Color) -> Seq<u8> {
    x.a.enc() + x.r.enc() + x.g.enc() + x.b.enc()
}

#[verifier::opaque]
pub open spec fn dec_Color(s: Seq<u8>) -> Option<(Color, int)> {
    match <u8 as Blob>::dec(s) {
        None => None,
        Some((v1, n1)) => {
            let s1 = s.skip(n1);
            match <u8 as Blob>::dec(s1) {
                None => None,
                Some((v2, n2)) => {
                    let s2 = s1.skip(n2);
                    match <u8 as Blob>::dec(s2) {
                        None => None,
                        Some((v3, n3)) => {
                            let s3 = s2.skip(n3);
                            match <u8 as Blob>::dec(s3) {
                                None => None,
                                Some((v4, n4)) => {
                                    Some((Color { a: v1, r: v2, g: v3, b: v4 }, n1 + n2 + n3 + n4))
                                },
                            }
                        },
                    }
                },
            }
        },
    }
}

impl Blob for Color {
    open spec fn enc_ok(&self) -> bool {
        enc_ok_Color(*self)
    }

    open spec fn enc(&self) -> Seq<u8> {
        enc_Color(*self)
    }

    open spec fn dec(s: Seq<u8>) -> Option<(Color, int)> {
        dec_Color(s)
    }

    proof fn lemma_dec_len(s: Seq<u8>) {
        reveal(dec_Color);
        <u8 as Blob>::lemma_dec_len(s);
        match <u8 as Blob>::dec(s) {
            None => {},
            Some((v1, n1)) => {
                let s1 = s.skip(n1);
                <u8 as Blob>::lemma_dec_len(s1);
                match <u8 as Blob>::dec(s1) {
                    None => {},
                    Some((v2, n2)) => {
                        let s2 = s1.skip(n2);
                        <u8 as Blob>::lemma_dec_len(s2);
                        match <u8 as Blob>::dec(s2) {
                            None => {},
                            Some((v3, n3)) => {
                                let s3 = s2.skip(n3);
                                <u8 as Blob>::lemma_dec_len(s3);
                            },
                        }
                    },
                }
            },
        }
    }

    proof fn lemma_round_trip(&self, rest: Seq<u8>) {
        reveal(enc_ok_Color);
        reveal(enc_Color);
        reveal(dec_Color);
        let e1 = self.a.enc();
        let e2 = self.r.enc();
        let e3 = self.g.enc();
        let e4 = self.b.enc();
        let r4 = rest;
        let r3 = e4 + r4;
        let r2 = e3 + r3;
        let r1 = e2 + r2;
        let l1 = e1;
        let l2 = l1 + e2;
        let l3 = l2 + e3;
        let l4 = l3 + e4;
        assert(l4 + r4 =~= l3 + r3);
        assert(l3 + r3 =~= l2 + r2);
        assert(l2 + r2 =~= l1 + r1);
        assert(self.enc() + rest == l1 + r1);
        self.a.lemma_round_trip(r1);
        lemma_concat_skip(e1, r1);
        self.r.lemma_round_trip(r2);
        lemma_concat_skip(e2, r2);
        self.g.lemma_round_trip(r3);
        lemma_concat_skip(e3, r3);
        self.b.lemma_round_trip(r4);
    }

    fn write(&self, out: &mut Vec<u8>) {
        proof {
            reveal(enc_ok_Color);
            reveal(enc_Color);
        }
        self.a.write(out);
        self.r.write(out);
        self.g.write(out);
        self.b.write(out);
        proof {
            let e1 = self.a.enc();
            let e2 = self.r.enc();
            let e3 = self.g.enc();
            let e4 = self.b.enc();
            let l1 = e1;
            let l2 = l1 + e2;
            let l3 = l2 + e3;
            let l4 = l3 + e4;
            assert((old(out)@ + l1) + e2 =~= old(out)@ + l2);
            assert((old(out)@ + l2) + e3 =~= old(out)@ + l3);
            assert((old(out)@ + l3) + e4 =~= old(out)@ + l4);
            assert(out@ == old(out)@ + self.enc());
        }
    }

    fn read(v: &Vec<u8>, pos: usize) -> (r: Option<(Color, usize)>) {
        proof {
            reveal(dec_Color);
            <u8 as Blob>::lemma_dec_len(v@.skip(pos as int));
        }
        let (x1, p1) = match <u8 as Blob>::read(v, pos) {
            None => {
                return None;
            },
            Some(q) => q,
        };
        proof {
            lemma_seq_skip_of_skip(v@, pos as int, (p1 - pos) as int);
            <u8 as Blob>::lemma_dec_len(v@.skip(p1 as int));
        }
        let (x2, p2) = match <u8 as Blob>::read(v, p1) {
            None => {
                return None;
            },
            Some(q) => q,
        };
        proof {
            lemma_seq_skip_of_skip(v@, p1 as int, (p2 - p1) as int);
            <u8 as Blob>::lemma_dec_len(v@.skip(p2 as int));
        }
        let (x3, p3) = match <u8 as Blob>::read(v, p2) {
            None => {
                return None;
            },
            Some(q) => q,
        };
        proof {
            lemma_seq_skip_of_skip(v@, p2 as int, (p3 - p2) as int);
            <u8 as Blob>::lemma_dec_len(v@.skip(p3 as int));
        }
        let (x4, p4) = match <u8 as Blob>::read(v, p3) {
            None => {
                return None;
            },
            Some(q) => q,
        };
        Some((Color { a: x1, r: x2, g: x3, b: x4 }, p4))
    }
}

/// Encode a snapshot into the persisted blob format.
pub fn encode_snapshot(s: &RotationData) -> (out: Vec<u8>)
    ensures
        out@ == s.enc(),
        s.enc_ok(),
{
    let mut out: Vec<u8> = Vec::new();
    s.write(&mut out);
    proof {
        assert(Seq::<u8>::empty() + s.enc() =~= s.enc());
    }
    out
}

/// Decode a persisted blob; `None` on truncated, corrupt, or overlong bytes.
pub fn decode_snapshot(v: &Vec<u8>) -> (r: Option<RotationData>)
    ensures
        match <RotationData as Blob>::dec(v@) {
            Some(p) => {
                if p.1 == v@.len() {
                    r matches Some(s) && s.deep_view() == p.0
                } else {
                    r is None
                }
            },
            None => r is None,
        },
{
    proof {
        assert(v@.skip(0) =~= v@);
    }
    match <RotationData as Blob>::read(v, 0) {
        None => None,
        Some((s, p)) => {
            if p == v.len() {
                Some(s)
            } else {
                None
            }
        },
    }
}

/// The round-trip law: decoding an encoded snapshot yields that snapshot.
/// Together with the contracts of `encode_snapshot` and `decode_snapshot`,
/// persisting a snapshot and loading it back restores its full content.
pub proof fn lemma_snapshot_round_trip(s: RotationData)
    requires
        s.enc_ok(),
    ensures
        <RotationData as Blob>::dec(s.enc()) == Some((s.deep_view(), s.enc().len() as int)),
{
    s.lemma_round_trip(Seq::empty());
    assert(s.enc() + Seq::<u8>::empty() =~= s.enc());
}

} // verus!
