//! Host-facing control logic: command interpretation, measure-type
//! selection, the visible-group fallback, and the show/hide commands issued
//! when the selection changes.

use vstd::prelude::*;
use crate::rm_write::{SplatinkType, TimeBarOptions};
use crate::rm_structure::Schedule;
use crate::text::{eq_ignore_ascii_case, spec_eq_ignore_case};

verus! {

/// A command accepted from the host, interpreted case-insensitively.
#[derive(Clone, Debug, PartialEq)]
pub enum Command {
    /// Run the structure build, layout, and write cycle.
    RefreshFile,
    /// Delete the persisted snapshot blob, then refresh.
    RepullData,
    /// Select the named group and redraw; no network activity.
    RedrawSche(String),
    /// Anything else is ignored.
    Unknown,
}

/// Interpret a whitespace-split host command line.
pub fn parse_command(words: &Vec<String>) -> (c: Command)
    ensures
        words@.len() == 0 ==> c == Command::Unknown,
        words@.len() > 0 ==> {
            let head = words@[0]@;
            if spec_eq_ignore_case(head, "refreshfile"@) {
                c == Command::RefreshFile
            } else if spec_eq_ignore_case(head, "repulldata"@) {
                c == Command::RepullData
            } else if spec_eq_ignore_case(head, "redrawsche"@) {
                if words@.len() >= 2 {
                    c matches Command::RedrawSche(id) && id == words@[1]
                } else {
                    c == Command::Unknown
                }
            } else {
                c == Command::Unknown
            }
        },
{
    if words.len() == 0 {
        return Command::Unknown;
    }
    let head = &words[0];
    if eq_ignore_ascii_case(head.as_str(), "refreshfile") {
        Command::RefreshFile
    } else if eq_ignore_ascii_case(head.as_str(), "repulldata") {
        Command::RepullData
    } else if eq_ignore_ascii_case(head.as_str(), "redrawsche") {
        if words.len() >= 2 {
            Command::RedrawSche(words[1].clone())
        } else {
            Command::Unknown
        }
    } else {
        Command::Unknown
    }
}

/// The measure type read back from the host configuration: a time bar over
/// the configured window, or the schedule core holding the selected group.
pub fn measure_type_of(
    type_string: &String,
    selected_sche: &String,
    start_time: i64,
    end_time: i64,
) -> (r: SplatinkType)
    ensures
        type_string@ == "TimeBar"@ ==> r == SplatinkType::TimeBar(
            TimeBarOptions { start_time, end_time },
        ),
        type_string@ != "TimeBar"@ ==> (r matches SplatinkType::Core(s) && s@ == selected_sche@),
{
    let tb: String = "TimeBar".to_owned();
    if *type_string == tb {
        SplatinkType::TimeBar(TimeBarOptions { start_time, end_time })
    } else {
        SplatinkType::Core(selected_sche.clone())
    }
}

/// When the selection changes, the previous group is hidden and the new one
/// shown; an unchanged selection issues nothing.
pub fn selection_bangs(prev: &String, cur: &String) -> (r: Option<(String, String)>)
    ensures
        (prev@ == cur@) <==> r is None,
        r matches Some(p) ==> p.0@ == "!HideMeterGroup "@ + prev@ && p.1@ == "!ShowMeterGroup "@
            + cur@,
{
    if *prev == *cur {
        None
    } else {
        let mut hide_bang = "!HideMeterGroup ".to_owned();
        hide_bang.append(prev.as_str());
        let mut show_bang = "!ShowMeterGroup ".to_owned();
        show_bang.append(cur.as_str());
        Some((hide_bang, show_bang))
    }
}

/// The id of the group that is actually shown: the requested id if it is
/// among the active groups, else the cycle's first id, else a placeholder
/// for an empty structure.
pub open spec fn spec_resolved(gs: Seq<crate::rm_structure::ScheduleV>, req: Seq<char>) -> Seq<
    char,
> {
    if exists|i: int| 0 <= i < gs.len() && (#[trigger] gs[i]).id == req {
        req
    } else if gs.len() > 0 {
        gs[0].id
    } else {
        "nonewhat"@
    }
}

/// The group that is actually shown; see [`spec_resolved`].
pub fn resolve_selection(schedules: &Vec<Schedule>, requested: &str) -> (r: String)
    ensures
        r@ == spec_resolved(schedules.deep_view(), requested@),
{
    let mut i: usize = 0;
    let req: String = requested.to_owned();
    while i < schedules.len()
        invariant
            i <= schedules@.len(),
            req@ == requested@,
            schedules.deep_view().len() == schedules@.len(),
            forall|k: int| 0 <= k < i ==> (#[trigger] schedules.deep_view()[k]).id != requested@,
        decreases schedules@.len() - i,
    {
        proof {
            assert(schedules.deep_view()[i as int].id == schedules@[i as int].id@);
        }
        if schedules[i].id == req {
            return req;
        }
        i = i + 1;
    }
    if schedules.len() > 0 {
        proof {
            assert(schedules.deep_view()[0].id == schedules@[0].id@);
        }
        schedules[0].id.clone()
    } else {
        "nonewhat".to_owned()
    }
}

} // verus!
