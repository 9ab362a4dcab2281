//! The layout engine: walks the built structure and produces the positioned
//! object graph, with deterministic vertical stacking. Each event
//! contributes a height equal to the tallest of its sub-elements — except
//! center-anchored text, which contributes only to its vertical center —
//! and the running offset accumulates those heights below the header row.

use vstd::prelude::*;
use crate::rm_write::{
    Color, Coord, RmObject, ObjectType, MeterType, MeterOptions, MeasureType, MeasureOptions,
    PluginType, SplatinkType, TimeBarOptions, ImageOptions, StringOptions, BarOptions,
    BarOrientation, ToolTip, StringAlign, spec_extent, spec_y, spec_prefixed_type,
};
use crate::rm_structure::{
    EventRecord, EventRecordV, VsEvent, ChalEvent, SalmonRunEvent, VsSetting, VsRule, Stage,
    Weapon, Schedule, Splatfest, SplatfestState, SplatfestTeam, SplatfestTeamResult, RmStructure,
    SplatfestStateV, Ratio, TimeRange,
};
use crate::text::{u64_to_string, spec_percent_text, percent_text};
use crate::timefmt::{fmt_display_time, fmt_tooltip_time};

verus! {

/// Coordinates stay far inside this bound, so shifts cannot overflow.
pub const COORD_LIMIT: i64 = 0x4_0000_0000_0000;

/// `b` is `a` with every meter moved by `(dx, dy)`; measures are untouched.
pub open spec fn spec_shifted(b: RmObject, a: RmObject, dx: int, dy: int) -> bool {
    &&& b.name == a.name
    &&& match a.object_type {
        ObjectType::Meter(t1, o1) => {
            &&& b.object_type matches ObjectType::Meter(t2, o2)
            &&& t2 == t1
            &&& o2 == (MeterOptions { pos: o2.pos, ..o1 })
            &&& o2.pos.x == o1.pos.x + dx
            &&& o2.pos.y == o1.pos.y + dy
        },
        ObjectType::Measure(_, _) => b.object_type == a.object_type,
    }
}

/// Every meter position in the vector is within the working bound.
pub open spec fn spec_positions_bounded(s: Seq<RmObject>, b: int) -> bool {
    forall|k: int|
        0 <= k < s.len() ==> match (#[trigger] s[k]).object_type {
            ObjectType::Meter(_, o) => -b <= o.pos.x <= b && -b <= o.pos.y <= b,
            ObjectType::Measure(_, _) => true,
        }
}

/// Move every meter in `objs` by `(dx, dy)`.
pub fn shift_meters(objs: &mut Vec<RmObject>, dx: i64, dy: i64)
    requires
        spec_positions_bounded(old(objs)@, COORD_LIMIT as int),
        -COORD_LIMIT <= dx <= COORD_LIMIT,
        -COORD_LIMIT <= dy <= COORD_LIMIT,
    ensures
        final(objs)@.len() == old(objs)@.len(),
        forall|k: int|
            0 <= k < old(objs)@.len() ==> spec_shifted(
                #[trigger] final(objs)@[k],
                old(objs)@[k],
                dx as int,
                dy as int,
            ),
{
    let n = objs.len();
    let mut i: usize = 0;
    while i < n
        invariant
            i <= n,
            n == old(objs)@.len(),
            objs@.len() == n,
            forall|k: int|
                i <= k < n ==> (#[trigger] objs@[k]) == old(objs)@[k],
            forall|k: int|
                0 <= k < i ==> spec_shifted(#[trigger] objs@[k], old(objs)@[k], dx as int, dy as int),
        decreases n - i,
    {
        let needs = match &objs[i].object_type {
            ObjectType::Meter(_, _) => true,
            ObjectType::Measure(_, _) => false,
        };
        if needs {
            let x;
            let y;
            match &objs[i].object_type {
                ObjectType::Meter(_, o) => {
                    x = o.pos.x + dx;
                    y = o.pos.y + dy;
                },
                ObjectType::Measure(_, _) => {
                    x = 0;
                    y = 0;
                },
            }
            match &mut objs[i].object_type {
                ObjectType::Meter(_, o) => {
                    o.pos = Coord { x, y };
                },
                ObjectType::Measure(_, _) => {},
            }
        }
        i = i + 1;
    }
}

/// An image path under the resource tree: `#@#<dir>/<name>.png`.
pub open spec fn spec_asset_path(dir: Seq<char>, name: Seq<char>) -> Seq<char> {
    "#@#"@ + dir + "/"@ + name + ".png"@
}

fn asset_path(dir: &str, name: &str) -> (r: String)
    ensures
        r@ == spec_asset_path(dir@, name@),
{
    let mut s = "#@#".to_owned();
    s.append(dir);
    s.append("/");
    s.append(name);
    s.append(".png");
    s
}

/// The host command that selects another group and redraws.
pub fn bang_redraw(id: &str) -> (r: String)
    ensures
        r@ == "!CommandMeasure SplatinkCore \"redrawsche "@ + id@ + "\""@,
{
    let mut s = "!CommandMeasure SplatinkCore \"redrawsche ".to_owned();
    s.append(id);
    s.append("\"");
    s
}

/// The four objects of one time bar: the plugin measure, the bar meter,
/// and the two end labels; everything lies within a 50-unit row.
pub fn new_timebar(start_time: i64, end_time: i64) -> (r: Vec<RmObject>)
    ensures
        r@.len() == 4,
        spec_timebar_at(r@, 0, Seq::empty(), start_time, end_time, 0, 0),
        forall|k: int| 0 <= k < r@.len() ==> spec_extent(#[trigger] r@[k]) <= 50,
        forall|k: int| 0 <= k < r@.len() ==> 0 <= spec_y(#[trigger] r@[k]),
        spec_extent(r@[1]) == 50,
        forall|k: int|
            0 <= k < r@.len() ==> match (#[trigger] r@[k]).object_type {
                ObjectType::Meter(_, o) => 0 <= o.pos.x <= 100 && 0 <= o.pos.y <= 25,
                ObjectType::Measure(_, _) => true,
            },
{
    let mut ret: Vec<RmObject> = Vec::new();
    ret.push(
        RmObject::new(
            ObjectType::Measure(
                MeasureType::Plugin(
                    PluginType::Splatink(SplatinkType::TimeBar(TimeBarOptions { start_time, end_time })),
                ),
                MeasureOptions::default(),
            ),
        ).prefix_name_owned("TimeBarMeasure"),
    );
    let mut bar_opts = MeterOptions::new();
    bar_opts.size = Coord { x: 100, y: 50 };
    bar_opts.measure_name = Some("Measure".to_owned());
    bar_opts.solid_color = Some(Color { r: 50, g: 50, b: 50, a: 255 });
    ret.push(
        RmObject::new(
            ObjectType::Meter(
                MeterType::Bar(
                    BarOptions {
                        bar_color: Color { r: 150, g: 50, b: 50, a: 255 },
                        bar_orientation: BarOrientation::Horizontal,
                    },
                ),
                bar_opts,
            ),
        ).prefix_name_owned("TimeBar"),
    );
    let mut start_text = StringOptions::default();
    start_text.text = fmt_display_time(start_time);
    let mut start_opts = MeterOptions::new();
    start_opts.pos = Coord { x: 25, y: 25 };
    start_opts.size = Coord { x: 50, y: 50 };
    start_opts.tool_tip = Some(ToolTip::new(fmt_tooltip_time(start_time)));
    ret.push(
        RmObject::new(ObjectType::Meter(MeterType::String(start_text), start_opts))
            .prefix_name_owned("StartTime"),
    );
    let mut end_text = StringOptions::default();
    end_text.text = fmt_display_time(end_time);
    let mut end_opts = MeterOptions::new();
    end_opts.pos = Coord { x: 75, y: 25 };
    end_opts.size = Coord { x: 50, y: 50 };
    end_opts.tool_tip = Some(ToolTip::new(fmt_tooltip_time(end_time)));
    ret.push(
        RmObject::new(ObjectType::Meter(MeterType::String(end_text), end_opts))
            .prefix_name_owned("EndTime"),
    );
    proof {
        reveal(spec_timebar_at);
        reveal_strlit("TimeBar");
        reveal_strlit("Measure");
        reveal_strlit("TimeBarMeasure");
        assert(("TimeBar"@ + "Measure"@) =~= "TimeBarMeasure"@);
        assert(Seq::<char>::empty() + "TimeBarMeasure"@ =~= ret@[0].name@);
        assert(Seq::<char>::empty() + "TimeBar"@ =~= ret@[1].name@);
        assert(Seq::<char>::empty() + "StartTime"@ =~= ret@[2].name@);
        assert(Seq::<char>::empty() + "EndTime"@ =~= ret@[3].name@);
        assert(spec_timebar_at(ret@, 0, Seq::empty(), start_time, end_time, 0, 0));
    }
    ret
}

/// An image tile showing the asset of `name` under `dir`, captioned by a
/// tooltip carrying `name` itself.
pub open spec fn spec_named_tile(
    o: RmObject,
    dir: Seq<char>,
    name: Seq<char>,
    x: int,
    y: int,
    w: int,
    h: int,
) -> bool {
    &&& o.object_type matches ObjectType::Meter(t, opts)
    &&& t matches MeterType::Image(img)
    &&& img.image_name@ == spec_asset_path(dir, name)
    &&& (opts.tool_tip matches Some(tt) && tt.spec_text() == name)
    &&& opts.pos.x == x
    &&& opts.pos.y == y
    &&& opts.size.x == w
    &&& opts.size.y == h
}

/// The four objects of one time bar over `(start, end)`: the plugin
/// measure carrying exactly that window, the bar meter driven by it, and
/// the two end labels, all named under `prefix` and offset by `(dx, dy)`.
/// The label texts come from the time-zone-dependent formatting wrappers,
/// so nothing is promised of them.
#[verifier::opaque]
pub open spec fn spec_timebar_at(
    s: Seq<RmObject>,
    i: int,
    prefix: Seq<char>,
    start: i64,
    end: i64,
    dx: int,
    dy: int,
) -> bool {
    &&& 0 <= i && i + 4 <= s.len()
    &&& s[i].name@ == prefix + "TimeBarMeasure"@
    &&& (s[i].object_type matches ObjectType::Measure(mt, _) && mt == MeasureType::Plugin(
        PluginType::Splatink(
            SplatinkType::TimeBar(TimeBarOptions { start_time: start, end_time: end }),
        ),
    ))
    &&& s[i + 1].name@ == prefix + "TimeBar"@
    &&& (s[i + 1].object_type matches ObjectType::Meter(t, o) && {
        &&& t matches MeterType::Bar(_)
        &&& (o.measure_name matches Some(m) && m@ == prefix + "TimeBarMeasure"@)
        &&& o.pos.x == dx
        &&& o.pos.y == dy
        &&& o.size.x == 100
        &&& o.size.y == 50
    })
    &&& s[i + 2].name@ == prefix + "StartTime"@
    &&& (s[i + 2].object_type matches ObjectType::Meter(t, o) && {
        &&& (t matches MeterType::String(st) && st.string_align == Some(StringAlign::CenterCenter))
        &&& o.pos.x == 25 + dx
        &&& o.pos.y == 25 + dy
        &&& o.size.x == 50
        &&& o.size.y == 50
    })
    &&& s[i + 3].name@ == prefix + "EndTime"@
    &&& (s[i + 3].object_type matches ObjectType::Meter(t, o) && {
        &&& (t matches MeterType::String(st) && st.string_align == Some(StringAlign::CenterCenter))
        &&& o.pos.x == 75 + dx
        &&& o.pos.y == 25 + dy
        &&& o.size.x == 50
        &&& o.size.y == 50
    })
}

/// The mode icon and the two stage tiles of one versus setting, named
/// under `prefix` and offset by `(dx, dy)`.
#[verifier::opaque]
pub open spec fn spec_vs_setting_at(
    s: Seq<RmObject>,
    i: int,
    v: crate::rm_structure::VsSettingV,
    prefix: Seq<char>,
    dx: int,
    dy: int,
) -> bool {
    &&& 0 <= i && i + 3 <= s.len()
    &&& s[i].name@ == prefix + "Mode"@
    &&& spec_named_tile(s[i], "Modes"@, v.vs_rule.name, dx, dy, 50, 50)
    &&& s[i + 1].name@ == prefix + "Stage0"@
    &&& spec_named_tile(s[i + 1], "Stages"@, v.vs_stages.first.name, 50 + dx, dy, 100, 50)
    &&& s[i + 2].name@ == prefix + "Stage1"@
    &&& spec_named_tile(s[i + 2], "Stages"@, v.vs_stages.second.name, 150 + dx, dy, 100, 50)
}

/// Prefixing every object of a time bar block composes its names (and the
/// bar's measure reference) under the new outer component.
pub proof fn lemma_timebar_prefixed(
    b: Seq<RmObject>,
    a: Seq<RmObject>,
    i: int,
    p: Seq<char>,
    prefix: Seq<char>,
    start: i64,
    end: i64,
    dx0: int,
    dy0: int,
)
    requires
        b.len() == a.len(),
        forall|k: int|
            i <= k < i + 4 ==> (#[trigger] b[k]).name@ == p + a[k].name@ && spec_prefixed_type(
                b[k].object_type,
                a[k].object_type,
                p,
            ),
        spec_timebar_at(a, i, prefix, start, end, dx0, dy0),
    ensures
        spec_timebar_at(b, i, p + prefix, start, end, dx0, dy0),
{
    reveal(spec_timebar_at);
    assert((p + prefix) + "TimeBarMeasure"@ =~= p + (prefix + "TimeBarMeasure"@));
    assert((p + prefix) + "TimeBar"@ =~= p + (prefix + "TimeBar"@));
    assert((p + prefix) + "StartTime"@ =~= p + (prefix + "StartTime"@));
    assert((p + prefix) + "EndTime"@ =~= p + (prefix + "EndTime"@));
    assert(spec_prefixed_type(b[i + 1].object_type, a[i + 1].object_type, p));
}

/// Shifting moves a time bar block's coordinates and nothing else.
pub proof fn lemma_timebar_shifted(
    b: Seq<RmObject>,
    a: Seq<RmObject>,
    i: int,
    prefix: Seq<char>,
    start: i64,
    end: i64,
    dx0: int,
    dy0: int,
    dx: int,
    dy: int,
)
    requires
        b.len() == a.len(),
        forall|k: int| 0 <= k < a.len() ==> spec_shifted(#[trigger] b[k], a[k], dx, dy),
        spec_timebar_at(a, i, prefix, start, end, dx0, dy0),
    ensures
        spec_timebar_at(b, i, prefix, start, end, dx0 + dx, dy0 + dy),
{
    reveal(spec_timebar_at);
    assert(spec_shifted(b[i], a[i], dx, dy));
    assert(spec_shifted(b[i + 1], a[i + 1], dx, dy));
    assert(spec_shifted(b[i + 2], a[i + 2], dx, dy));
    assert(spec_shifted(b[i + 3], a[i + 3], dx, dy));
}

/// Shifting moves a versus-setting block's coordinates and nothing else.
pub proof fn lemma_vs_setting_shifted(
    b: Seq<RmObject>,
    a: Seq<RmObject>,
    i: int,
    v: crate::rm_structure::VsSettingV,
    prefix: Seq<char>,
    dx0: int,
    dy0: int,
    dx: int,
    dy: int,
)
    requires
        b.len() == a.len(),
        forall|k: int| 0 <= k < a.len() ==> spec_shifted(#[trigger] b[k], a[k], dx, dy),
        spec_vs_setting_at(a, i, v, prefix, dx0, dy0),
    ensures
        spec_vs_setting_at(b, i, v, prefix, dx0 + dx, dy0 + dy),
{
    reveal(spec_vs_setting_at);
    assert(spec_shifted(b[i], a[i], dx, dy));
    assert(spec_shifted(b[i + 1], a[i + 1], dx, dy));
    assert(spec_shifted(b[i + 2], a[i + 2], dx, dy));
}

impl VsRule {
    /// The rule icon: a 50-by-50 tile at the origin.
    pub fn get_rm_object(&self) -> (r: RmObject)
        ensures
            r.name@.len() == 0,
            spec_y(r) == 0,
            spec_extent(r) == 50,
            spec_named_tile(r, "Modes"@, self.name@, 0, 0, 50, 50),
    {
        let mut opts = MeterOptions::new();
        opts.size = Coord { x: 50, y: 50 };
        opts.solid_color = Some(Color { r: 40, g: 40, b: 40, a: 255 });
        opts.tool_tip = Some(ToolTip::new(self.name.clone()));
        RmObject::new(
            ObjectType::Meter(
                MeterType::Image(
                    ImageOptions {
                        image_name: asset_path("Modes", self.name.as_str()),
                        preseve_aspect_ratio: false,
                    },
                ),
                opts,
            ),
        )
    }
}

impl Stage {
    /// The stage tile: 100 wide, 50 tall, at the origin.
    pub fn get_rm_object(&self) -> (r: RmObject)
        ensures
            r.name@.len() == 0,
            spec_y(r) == 0,
            spec_extent(r) == 50,
            spec_named_tile(r, "Stages"@, self.name@, 0, 0, 100, 50),
    {
        let mut opts = MeterOptions::new();
        opts.size = Coord { x: 100, y: 50 };
        opts.solid_color = Some(Color { r: 30, g: 30, b: 30, a: 255 });
        opts.tool_tip = Some(ToolTip::new(self.name.clone()));
        RmObject::new(
            ObjectType::Meter(
                MeterType::Image(
                    ImageOptions {
                        image_name: asset_path("Stages", self.name.as_str()),
                        preseve_aspect_ratio: false,
                    },
                ),
                opts,
            ),
        )
    }
}

impl Weapon {
    /// The weapon tile: a 50-by-50 tile at the origin.
    pub fn get_rm_object(&self) -> (r: RmObject)
        ensures
            r.name@.len() == 0,
            spec_y(r) == 0,
            spec_extent(r) == 50,
            spec_named_tile(r, "Weapons"@, self.name@, 0, 0, 50, 50),
    {
        let mut opts = MeterOptions::new();
        opts.size = Coord { x: 50, y: 50 };
        opts.solid_color = Some(Color { r: 30, g: 30, b: 30, a: 255 });
        opts.tool_tip = Some(ToolTip::new(self.name.clone()));
        RmObject::new(
            ObjectType::Meter(
                MeterType::Image(
                    ImageOptions {
                        image_name: asset_path("Weapons", self.name.as_str()),
                        preseve_aspect_ratio: false,
                    },
                ),
                opts,
            ),
        )
    }
}

// ---------------------------------------------------------------------------
// Event rows and their contributed heights.
// ---------------------------------------------------------------------------

/// Positions inside one event row stay within this bound.
pub const EVENT_POS_LIMIT: i64 = 0x100_0000_0000;

/// Positions anywhere in the finished graph stay within this bound.
pub const GRAPH_POS_LIMIT: i64 = 0x8000_0000_0000;

/// The accumulated stack height must stay within this bound.
pub const STACK_LIMIT: i64 = 0x4000_0000_0000;

/// Per-event counts small enough for coordinate arithmetic.
pub const PART_LIMIT: usize = 0x1000_0000;

/// The height one event contributes to vertical stacking: the tallest of
/// its sub-elements under the center-anchored-text rule. A plain or salmon
/// row is 50 tall; a challenge block is 150 tall, or taller when many time
/// windows must be centered within it.
pub open spec fn spec_event_height(e: EventRecordV) -> int {
    match e {
        EventRecordV::Vs(_) => 50,
        EventRecordV::SalmonRun(_) => 50,
        EventRecordV::Chal(c) => {
            let n = c.run_time.len() as int;
            if 150 >= 75 + 25 * n {
                150
            } else {
                75 + 25 * n
            }
        },
    }
}

/// The event's variable-sized parts are small enough to lay out.
pub open spec fn spec_layout_ok(e: EventRecordV) -> bool {
    match e {
        EventRecordV::Vs(_) => true,
        EventRecordV::SalmonRun(s) => s.coop_setting.weapons.len() <= PART_LIMIT,
        EventRecordV::Chal(c) => c.run_time.len() <= PART_LIMIT,
    }
}

/// How many objects one event's row holds.
pub open spec fn spec_event_objs(e: EventRecordV) -> int {
    match e {
        EventRecordV::Vs(_) => 7,
        EventRecordV::SalmonRun(s) => 6 + s.coop_setting.weapons.len() as int,
        EventRecordV::Chal(c) => 6 + 4 * c.run_time.len() as int,
    }
}

/// The summed object counts of a group's events.
pub open spec fn spec_total_objs(evs: Seq<EventRecordV>) -> int
    decreases evs.len(),
{
    if evs.len() == 0 {
        0
    } else {
        spec_total_objs(evs.drop_last()) + spec_event_objs(evs.last())
    }
}

/// The summed contributed heights of a group's events.
pub open spec fn spec_total_height(evs: Seq<EventRecordV>) -> int
    decreases evs.len(),
{
    if evs.len() == 0 {
        0
    } else {
        spec_total_height(evs.drop_last()) + spec_event_height(evs.last())
    }
}

pub proof fn lemma_total_objs_prefix(evs: Seq<EventRecordV>, i: int)
    requires
        0 <= i <= evs.len(),
    ensures
        spec_total_objs(evs.take(i)) >= 0,
        spec_total_objs(evs.take(i)) <= spec_total_objs(evs),
        i < evs.len() ==> spec_total_objs(evs.take(i + 1)) == spec_total_objs(evs.take(i))
            + spec_event_objs(evs[i]),
    decreases evs.len() - i,
{
    lemma_total_objs_nonneg(evs.take(i));
    if i < evs.len() {
        assert(evs.take(i + 1).drop_last() =~= evs.take(i));
        assert(evs.take(i + 1).last() == evs[i]);
        lemma_total_objs_prefix(evs, i + 1);
    } else {
        assert(evs.take(i) =~= evs);
    }
}

pub proof fn lemma_total_objs_nonneg(evs: Seq<EventRecordV>)
    ensures
        spec_total_objs(evs) >= 0,
    decreases evs.len(),
{
    if evs.len() > 0 {
        lemma_total_objs_nonneg(evs.drop_last());
    }
}

pub proof fn lemma_height_at_least_50(e: EventRecordV)
    ensures
        spec_event_height(e) >= 50,
{
}

pub proof fn lemma_total_height_prefix(evs: Seq<EventRecordV>, i: int)
    requires
        0 <= i <= evs.len(),
    ensures
        spec_total_height(evs.take(i)) >= 0,
        spec_total_height(evs.take(i)) <= spec_total_height(evs),
        i < evs.len() ==> spec_total_height(evs.take(i + 1)) == spec_total_height(evs.take(i))
            + spec_event_height(evs[i]),
    decreases evs.len() - i,
{
    lemma_total_nonneg(evs.take(i));
    if i < evs.len() {
        assert(evs.take(i + 1).drop_last() =~= evs.take(i));
        assert(evs.take(i + 1).last() == evs[i]);
        lemma_total_height_prefix(evs, i + 1);
        lemma_height_at_least_50(evs[i]);
    } else {
        assert(evs.take(i) =~= evs);
    }
}

pub proof fn lemma_total_nonneg(evs: Seq<EventRecordV>)
    ensures
        spec_total_height(evs) >= 0,
    decreases evs.len(),
{
    if evs.len() > 0 {
        lemma_total_nonneg(evs.drop_last());
        lemma_height_at_least_50(evs.last());
    }
}

/// Shifting a bounded vector keeps it bounded by the old bound plus the
/// largest shift.
pub proof fn lemma_shift_bounded(
    b: Seq<RmObject>,
    a: Seq<RmObject>,
    dx: int,
    dy: int,
    bound: int,
    delta: int,
)
    requires
        b.len() == a.len(),
        forall|k: int| 0 <= k < a.len() ==> spec_shifted(#[trigger] b[k], a[k], dx, dy),
        spec_positions_bounded(a, bound),
        -delta <= dx <= delta,
        -delta <= dy <= delta,
    ensures
        spec_positions_bounded(b, bound + delta),
{
    assert forall|k: int| 0 <= k < b.len() implies match (#[trigger] b[k]).object_type {
        ObjectType::Meter(_, o) => -(bound + delta) <= o.pos.x <= bound + delta && -(bound + delta)
            <= o.pos.y <= bound + delta,
        ObjectType::Measure(_, _) => true,
    } by {
        assert(spec_shifted(b[k], a[k], dx, dy));
    }
}

/// A shifted meter's extent moves with it; a measure contributes nothing.
proof fn lemma_shift_extent(b: RmObject, a: RmObject, dx: int, dy: int)
    requires
        spec_shifted(b, a, dx, dy),
    ensures
        match a.object_type {
            ObjectType::Meter(_, _) => spec_extent(b) == spec_extent(a) + dy && spec_y(b) == spec_y(
                a,
            ) + dy,
            ObjectType::Measure(_, _) => spec_extent(b) == spec_extent(a) && spec_y(b) == spec_y(a),
        },
{
}

impl VsSetting {
    /// The mode icon and the two stage tiles, in one 50-tall row.
    pub fn to_rm(&self) -> (r: Vec<RmObject>)
        ensures
            r@.len() == 3,
            spec_vs_setting_at(r@, 0, self.deep_view(), Seq::empty(), 0, 0),
            forall|k: int| 0 <= k < r@.len() ==> spec_extent(#[trigger] r@[k]) <= 50,
            spec_positions_bounded(r@, 300),
    {
        let mut ret: Vec<RmObject> = Vec::new();
        let mut mode = self.vs_rule.get_rm_object();
        mode.prefix_name_mut("Mode");
        ret.push(mode);
        let mut s0 = self.vs_stages.first.get_rm_object();
        s0.prefix_name_mut("Stage0");
        match &mut s0.object_type {
            ObjectType::Meter(_, o) => {
                o.pos = Coord { x: 50, y: 0 };
            },
            ObjectType::Measure(_, _) => {},
        }
        ret.push(s0);
        let mut s1 = self.vs_stages.second.get_rm_object();
        s1.prefix_name_mut("Stage1");
        match &mut s1.object_type {
            ObjectType::Meter(_, o) => {
                o.pos = Coord { x: 150, y: 0 };
            },
            ObjectType::Measure(_, _) => {},
        }
        ret.push(s1);
        proof {
            reveal(spec_vs_setting_at);
            assert(ret@[0].name@ =~= "Mode"@ + Seq::<char>::empty());
            assert(ret@[0].name@ =~= Seq::<char>::empty() + "Mode"@);
            assert(ret@[1].name@ =~= Seq::<char>::empty() + "Stage0"@);
            assert(ret@[2].name@ =~= Seq::<char>::empty() + "Stage1"@);
            assert(spec_vs_setting_at(ret@, 0, self.deep_view(), Seq::empty(), 0, 0));
        }
        ret
    }
}

impl VsEvent {
    /// One versus row: the time bar, and the mode/stage row to its right.
    pub fn to_rm(&self) -> (r: Vec<RmObject>)
        ensures
            r@.len() == 7,
            spec_timebar_at(r@, 0, Seq::empty(), self.run_time.start, self.run_time.end, 0, 0),
            spec_vs_setting_at(r@, 4, self.vs_setting.deep_view(), Seq::empty(), 100, 0),
            forall|k: int| 0 <= k < r@.len() ==> spec_extent(#[trigger] r@[k]) <= 50,
            spec_positions_bounded(r@, 500),
            exists|k: int| 0 <= k < r@.len() && spec_extent(#[trigger] r@[k]) == 50,
    {
        let mut ret = new_timebar(self.run_time.start, self.run_time.end);
        proof {
            assert(spec_extent(ret@[1]) == 50);
        }
        let mut setting = self.vs_setting.to_rm();
        let ghost spre = setting@;
        shift_meters(&mut setting, 100, 0);
        proof {
            assert forall|k: int| 0 <= k < setting@.len() implies spec_extent(
                #[trigger] setting@[k],
            ) <= 50 by {
                lemma_shift_extent(setting@[k], spre[k], 100, 0);
            }
            lemma_vs_setting_shifted(
                setting@,
                spre,
                0,
                self.vs_setting.deep_view(),
                Seq::empty(),
                0,
                0,
                100,
                0,
            );
        }
        ret.append(&mut setting);
        proof {
            reveal(spec_timebar_at);
            reveal(spec_vs_setting_at);
            assert(spec_extent(ret@[1]) == 50);
            assert(spec_timebar_at(
                ret@,
                0,
                Seq::empty(),
                self.run_time.start,
                self.run_time.end,
                0,
                0,
            ));
            assert(spec_vs_setting_at(ret@, 4, self.vs_setting.deep_view(), Seq::empty(), 100, 0));
        }
        ret
    }
}

impl SalmonRunEvent {
    /// One salmon-run row: the time bar, the stage and weapons, and the
    /// boss-prediction icon.
    pub fn to_rm(&self) -> (r: Vec<RmObject>)
        requires
            self.coop_setting.weapons@.len() <= PART_LIMIT,
        ensures
            r@.len() == 6 + self.coop_setting.weapons@.len(),
            spec_salmon_block(r@, 0, self.deep_view(), Seq::empty(), 0),
            forall|k: int| 0 <= k < r@.len() ==> spec_extent(#[trigger] r@[k]) <= 50,
            spec_positions_bounded(r@, EVENT_POS_LIMIT as int),
            exists|k: int| 0 <= k < r@.len() && spec_extent(#[trigger] r@[k]) == 50,
    {
        let ghost ev = self.deep_view();
        let mut ret = new_timebar(self.run_time.start, self.run_time.end);
        proof {
            assert(spec_extent(ret@[1]) == 50);
        }
        // the stage and weapon tiles, shifted right of the time bar
        let mut setting: Vec<RmObject> = Vec::new();
        let mut stage = self.coop_setting.coop_stage.get_rm_object();
        stage.prefix_name_mut("Stage");
        setting.push(stage);
        proof {
            assert(setting@[0].name@ =~= "Stage"@);
        }
        let mut i: usize = 0;
        while i < self.coop_setting.weapons.len()
            invariant
                i <= self.coop_setting.weapons@.len(),
                self.coop_setting.weapons@.len() <= PART_LIMIT,
                ev == self.deep_view(),
                setting@.len() == 1 + i,
                setting@[0].name@ == "Stage"@,
                spec_named_tile(
                    setting@[0],
                    "Stages"@,
                    ev.coop_setting.coop_stage.name,
                    0,
                    0,
                    100,
                    50,
                ),
                forall|w: int|
                    0 <= w < i ==> (#[trigger] setting@[1 + w]).name@ == "Weapon"@
                        + crate::text::spec_digits(w as nat) && spec_named_tile(
                        setting@[1 + w],
                        "Weapons"@,
                        ev.coop_setting.weapons[w].name,
                        100 + 50 * w,
                        0,
                        50,
                        50,
                    ),
                forall|k: int| 0 <= k < setting@.len() ==> spec_extent(#[trigger] setting@[k]) <= 50,
                spec_positions_bounded(setting@, EVENT_POS_LIMIT as int - 200),
            decreases self.coop_setting.weapons@.len() - i,
        {
            let w = &self.coop_setting.weapons[i];
            let mut obj = w.get_rm_object();
            let mut name = "Weapon".to_owned();
            let digits = u64_to_string(i as u64);
            name.append(digits.as_str());
            obj.prefix_name_mut(name.as_str());
            proof {
                assert(obj.name@ =~= "Weapon"@ + crate::text::spec_digits(i as nat));
            }
            let x: i64 = 100 + 50 * (i as i64);
            match &mut obj.object_type {
                ObjectType::Meter(_, o) => {
                    o.pos = Coord { x, y: 0 };
                    if self.coop_setting.special {
                        o.solid_color = Some(Color { r: 150, g: 150, b: 30, a: 255 });
                    }
                },
                ObjectType::Measure(_, _) => {},
            }
            setting.push(obj);
            proof {
                assert(ev.coop_setting.weapons[i as int].name == self.coop_setting.weapons@[
                    i as int
                ].name@);
                assert(spec_named_tile(
                    setting@[1 + i as int],
                    "Weapons"@,
                    ev.coop_setting.weapons[i as int].name,
                    100 + 50 * (i as int),
                    0,
                    50,
                    50,
                ));
            }
            i = i + 1;
        }
        let ghost spre = setting@;
        shift_meters(&mut setting, 100, 0);
        proof {
            let n = ev.coop_setting.weapons.len() as int;
            assert forall|k: int| 0 <= k < setting@.len() implies spec_extent(
                #[trigger] setting@[k],
            ) <= 50 by {
                lemma_shift_extent(setting@[k], spre[k], 100, 0);
            }
            assert(spec_shifted(setting@[0], spre[0], 100, 0));
            assert(spec_named_tile(
                setting@[0],
                "Stages"@,
                ev.coop_setting.coop_stage.name,
                100,
                0,
                100,
                50,
            ));
            assert forall|w: int| 0 <= w < n implies (#[trigger] setting@[1 + w]).name@ == "Weapon"@
                + crate::text::spec_digits(w as nat) && spec_named_tile(
                setting@[1 + w],
                "Weapons"@,
                ev.coop_setting.weapons[w].name,
                200 + 50 * w,
                0,
                50,
                50,
            ) by {
                assert(spec_shifted(setting@[1 + w], spre[1 + w], 100, 0));
            }
        }
        let ghost sfinal = setting@;
        ret.append(&mut setting);
        // the boss-prediction icon
        let mut king_opts = MeterOptions::new();
        king_opts.pos = Coord { x: 400, y: 0 };
        king_opts.size = Coord { x: 50, y: 50 };
        king_opts.solid_color = Some(Color { r: 75, g: 50, b: 50, a: 255 });
        king_opts.tool_tip = Some(ToolTip::new(self.king_guess.clone()));
        ret.push(
            RmObject::new(
                ObjectType::Meter(
                    MeterType::Image(
                        ImageOptions {
                            image_name: asset_path("King Salmonids", self.king_guess.as_str()),
                            preseve_aspect_ratio: false,
                        },
                    ),
                    king_opts,
                ),
            ).prefix_name_owned("King"),
        );
        proof {
            let n = ev.coop_setting.weapons.len() as int;
            reveal(spec_timebar_at);
            reveal(spec_salmon_block);
            assert(spec_extent(ret@[1]) == 50);
            assert(ret@[5 + n].name@ =~= "King"@);
            assert forall|k: int| 0 <= k < 4 implies #[trigger] ret@[k].name@ == Seq::<
                char,
            >::empty() + ret@[k].name@ by {
                assert(Seq::<char>::empty() + ret@[k].name@ =~= ret@[k].name@);
            }
            assert(Seq::<char>::empty() + "Stage"@ =~= "Stage"@);
            assert(Seq::<char>::empty() + "King"@ =~= "King"@);
            assert forall|w: int| 0 <= w < n implies Seq::<char>::empty() + ("Weapon"@
                + #[trigger] crate::text::spec_digits(w as nat)) =~= "Weapon"@
                + crate::text::spec_digits(w as nat) by {}
            assert(spec_timebar_at(
                ret@,
                0,
                Seq::empty(),
                self.run_time.start,
                self.run_time.end,
                0,
                0,
            ));
            assert(ret@[4] == sfinal[0]);
            assert(ret@[4].name@ == Seq::<char>::empty() + "Stage"@);
            assert(spec_named_tile(ret@[4], "Stages"@, ev.coop_setting.coop_stage.name, 100, 0, 100, 50));
            assert forall|w: int| 0 <= w < n implies (#[trigger] ret@[5 + w]).name@ == Seq::<
                char,
            >::empty() + ("Weapon"@ + crate::text::spec_digits(w as nat)) && spec_named_tile(
                ret@[5 + w],
                "Weapons"@,
                ev.coop_setting.weapons[w].name,
                200 + 50 * w,
                0,
                50,
                50,
            ) by {
                assert(ret@[5 + w] == sfinal[1 + w]);
            }
            assert(ret@[5 + n].name@ == Seq::<char>::empty() + "King"@);
            assert(spec_named_tile(ret@[5 + n], "King Salmonids"@, ev.king_guess, 400, 0, 50, 50));
            assert(spec_salmon_block(ret@, 0, ev, Seq::empty(), 0));
        }
        ret
    }
}

impl ChalEvent {
    /// One challenge block: a backdrop, the stacked time windows centered
    /// beside the mode/stage row, and the title and description texts.
    pub fn to_rm(&self) -> (r: Vec<RmObject>)
        requires
            self.run_time@.len() <= PART_LIMIT,
        ensures
            r@.len() == 6 + 4 * self.run_time@.len(),
            spec_chal_block(r@, 0, self.deep_view(), Seq::empty(), 0),
            forall|k: int|
                0 <= k < r@.len() ==> spec_extent(#[trigger] r@[k]) <= spec_event_height(
                    EventRecordV::Chal(self.deep_view()),
                ),
            spec_positions_bounded(r@, EVENT_POS_LIMIT as int),
    {
        let ghost ev = self.deep_view();
        let ghost h = spec_event_height(EventRecordV::Chal(ev));
        proof {
            assert(ev.run_time.len() == self.run_time@.len());
        }
        let n: i64 = self.run_time.len() as i64;
        let mut ret: Vec<RmObject> = Vec::new();
        let mut back_opts = MeterOptions::new();
        back_opts.size = Coord { x: 100, y: 150 };
        back_opts.solid_color = Some(Color { r: 50, g: 50, b: 50, a: 255 });
        ret.push(
            RmObject::new(
                ObjectType::Meter(
                    MeterType::Image(
                        ImageOptions { image_name: String::new(), preseve_aspect_ratio: false },
                    ),
                    back_opts,
                ),
            ).prefix_name_owned("Background"),
        );
        proof {
            assert(ret@[0].name@ =~= Seq::<char>::empty() + "Background"@);
        }
        let mut i: usize = 0;
        while i < self.run_time.len()
            invariant
                i <= self.run_time@.len(),
                self.run_time@.len() <= PART_LIMIT,
                n == self.run_time@.len() as i64,
                ev == self.deep_view(),
                h == spec_event_height(EventRecordV::Chal(ev)),
                ev.run_time.len() == self.run_time@.len(),
                ret@.len() == 1 + 4 * i,
                ret@[0].name@ == Seq::<char>::empty() + "Background"@,
                (ret@[0].object_type matches ObjectType::Meter(t, o) && {
                    &&& (t matches MeterType::Image(img) && img.image_name@.len() == 0)
                    &&& o.pos.x == 0
                    &&& o.pos.y == 0
                    &&& o.size.x == 100
                    &&& o.size.y == 150
                }),
                forall|w: int|
                    0 <= w < i ==> spec_timebar_at(
                        ret@,
                        1 + 4 * w,
                        Seq::<char>::empty() + ("Time"@ + crate::text::spec_digits(w as nat)),
                        (#[trigger] ev.run_time[w]).start,
                        ev.run_time[w].end,
                        0,
                        75 - 25 * (n as int) + 50 * w,
                    ),
                forall|k: int| 0 <= k < ret@.len() ==> spec_extent(#[trigger] ret@[k]) <= h,
                spec_positions_bounded(ret@, EVENT_POS_LIMIT as int),
            decreases self.run_time@.len() - i,
        {
            let w = &self.run_time[i];
            let mut bar = new_timebar(w.start, w.end);
            let idx = u64_to_string(i as u64);
            let mut prefix = "Time".to_owned();
            prefix.append(idx.as_str());
            let ghost bpre0 = bar@;
            let mut j: usize = 0;
            while j < bar.len()
                invariant
                    j <= bar@.len(),
                    bar@.len() == 4,
                    bpre0.len() == 4,
                    prefix@ == "Time"@ + crate::text::spec_digits(i as nat),
                    forall|k: int|
                        0 <= k < j ==> (#[trigger] bar@[k]).name@ == prefix@ + bpre0[k].name@
                            && spec_prefixed_type(bar@[k].object_type, bpre0[k].object_type, prefix@),
                    forall|k: int| j <= k < 4 ==> (#[trigger] bar@[k]) == bpre0[k],
                    forall|k: int| 0 <= k < bar@.len() ==> spec_extent(#[trigger] bar@[k]) <= 50,
                    forall|k: int| 0 <= k < bar@.len() ==> 0 <= spec_y(#[trigger] bar@[k]),
                    spec_positions_bounded(bar@, 200),
                decreases bar@.len() - j,
            {
                let ghost before = bar@[j as int];
                bar[j].prefix_name_mut(prefix.as_str());
                proof {
                    assert(spec_extent(bar@[j as int]) == spec_extent(before));
                    assert(spec_y(bar@[j as int]) == spec_y(before));
                }
                j = j + 1;
            }
            proof {
                lemma_timebar_prefixed(bar@, bpre0, 0, prefix@, Seq::empty(), w.start, w.end, 0, 0);
            }
            let off: i64 = 75 - 25 * n + 50 * (i as i64);
            let ghost bpre = bar@;
            shift_meters(&mut bar, 0, off);
            proof {
                lemma_timebar_shifted(
                    bar@,
                    bpre,
                    0,
                    prefix@ + Seq::empty(),
                    w.start,
                    w.end,
                    0,
                    0,
                    0,
                    off as int,
                );
                assert(prefix@ + Seq::<char>::empty() =~= Seq::<char>::empty() + ("Time"@
                    + crate::text::spec_digits(i as nat)));
                assert forall|k: int| 0 <= k < bar@.len() implies spec_extent(
                    #[trigger] bar@[k],
                ) <= h && (match bar@[k].object_type {
                    ObjectType::Meter(_, o) => -(EVENT_POS_LIMIT as int) <= o.pos.x
                        <= EVENT_POS_LIMIT as int && -(EVENT_POS_LIMIT as int) <= o.pos.y
                        <= EVENT_POS_LIMIT as int,
                    ObjectType::Measure(_, _) => true,
                }) by {
                    lemma_shift_extent(bar@[k], bpre[k], 0, off as int);
                }
            }
            let ghost rpre = ret@;
            ret.append(&mut bar);
            proof {
                reveal(spec_timebar_at);
                assert forall|w2: int| 0 <= w2 < i + 1 implies spec_timebar_at(
                    ret@,
                    1 + 4 * w2,
                    Seq::<char>::empty() + ("Time"@ + crate::text::spec_digits(w2 as nat)),
                    (#[trigger] ev.run_time[w2]).start,
                    ev.run_time[w2].end,
                    0,
                    75 - 25 * (n as int) + 50 * w2,
                ) by {
                    if w2 < i {
                        assert(spec_timebar_at(
                            rpre,
                            1 + 4 * w2,
                            Seq::<char>::empty() + ("Time"@ + crate::text::spec_digits(w2 as nat)),
                            ev.run_time[w2].start,
                            ev.run_time[w2].end,
                            0,
                            75 - 25 * (n as int) + 50 * w2,
                        ));
                    } else {
                        assert(ev.run_time[w2] == (TimeRange { start: w.start, end: w.end }));
                    }
                }
            }
            i = i + 1;
        }
        let mut setting = self.vs_setting.to_rm();
        let ghost spre = setting@;
        shift_meters(&mut setting, 100, 0);
        proof {
            assert forall|k: int| 0 <= k < setting@.len() implies spec_extent(
                #[trigger] setting@[k],
            ) <= 50 by {
                lemma_shift_extent(setting@[k], spre[k], 100, 0);
            }
            lemma_vs_setting_shifted(
                setting@,
                spre,
                0,
                ev.vs_setting,
                Seq::empty(),
                0,
                0,
                100,
                0,
            );
        }
        let ghost rpre2 = ret@;
        ret.append(&mut setting);
        proof {
            reveal(spec_timebar_at);
            reveal(spec_vs_setting_at);
            assert forall|w2: int| 0 <= w2 < n as int implies spec_timebar_at(
                ret@,
                1 + 4 * w2,
                Seq::<char>::empty() + ("Time"@ + crate::text::spec_digits(w2 as nat)),
                (#[trigger] ev.run_time[w2]).start,
                ev.run_time[w2].end,
                0,
                75 - 25 * (n as int) + 50 * w2,
            ) by {
                assert(spec_timebar_at(
                    rpre2,
                    1 + 4 * w2,
                    Seq::<char>::empty() + ("Time"@ + crate::text::spec_digits(w2 as nat)),
                    ev.run_time[w2].start,
                    ev.run_time[w2].end,
                    0,
                    75 - 25 * (n as int) + 50 * w2,
                ));
            }
            assert(spec_vs_setting_at(ret@, 1 + 4 * (n as int), ev.vs_setting, Seq::empty(), 100, 0));
        }
        let mut title_text = StringOptions::default();
        title_text.text = self.title.clone();
        let mut title_opts = MeterOptions::new();
        title_opts.pos = Coord { x: 225, y: 75 };
        title_opts.size = Coord { x: 250, y: 50 };
        title_opts.solid_color = Some(Color { r: 40, g: 40, b: 40, a: 255 });
        title_opts.tool_tip = Some(ToolTip::new(self.details.clone()));
        ret.push(
            RmObject::new(ObjectType::Meter(MeterType::String(title_text), title_opts))
                .prefix_name_owned("Title"),
        );
        let mut desc_text = StringOptions::default();
        desc_text.text = self.desc.clone();
        desc_text.font_size = Some(10);
        desc_text.font_weight = Some(400);
        let mut desc_opts = MeterOptions::new();
        desc_opts.pos = Coord { x: 225, y: 125 };
        desc_opts.size = Coord { x: 250, y: 50 };
        desc_opts.solid_color = Some(Color { r: 40, g: 40, b: 40, a: 255 });
        desc_opts.tool_tip = Some(ToolTip::new(self.details.clone()));
        ret.push(
            RmObject::new(ObjectType::Meter(MeterType::String(desc_text), desc_opts))
                .prefix_name_owned("Desc"),
        );
        proof {
            reveal(spec_timebar_at);
            reveal(spec_vs_setting_at);
            reveal(spec_chal_block);
            assert(ret@[4 + 4 * (n as int)].name@ =~= Seq::<char>::empty() + "Title"@);
            assert(ret@[5 + 4 * (n as int)].name@ =~= Seq::<char>::empty() + "Desc"@);
            assert(spec_chal_block(ret@, 0, ev, Seq::empty(), 0));
        }
        ret
    }
}

impl EventRecord {
    /// The objects of one event row, at the row's own origin.
    pub fn to_rm(&self) -> (r: Vec<RmObject>)
        requires
            spec_layout_ok(self.deep_view()),
        ensures
            r@.len() == spec_event_objs(self.deep_view()),
            spec_event_block(r@, 0, self.deep_view(), Seq::empty(), 0),
            forall|k: int|
                0 <= k < r@.len() ==> spec_extent(#[trigger] r@[k]) <= spec_event_height(
                    self.deep_view(),
                ),
            spec_positions_bounded(r@, EVENT_POS_LIMIT as int),
    {
        proof {
            reveal(spec_event_block);
        }
        match self {
            EventRecord::Vs(e) => e.to_rm(),
            EventRecord::Chal(e) => e.to_rm(),
            EventRecord::SalmonRun(e) => e.to_rm(),
        }
    }
}

/// One salmon-run row: its time bar, the stage tile, one tile per weapon,
/// and the boss-prediction icon, named under `prefix` and offset by `dy`.
#[verifier::opaque]
pub open spec fn spec_salmon_block(
    s: Seq<RmObject>,
    i: int,
    e: crate::rm_structure::SalmonRunEventV,
    prefix: Seq<char>,
    dy: int,
) -> bool {
    let n = e.coop_setting.weapons.len() as int;
    &&& 0 <= i && i + 6 + n <= s.len()
    &&& spec_timebar_at(s, i, prefix, e.run_time.start, e.run_time.end, 0, dy)
    &&& s[i + 4].name@ == prefix + "Stage"@
    &&& spec_named_tile(s[i + 4], "Stages"@, e.coop_setting.coop_stage.name, 100, dy, 100, 50)
    &&& forall|w: int|
        0 <= w < n ==> {
            &&& (#[trigger] s[i + 5 + w]).name@ == prefix + ("Weapon"@ + crate::text::spec_digits(
                w as nat,
            ))
            &&& spec_named_tile(
                s[i + 5 + w],
                "Weapons"@,
                e.coop_setting.weapons[w].name,
                200 + 50 * w,
                dy,
                50,
                50,
            )
        }
    &&& s[i + 5 + n].name@ == prefix + "King"@
    &&& spec_named_tile(s[i + 5 + n], "King Salmonids"@, e.king_guess, 400, dy, 50, 50)
}

/// One challenge block: the backdrop, the centered time windows, the
/// mode/stage row, and the title and description texts, named under
/// `prefix` and offset by `dy`.
#[verifier::opaque]
pub open spec fn spec_chal_block(
    s: Seq<RmObject>,
    i: int,
    e: crate::rm_structure::ChalEventV,
    prefix: Seq<char>,
    dy: int,
) -> bool {
    let n = e.run_time.len() as int;
    &&& 0 <= i && i + 6 + 4 * n <= s.len()
    &&& s[i].name@ == prefix + "Background"@
    &&& (s[i].object_type matches ObjectType::Meter(t, o) && {
        &&& (t matches MeterType::Image(img) && img.image_name@.len() == 0)
        &&& o.pos.x == 0
        &&& o.pos.y == dy
        &&& o.size.x == 100
        &&& o.size.y == 150
    })
    &&& forall|w: int|
        0 <= w < n ==> spec_timebar_at(
            s,
            i + 1 + 4 * w,
            prefix + ("Time"@ + crate::text::spec_digits(w as nat)),
            (#[trigger] e.run_time[w]).start,
            e.run_time[w].end,
            0,
            dy + 75 - 25 * n + 50 * w,
        )
    &&& spec_vs_setting_at(s, i + 1 + 4 * n, e.vs_setting, prefix, 100, dy)
    &&& s[i + 4 + 4 * n].name@ == prefix + "Title"@
    &&& (s[i + 4 + 4 * n].object_type matches ObjectType::Meter(t, o) && {
        &&& (t matches MeterType::String(st) && st.text@ == e.title)
        &&& (o.tool_tip matches Some(tt) && tt.spec_text() == e.details)
        &&& o.pos.x == 225
        &&& o.pos.y == 75 + dy
        &&& o.size.x == 250
        &&& o.size.y == 50
    })
    &&& s[i + 5 + 4 * n].name@ == prefix + "Desc"@
    &&& (s[i + 5 + 4 * n].object_type matches ObjectType::Meter(t, o) && {
        &&& (t matches MeterType::String(st) && st.text@ == e.desc)
        &&& (o.tool_tip matches Some(tt) && tt.spec_text() == e.details)
        &&& o.pos.x == 225
        &&& o.pos.y == 125 + dy
        &&& o.size.x == 250
        &&& o.size.y == 50
    })
}

/// The full content of one event row at its own origin: the row's block
/// predicate for its kind.
#[verifier::opaque]
pub open spec fn spec_event_block(
    s: Seq<RmObject>,
    i: int,
    e: EventRecordV,
    prefix: Seq<char>,
    dy: int,
) -> bool {
    match e {
        EventRecordV::Vs(v) => {
            &&& spec_timebar_at(s, i, prefix, v.run_time.start, v.run_time.end, 0, dy)
            &&& spec_vs_setting_at(s, i + 4, v.vs_setting, prefix, 100, dy)
        },
        EventRecordV::SalmonRun(sr) => spec_salmon_block(s, i, sr, prefix, dy),
        EventRecordV::Chal(c) => spec_chal_block(s, i, c, prefix, dy),
    }
}


/// Prefixing every object of an event block composes its names under the
/// new outer component and touches nothing else.
#[verifier::rlimit(100)]
#[verifier::spinoff_prover]
pub proof fn lemma_event_block_prefixed(
    b: Seq<RmObject>,
    a: Seq<RmObject>,
    i: int,
    e: EventRecordV,
    p: Seq<char>,
    q: Seq<char>,
    dy: int,
)
    requires
        b.len() == a.len(),
        forall|k: int|
            0 <= k < a.len() ==> (#[trigger] b[k]).name@ == p + a[k].name@ && spec_prefixed_type(
                b[k].object_type,
                a[k].object_type,
                p,
            ),
        spec_event_block(a, i, e, q, dy),
    ensures
        spec_event_block(b, i, e, p + q, dy),
{
    reveal(spec_event_block);
    reveal(spec_timebar_at);
    reveal(spec_vs_setting_at);
    reveal(spec_salmon_block);
    reveal(spec_chal_block);
    match e {
        EventRecordV::Vs(v) => {
            lemma_timebar_prefixed(b, a, i, p, q, v.run_time.start, v.run_time.end, 0, dy);
            assert((p + q) + "Mode"@ =~= p + (q + "Mode"@));
            assert((p + q) + "Stage0"@ =~= p + (q + "Stage0"@));
            assert((p + q) + "Stage1"@ =~= p + (q + "Stage1"@));
            assert(spec_prefixed_type(b[i + 4].object_type, a[i + 4].object_type, p));
            assert(spec_prefixed_type(b[i + 5].object_type, a[i + 5].object_type, p));
            assert(spec_prefixed_type(b[i + 6].object_type, a[i + 6].object_type, p));
        },
        EventRecordV::SalmonRun(sr) => {
            let n = sr.coop_setting.weapons.len() as int;
            lemma_timebar_prefixed(b, a, i, p, q, sr.run_time.start, sr.run_time.end, 0, dy);
            assert((p + q) + "Stage"@ =~= p + (q + "Stage"@));
            assert((p + q) + "King"@ =~= p + (q + "King"@));
            assert(spec_prefixed_type(b[i + 4].object_type, a[i + 4].object_type, p));
            assert(spec_prefixed_type(b[i + 5 + n].object_type, a[i + 5 + n].object_type, p));
            assert forall|w: int| 0 <= w < n implies (#[trigger] b[i + 5 + w]).name@ == (p + q) + (
                "Weapon"@ + crate::text::spec_digits(w as nat)) && spec_named_tile(
                b[i + 5 + w],
                "Weapons"@,
                sr.coop_setting.weapons[w].name,
                200 + 50 * w,
                dy,
                50,
                50,
            ) by {
                assert((p + q) + ("Weapon"@ + crate::text::spec_digits(w as nat)) =~= p + (q + (
                "Weapon"@ + crate::text::spec_digits(w as nat))));
                assert(spec_prefixed_type(b[i + 5 + w].object_type, a[i + 5 + w].object_type, p));
            }
        },
        EventRecordV::Chal(c) => {
            let n = c.run_time.len() as int;
            assert((p + q) + "Background"@ =~= p + (q + "Background"@));
            assert((p + q) + "Title"@ =~= p + (q + "Title"@));
            assert((p + q) + "Desc"@ =~= p + (q + "Desc"@));
            assert(spec_prefixed_type(b[i].object_type, a[i].object_type, p));
            assert(spec_prefixed_type(b[i + 4 + 4 * n].object_type, a[i + 4 + 4 * n].object_type, p));
            assert(spec_prefixed_type(b[i + 5 + 4 * n].object_type, a[i + 5 + 4 * n].object_type, p));
            assert forall|w: int| 0 <= w < n implies spec_timebar_at(
                b,
                i + 1 + 4 * w,
                (p + q) + ("Time"@ + crate::text::spec_digits(w as nat)),
                (#[trigger] c.run_time[w]).start,
                c.run_time[w].end,
                0,
                dy + 75 - 25 * n + 50 * w,
            ) by {
                lemma_timebar_prefixed(
                    b,
                    a,
                    i + 1 + 4 * w,
                    p,
                    q + ("Time"@ + crate::text::spec_digits(w as nat)),
                    c.run_time[w].start,
                    c.run_time[w].end,
                    0,
                    dy + 75 - 25 * n + 50 * w,
                );
                assert((p + q) + ("Time"@ + crate::text::spec_digits(w as nat)) =~= p + (q + (
                "Time"@ + crate::text::spec_digits(w as nat))));
            }
            assert((p + q) + "Mode"@ =~= p + (q + "Mode"@));
            assert((p + q) + "Stage0"@ =~= p + (q + "Stage0"@));
            assert((p + q) + "Stage1"@ =~= p + (q + "Stage1"@));
            assert(spec_prefixed_type(b[i + 1 + 4 * n].object_type, a[i + 1 + 4 * n].object_type, p));
            assert(spec_prefixed_type(b[i + 2 + 4 * n].object_type, a[i + 2 + 4 * n].object_type, p));
            assert(spec_prefixed_type(b[i + 3 + 4 * n].object_type, a[i + 3 + 4 * n].object_type, p));
        },
    }
}

/// Shifting every meter of an event block moves its vertical offset and
/// nothing else.
#[verifier::rlimit(100)]
#[verifier::spinoff_prover]
pub proof fn lemma_event_block_shifted(
    b: Seq<RmObject>,
    a: Seq<RmObject>,
    i: int,
    e: EventRecordV,
    q: Seq<char>,
    dy0: int,
    dy: int,
)
    requires
        b.len() == a.len(),
        forall|k: int| 0 <= k < a.len() ==> spec_shifted(#[trigger] b[k], a[k], 0, dy),
        spec_event_block(a, i, e, q, dy0),
    ensures
        spec_event_block(b, i, e, q, dy0 + dy),
{
    reveal(spec_event_block);
    reveal(spec_timebar_at);
    reveal(spec_vs_setting_at);
    reveal(spec_salmon_block);
    reveal(spec_chal_block);
    match e {
        EventRecordV::Vs(v) => {
            lemma_timebar_shifted(b, a, i, q, v.run_time.start, v.run_time.end, 0, dy0, 0, dy);
            lemma_vs_setting_shifted(b, a, i + 4, v.vs_setting, q, 100, dy0, 0, dy);
        },
        EventRecordV::SalmonRun(sr) => {
            let n = sr.coop_setting.weapons.len() as int;
            lemma_timebar_shifted(b, a, i, q, sr.run_time.start, sr.run_time.end, 0, dy0, 0, dy);
            assert(spec_shifted(b[i + 4], a[i + 4], 0, dy));
            assert(spec_shifted(b[i + 5 + n], a[i + 5 + n], 0, dy));
            assert forall|w: int| 0 <= w < n implies (#[trigger] b[i + 5 + w]).name@ == q + (
                "Weapon"@ + crate::text::spec_digits(w as nat)) && spec_named_tile(
                b[i + 5 + w],
                "Weapons"@,
                sr.coop_setting.weapons[w].name,
                200 + 50 * w,
                dy0 + dy,
                50,
                50,
            ) by {
                assert(spec_shifted(b[i + 5 + w], a[i + 5 + w], 0, dy));
            }
        },
        EventRecordV::Chal(c) => {
            let n = c.run_time.len() as int;
            assert(spec_shifted(b[i], a[i], 0, dy));
            assert(spec_shifted(b[i + 4 + 4 * n], a[i + 4 + 4 * n], 0, dy));
            assert(spec_shifted(b[i + 5 + 4 * n], a[i + 5 + 4 * n], 0, dy));
            assert forall|w: int| 0 <= w < n implies spec_timebar_at(
                b,
                i + 1 + 4 * w,
                q + ("Time"@ + crate::text::spec_digits(w as nat)),
                (#[trigger] c.run_time[w]).start,
                c.run_time[w].end,
                0,
                (dy0 + dy) + 75 - 25 * n + 50 * w,
            ) by {
                lemma_timebar_shifted(
                    b,
                    a,
                    i + 1 + 4 * w,
                    q + ("Time"@ + crate::text::spec_digits(w as nat)),
                    c.run_time[w].start,
                    c.run_time[w].end,
                    0,
                    dy0 + 75 - 25 * n + 50 * w,
                    0,
                    dy,
                );
            }
            lemma_vs_setting_shifted(b, a, i + 1 + 4 * n, c.vs_setting, q, 100, dy0, 0, dy);
        },
    }
}

/// An event block read off one sequence holds in any sequence that carries
/// the same objects at another base index.
#[verifier::rlimit(100)]
#[verifier::spinoff_prover]
pub proof fn lemma_event_block_offset(
    t: Seq<RmObject>,
    s: Seq<RmObject>,
    at_t: int,
    at_s: int,
    e: EventRecordV,
    q: Seq<char>,
    dy: int,
)
    requires
        spec_event_block(s, at_s, e, q, dy),
        0 <= at_t,
        at_t + spec_event_objs(e) <= t.len(),
        forall|k: int| 0 <= k < spec_event_objs(e) ==> #[trigger] t[at_t + k] == s[at_s + k],
    ensures
        spec_event_block(t, at_t, e, q, dy),
{
    reveal(spec_event_block);
    reveal(spec_timebar_at);
    reveal(spec_vs_setting_at);
    reveal(spec_salmon_block);
    reveal(spec_chal_block);
    match e {
        EventRecordV::Vs(_) => {
            assert(t[at_t + 0] == s[at_s + 0]);
            assert(t[at_t + 1] == s[at_s + 1]);
            assert(t[at_t + 2] == s[at_s + 2]);
            assert(t[at_t + 3] == s[at_s + 3]);
            assert(t[at_t + 4] == s[at_s + 4]);
            assert(t[at_t + 5] == s[at_s + 5]);
            assert(t[at_t + 6] == s[at_s + 6]);
        },
        EventRecordV::SalmonRun(sr) => {
            let n = sr.coop_setting.weapons.len() as int;
            assert forall|w: int| 0 <= w < n implies #[trigger] t[at_t + 5 + w] == s[at_s + 5 + w] by {
                assert(t[at_t + (5 + w)] == s[at_s + (5 + w)]);
            }
            assert(t[at_t + 0] == s[at_s + 0]);
            assert(t[at_t + 1] == s[at_s + 1]);
            assert(t[at_t + 2] == s[at_s + 2]);
            assert(t[at_t + 3] == s[at_s + 3]);
            assert(t[at_t + 4] == s[at_s + 4]);
            assert(t[at_t + (5 + n)] == s[at_s + (5 + n)]);
        },
        EventRecordV::Chal(c) => {
            let n = c.run_time.len() as int;
            assert(t[at_t + 0] == s[at_s + 0]);
            assert forall|w: int| 0 <= w < n implies spec_timebar_at(
                t,
                at_t + 1 + 4 * w,
                q + ("Time"@ + crate::text::spec_digits(w as nat)),
                (#[trigger] c.run_time[w]).start,
                c.run_time[w].end,
                0,
                dy + 75 - 25 * n + 50 * w,
            ) by {
                assert(t[at_t + (1 + 4 * w)] == s[at_s + (1 + 4 * w)]);
                assert(t[at_t + (2 + 4 * w)] == s[at_s + (2 + 4 * w)]);
                assert(t[at_t + (3 + 4 * w)] == s[at_s + (3 + 4 * w)]);
                assert(t[at_t + (4 + 4 * w)] == s[at_s + (4 + 4 * w)]);
            }
            assert(t[at_t + (1 + 4 * n)] == s[at_s + (1 + 4 * n)]);
            assert(t[at_t + (2 + 4 * n)] == s[at_s + (2 + 4 * n)]);
            assert(t[at_t + (3 + 4 * n)] == s[at_s + (3 + 4 * n)]);
            assert(t[at_t + (4 + 4 * n)] == s[at_s + (4 + 4 * n)]);
            assert(t[at_t + (5 + 4 * n)] == s[at_s + (5 + 4 * n)]);
        },
    }
}

// ---------------------------------------------------------------------------
// Vertical stacking.
// ---------------------------------------------------------------------------

/// The stacking law: the first event sits right under the 50-tall header
/// row, and each later event sits exactly one contributed height below its
/// predecessor.
pub open spec fn spec_offsets_ok(offs: Seq<i64>, evs: Seq<EventRecordV>) -> bool {
    &&& offs.len() == evs.len()
    &&& (offs.len() > 0 ==> offs[0] == 50)
    &&& forall|i: int|
        0 <= i && i + 1 < offs.len() ==> (#[trigger] offs[i + 1]) as int == offs[i]
            + spec_event_height(evs[i])
}

/// Vertical stacking is monotonic: any later event's top offset lies at or
/// below any earlier event's top offset plus everything that earlier event
/// contributed; consecutive events touch exactly.
pub proof fn lemma_stacking_monotonic(offs: Seq<i64>, evs: Seq<EventRecordV>, i: int, j: int)
    requires
        spec_offsets_ok(offs, evs),
        0 <= i < j < offs.len(),
    ensures
        offs[i] + spec_event_height(evs[i]) <= offs[j],
        offs[i] < offs[j],
    decreases j - i,
{
    lemma_height_at_least_50(evs[i]);
    if i + 1 == j {
    } else {
        lemma_stacking_monotonic(offs, evs, i + 1, j);
        lemma_height_at_least_50(evs[i + 1]);
    }
}

/// Appending one more stacked row keeps every previous row's block and
/// adds the new one at its start index.
#[verifier::rlimit(100)]
#[verifier::spinoff_prover]
proof fn lemma_stack_append_step(
    objs_new: Seq<RmObject>,
    objs_pre: Seq<RmObject>,
    row_final: Seq<RmObject>,
    evsv: Seq<EventRecordV>,
    i: int,
    accum: int,
)
    requires
        0 <= i < evsv.len(),
        objs_pre.len() == spec_total_objs(evsv.take(i)),
        row_final.len() == spec_event_objs(evsv[i]),
        objs_new == objs_pre + row_final,
        forall|j: int|
            0 <= j < i ==> spec_event_block(
                objs_pre,
                spec_total_objs(evsv.take(j)),
                #[trigger] evsv[j],
                crate::text::spec_digits(j as nat),
                50 + spec_total_height(evsv.take(j)),
            ),
        spec_event_block(row_final, 0, evsv[i], crate::text::spec_digits(i as nat), accum),
        accum == 50 + spec_total_height(evsv.take(i)),
    ensures
        forall|j: int|
            0 <= j < i + 1 ==> spec_event_block(
                objs_new,
                spec_total_objs(evsv.take(j)),
                #[trigger] evsv[j],
                crate::text::spec_digits(j as nat),
                50 + spec_total_height(evsv.take(j)),
            ),
{
    assert forall|j: int| 0 <= j < i + 1 implies spec_event_block(
        objs_new,
        spec_total_objs(evsv.take(j)),
        #[trigger] evsv[j],
        crate::text::spec_digits(j as nat),
        50 + spec_total_height(evsv.take(j)),
    ) by {
        lemma_total_objs_prefix(evsv, j);
        lemma_total_objs_prefix(evsv, j + 1);
        lemma_total_objs_prefix(evsv, i);
        if j < i {
            lemma_total_objs_mono(evsv, j + 1, i);
            lemma_event_block_offset(
                objs_new,
                objs_pre,
                spec_total_objs(evsv.take(j)),
                spec_total_objs(evsv.take(j)),
                evsv[j],
                crate::text::spec_digits(j as nat),
                50 + spec_total_height(evsv.take(j)),
            );
        } else {
            lemma_event_block_offset(
                objs_new,
                row_final,
                spec_total_objs(evsv.take(i)),
                0,
                evsv[i],
                crate::text::spec_digits(i as nat),
                50 + spec_total_height(evsv.take(i)),
            );
        }
    }
}

proof fn lemma_total_objs_mono(evs: Seq<EventRecordV>, a: int, b: int)
    requires
        0 <= a <= b <= evs.len(),
    ensures
        spec_total_objs(evs.take(a)) <= spec_total_objs(evs.take(b)),
    decreases b - a,
{
    if a < b {
        lemma_total_objs_prefix(evs, a);
        lemma_total_objs_mono(evs, a + 1, b);
    }
}

/// Stack a group's events below its header: returns the objects of every
/// event, shifted to its row, together with each event's top offset.
#[verifier::rlimit(100)]
#[verifier::spinoff_prover]
pub fn stack_events(events: &Vec<EventRecord>) -> (r: (Vec<RmObject>, Vec<i64>))
    requires
        forall|i: int|
            0 <= i < events.deep_view().len() ==> spec_layout_ok(#[trigger] events.deep_view()[i]),
        50 + spec_total_height(events.deep_view()) <= STACK_LIMIT,
    ensures
        spec_offsets_ok(r.1@, events.deep_view()),
        r.0@.len() == spec_total_objs(events.deep_view()),
        forall|j: int|
            0 <= j < events.deep_view().len() ==> spec_event_block(
                r.0@,
                spec_total_objs(events.deep_view().take(j)),
                #[trigger] events.deep_view()[j],
                crate::text::spec_digits(j as nat),
                50 + spec_total_height(events.deep_view().take(j)),
            ),
        spec_positions_bounded(r.0@, GRAPH_POS_LIMIT as int),
{
    let evs = events;
    let ghost evsv = events.deep_view();
    let mut objs: Vec<RmObject> = Vec::new();
    let mut offs: Vec<i64> = Vec::new();
    let mut accum: i64 = 50;
    let mut i: usize = 0;
    proof {
        lemma_total_nonneg(evsv);
        assert(evsv.take(0) =~= Seq::<EventRecordV>::empty());
    }
    while i < evs.len()
        invariant
            i <= evs@.len(),
            evsv == evs.deep_view(),
            evsv.len() == evs@.len(),
            forall|k: int| 0 <= k < evsv.len() ==> spec_layout_ok(#[trigger] evsv[k]),
            50 + spec_total_height(evsv) <= STACK_LIMIT,
            accum as int == 50 + spec_total_height(evsv.take(i as int)),
            offs@.len() == i,
            spec_offsets_ok(offs@, evsv.take(i as int)),
            (i > 0 ==> accum as int == offs@[i - 1] + spec_event_height(evsv[i - 1])),
            objs@.len() == spec_total_objs(evsv.take(i as int)),
            forall|j: int|
                0 <= j < i ==> spec_event_block(
                    objs@,
                    spec_total_objs(evsv.take(j)),
                    #[trigger] evsv[j],
                    crate::text::spec_digits(j as nat),
                    50 + spec_total_height(evsv.take(j)),
                ),
            spec_positions_bounded(objs@, GRAPH_POS_LIMIT as int),
        decreases evs@.len() - i,
    {
        proof {
            lemma_total_height_prefix(evsv, i as int);
            lemma_height_at_least_50(evsv[i as int]);
            assert(evsv.take(i + 1).drop_last() =~= evsv.take(i as int));
            assert(evsv.take(i + 1).last() == evsv[i as int]);
        }
        let ev = &evs[i];
        let mut row = ev.to_rm();
        let idx = u64_to_string(i as u64);
        let ghost row0 = row@;
        let mut j: usize = 0;
        while j < row.len()
            invariant
                j <= row@.len(),
                row@.len() == spec_event_objs(evsv[i as int]),
                row0.len() == row@.len(),
                idx@ == crate::text::spec_digits(i as nat),
                forall|k: int|
                    0 <= k < j ==> (#[trigger] row@[k]).name@ == idx@ + row0[k].name@
                        && spec_prefixed_type(row@[k].object_type, row0[k].object_type, idx@),
                forall|k: int| j <= k < row@.len() ==> (#[trigger] row@[k]) == row0[k],
                spec_positions_bounded(row@, EVENT_POS_LIMIT as int),
            decreases row@.len() - j,
        {
            let ghost before = row@[j as int];
            row[j].prefix_name_mut(idx.as_str());
            j = j + 1;
        }
        proof {
            lemma_event_block_prefixed(
                row@,
                row0,
                0,
                evsv[i as int],
                idx@,
                Seq::empty(),
                0,
            );
        }
        let ghost row1 = row@;
        shift_meters(&mut row, 0, accum);
        proof {
            assert(spec_positions_bounded(row@, GRAPH_POS_LIMIT as int));
            lemma_event_block_shifted(
                row@,
                row1,
                0,
                evsv[i as int],
                idx@ + Seq::empty(),
                0,
                accum as int,
            );
            assert(idx@ + Seq::<char>::empty() =~= crate::text::spec_digits(i as nat));
        }
        let ghost objs_pre = objs@;
        let ghost row_final = row@;
        objs.append(&mut row);
        proof {
            assert(spec_event_block(
                row_final,
                0,
                evsv[i as int],
                crate::text::spec_digits(i as nat),
                accum as int,
            ));
            lemma_stack_append_step(objs@, objs_pre, row_final, evsv, i as int, accum as int);
            lemma_total_objs_prefix(evsv, i as int);
        }
        let ghost offs_old = offs@;
        offs.push(accum);
        proof {
            let o2 = offs@;
            let e2 = evsv.take(i + 1);
            assert(o2.len() == i + 1);
            assert(o2[0] == 50);
            assert forall|k: int| 0 <= k && k + 1 < o2.len() implies (#[trigger] o2[k + 1]) as int
                == o2[k] + spec_event_height(e2[k]) by {
                if k + 1 < i {
                    assert(offs_old[k + 1] as int == offs_old[k] + spec_event_height(
                        evsv.take(i as int)[k],
                    ));
                } else {
                    assert(k + 1 == i);
                }
            }
            assert(spec_offsets_ok(o2, e2));
        }
        accum = accum + event_height(ev);
        i = i + 1;
    }
    proof {
        assert(evsv.take(evsv.len() as int) =~= evsv);
    }
    (objs, offs)
}

/// The closed-form contributed height of one event.
pub fn event_height(e: &EventRecord) -> (h: i64)
    requires
        spec_layout_ok(e.deep_view()),
    ensures
        h as int == spec_event_height(e.deep_view()),
{
    match e {
        EventRecord::Vs(_) => 50,
        EventRecord::SalmonRun(_) => 50,
        EventRecord::Chal(c) => {
            let n: i64 = c.run_time.len() as i64;
            proof {
                assert(c.deep_view().run_time.len() == c.run_time@.len());
            }
            if 150 >= 75 + 25 * n {
                150
            } else {
                75 + 25 * n
            }
        },
    }
}

// ---------------------------------------------------------------------------
// Group rendering.
// ---------------------------------------------------------------------------

/// The view of the host command produced by [`bang_redraw`].
pub open spec fn spec_bang_redraw(id: Seq<char>) -> Seq<char> {
    "!CommandMeasure SplatinkCore \"redrawsche "@ + id + "\""@
}

/// Every meter of a group is tagged for grouped show/hide and wired with
/// the navigation triggers: hidden unless its group is the selected one,
/// tagged with the group id, and scrolling selects the neighbor groups.
pub open spec fn spec_group_tagged(
    b: RmObject,
    id: Seq<char>,
    prev: Seq<char>,
    next: Seq<char>,
    visible: bool,
) -> bool {
    match b.object_type {
        ObjectType::Meter(_, o) => {
            &&& o.hidden == !visible
            &&& o.groups@.len() > 0
            &&& o.groups@.last()@ == id
            &&& o.scroll_down_action@.len() > 0
            &&& o.scroll_down_action@.last()@ == spec_bang_redraw(next)
            &&& o.scroll_up_action@.len() > 0
            &&& o.scroll_up_action@.last()@ == spec_bang_redraw(prev)
        },
        ObjectType::Measure(_, _) => true,
    }
}

/// A group's events are small enough to lay out, and their summed heights
/// stay inside the coordinate budget.
pub open spec fn spec_group_fits(evs: Seq<EventRecordV>) -> bool {
    &&& forall|i: int| 0 <= i < evs.len() ==> spec_layout_ok(#[trigger] evs[i])
    &&& 50 + spec_total_height(evs) <= STACK_LIMIT
}

/// Decide whether a group can be laid out within the coordinate budget.
pub fn group_fits(events: &Vec<EventRecord>) -> (r: bool)
    ensures
        r == spec_group_fits(events.deep_view()),
{
    let ghost evsv = events.deep_view();
    let mut total: i64 = 50;
    let mut i: usize = 0;
    proof {
        lemma_total_nonneg(evsv);
        assert(evsv.take(0) =~= Seq::<EventRecordV>::empty());
    }
    while i < events.len()
        invariant
            i <= events@.len(),
            evsv == events.deep_view(),
            evsv.len() == events@.len(),
            forall|k: int| 0 <= k < i ==> spec_layout_ok(#[trigger] evsv[k]),
            total as int == 50 + spec_total_height(evsv.take(i as int)),
            total <= STACK_LIMIT,
        decreases events@.len() - i,
    {
        let ok = match &events[i] {
            EventRecord::Vs(_) => true,
            EventRecord::SalmonRun(s) => s.coop_setting.weapons.len() <= PART_LIMIT,
            EventRecord::Chal(c) => c.run_time.len() <= PART_LIMIT,
        };
        if !ok {
            return false;
        }
        let h = event_height(&events[i]);
        proof {
            lemma_total_height_prefix(evsv, i as int);
            lemma_height_at_least_50(evsv[i as int]);
        }
        if h > STACK_LIMIT - total {
            proof {
                lemma_total_height_prefix(evsv, i + 1);
            }
            return false;
        }
        total = total + h;
        i = i + 1;
    }
    proof {
        assert(evsv.take(evsv.len() as int) =~= evsv);
    }
    true
}


/// `b` is `a` with only the group tag, the scroll actions, and the hidden
/// flag touched; everything else — name, meter type, geometry, tooltips,
/// click actions, measure references — is unchanged.
pub open spec fn spec_retagged(b: RmObject, a: RmObject) -> bool {
    &&& b.name == a.name
    &&& match a.object_type {
        ObjectType::Meter(t1, o1) => {
            &&& b.object_type matches ObjectType::Meter(t2, o2)
            &&& t2 == t1
            &&& o2 == (MeterOptions {
                groups: o2.groups,
                scroll_down_action: o2.scroll_down_action,
                scroll_up_action: o2.scroll_up_action,
                hidden: o2.hidden,
                ..o1
            })
        },
        ObjectType::Measure(_, _) => b.object_type == a.object_type,
    }
}

/// Retagging leaves a time bar block intact.
pub proof fn lemma_timebar_retagged(
    b: Seq<RmObject>,
    a: Seq<RmObject>,
    i: int,
    prefix: Seq<char>,
    start: i64,
    end: i64,
    dx0: int,
    dy0: int,
)
    requires
        b.len() == a.len(),
        forall|k: int| 0 <= k < a.len() ==> spec_retagged(#[trigger] b[k], a[k]),
        spec_timebar_at(a, i, prefix, start, end, dx0, dy0),
    ensures
        spec_timebar_at(b, i, prefix, start, end, dx0, dy0),
{
    reveal(spec_timebar_at);
    assert(spec_retagged(b[i], a[i]));
    assert(spec_retagged(b[i + 1], a[i + 1]));
    assert(spec_retagged(b[i + 2], a[i + 2]));
    assert(spec_retagged(b[i + 3], a[i + 3]));
}

/// Retagging leaves an event block intact.
#[verifier::rlimit(100)]
#[verifier::spinoff_prover]
pub proof fn lemma_event_block_retagged(
    b: Seq<RmObject>,
    a: Seq<RmObject>,
    i: int,
    e: EventRecordV,
    q: Seq<char>,
    dy: int,
)
    requires
        b.len() == a.len(),
        forall|k: int| 0 <= k < a.len() ==> spec_retagged(#[trigger] b[k], a[k]),
        spec_event_block(a, i, e, q, dy),
    ensures
        spec_event_block(b, i, e, q, dy),
{
    reveal(spec_event_block);
    reveal(spec_timebar_at);
    reveal(spec_vs_setting_at);
    reveal(spec_salmon_block);
    reveal(spec_chal_block);
    match e {
        EventRecordV::Vs(v) => {
            lemma_timebar_retagged(b, a, i, q, v.run_time.start, v.run_time.end, 0, dy);
            assert(spec_retagged(b[i + 4], a[i + 4]));
            assert(spec_retagged(b[i + 5], a[i + 5]));
            assert(spec_retagged(b[i + 6], a[i + 6]));
        },
        EventRecordV::SalmonRun(sr) => {
            let n = sr.coop_setting.weapons.len() as int;
            lemma_timebar_retagged(b, a, i, q, sr.run_time.start, sr.run_time.end, 0, dy);
            assert(spec_retagged(b[i + 4], a[i + 4]));
            assert(spec_retagged(b[i + 5 + n], a[i + 5 + n]));
            assert forall|w: int| 0 <= w < n implies (#[trigger] b[i + 5 + w]).name@ == q + (
                "Weapon"@ + crate::text::spec_digits(w as nat)) && spec_named_tile(
                b[i + 5 + w],
                "Weapons"@,
                sr.coop_setting.weapons[w].name,
                200 + 50 * w,
                dy,
                50,
                50,
            ) by {
                assert(spec_retagged(b[i + 5 + w], a[i + 5 + w]));
            }
        },
        EventRecordV::Chal(c) => {
            let n = c.run_time.len() as int;
            assert(spec_retagged(b[i], a[i]));
            assert(spec_retagged(b[i + 4 + 4 * n], a[i + 4 + 4 * n]));
            assert(spec_retagged(b[i + 5 + 4 * n], a[i + 5 + 4 * n]));
            assert forall|w: int| 0 <= w < n implies spec_timebar_at(
                b,
                i + 1 + 4 * w,
                q + ("Time"@ + crate::text::spec_digits(w as nat)),
                (#[trigger] c.run_time[w]).start,
                c.run_time[w].end,
                0,
                dy + 75 - 25 * n + 50 * w,
            ) by {
                lemma_timebar_retagged(
                    b,
                    a,
                    i + 1 + 4 * w,
                    q + ("Time"@ + crate::text::spec_digits(w as nat)),
                    c.run_time[w].start,
                    c.run_time[w].end,
                    0,
                    dy + 75 - 25 * n + 50 * w,
                );
            }
            assert(spec_retagged(b[i + 1 + 4 * n], a[i + 1 + 4 * n]));
            assert(spec_retagged(b[i + 2 + 4 * n], a[i + 2 + 4 * n]));
            assert(spec_retagged(b[i + 3 + 4 * n], a[i + 3 + 4 * n]));
        },
    }
}

/// The six-object header row of one group, at its base index: the
/// previous-category image and arrow (both selecting the previous group on
/// click), the current-category image and title, and the next-category
/// arrow and image (both selecting the next group), all under the group's
/// own name prefix and pushed down by `dy`.
#[verifier::opaque]
pub open spec fn spec_header_at(
    s: Seq<RmObject>,
    at: int,
    g: crate::rm_structure::ScheduleV,
    dy: int,
) -> bool {
    &&& 0 <= at && at + 6 <= s.len()
    &&& s[at].name@ == g.id + "PrevScheImage"@
    &&& (s[at].object_type matches ObjectType::Meter(t, o) && {
        &&& (t matches MeterType::Image(img) && img.image_name@ == spec_asset_path(
            "Schedule Types"@,
            g.prev_sche,
        ))
        &&& o.pos.x == 0 && o.pos.y == dy && o.size.x == 50 && o.size.y == 50
        &&& o.left_click_action@.len() == 1
        &&& o.left_click_action@.last()@ == spec_bang_redraw(g.prev_sche)
    })
    &&& s[at + 1].name@ == g.id + "PrevScheArrow"@
    &&& (s[at + 1].object_type matches ObjectType::Meter(t, o) && {
        &&& (t matches MeterType::String(st) && st.text@ == "<<"@)
        &&& o.pos.x == 75 && o.pos.y == 25 + dy && o.size.x == 50 && o.size.y == 50
        &&& o.left_click_action@.len() == 1
        &&& o.left_click_action@.last()@ == spec_bang_redraw(g.prev_sche)
    })
    &&& s[at + 2].name@ == g.id + "CurrScheImage"@
    &&& (s[at + 2].object_type matches ObjectType::Meter(t, o) && {
        &&& (t matches MeterType::Image(img) && img.image_name@ == spec_asset_path(
            "Schedule Types"@,
            g.id,
        ))
        &&& o.pos.x == 100 && o.pos.y == dy && o.size.x == 50 && o.size.y == 50
        &&& o.left_click_action@.len() == 0
    })
    &&& s[at + 3].name@ == g.id + "CurrScheTitle"@
    &&& (s[at + 3].object_type matches ObjectType::Meter(t, o) && {
        &&& (t matches MeterType::String(st) && st.text@ == g.title)
        &&& o.pos.x == 200 && o.pos.y == 25 + dy && o.size.x == 100 && o.size.y == 50
        &&& o.left_click_action@.len() == 0
    })
    &&& s[at + 4].name@ == g.id + "NextScheArrow"@
    &&& (s[at + 4].object_type matches ObjectType::Meter(t, o) && {
        &&& (t matches MeterType::String(st) && st.text@ == ">>"@)
        &&& o.pos.x == 275 && o.pos.y == 25 + dy && o.size.x == 50 && o.size.y == 50
        &&& o.left_click_action@.len() == 1
        &&& o.left_click_action@.last()@ == spec_bang_redraw(g.next_sche)
    })
    &&& s[at + 5].name@ == g.id + "NextScheImage"@
    &&& (s[at + 5].object_type matches ObjectType::Meter(t, o) && {
        &&& (t matches MeterType::Image(img) && img.image_name@ == spec_asset_path(
            "Schedule Types"@,
            g.next_sche,
        ))
        &&& o.pos.x == 300 && o.pos.y == dy && o.size.x == 50 && o.size.y == 50
        &&& o.left_click_action@.len() == 1
        &&& o.left_click_action@.last()@ == spec_bang_redraw(g.next_sche)
    })
}

impl Schedule {
    /// Render one group at vertical offset `dy`: the header row naming the
    /// neighbor groups, its events stacked below — each event's objects at
    /// that event's top offset — and every meter tagged and wired for
    /// navigation. Visible only when this group is the current selection.
    #[verifier::rlimit(100)]
    #[verifier::spinoff_prover]
    pub fn to_rm(&self, visible: bool, dy: i64) -> (r: Vec<RmObject>)
        requires
            spec_group_fits(self.events.deep_view()),
            0 <= dy <= 400,
        ensures
            r@.len() == 6 + spec_total_objs(self.events.deep_view()),
            spec_header_at(r@, 0, self.deep_view(), dy as int),
            forall|j: int|
                0 <= j < self.events.deep_view().len() ==> spec_event_block(
                    r@,
                    6 + spec_total_objs(self.events.deep_view().take(j)),
                    #[trigger] self.events.deep_view()[j],
                    self.id@ + crate::text::spec_digits(j as nat),
                    dy + 50 + spec_total_height(self.events.deep_view().take(j)),
                ),
            forall|k: int|
                0 <= k < r@.len() ==> spec_group_tagged(
                    #[trigger] r@[k],
                    self.id@,
                    self.prev_sche@,
                    self.next_sche@,
                    visible,
                ),
            spec_positions_bounded(r@, GRAPH_POS_LIMIT as int + 400),
    {
        let ghost gv = self.deep_view();
        let ghost evsv = self.events.deep_view();
        let mut ret: Vec<RmObject> = Vec::new();

        let mut prev_img_opts = MeterOptions::new();
        prev_img_opts.pos = Coord { x: 0, y: dy };
        prev_img_opts.size = Coord { x: 50, y: 50 };
        prev_img_opts.solid_color = Some(Color { r: 50, g: 50, b: 50, a: 255 });
        prev_img_opts.left_click_action.push(bang_redraw(self.prev_sche.as_str()));
        ret.push(
            RmObject::new(
                ObjectType::Meter(
                    MeterType::Image(
                        ImageOptions {
                            image_name: asset_path("Schedule Types", self.prev_sche.as_str()),
                            preseve_aspect_ratio: false,
                        },
                    ),
                    prev_img_opts,
                ),
            ).prefix_name_owned("PrevScheImage"),
        );

        let mut prev_arrow_text = StringOptions::default();
        prev_arrow_text.text = "<<".to_owned();
        let mut prev_arrow_opts = MeterOptions::new();
        prev_arrow_opts.pos = Coord { x: 75, y: 25 + dy };
        prev_arrow_opts.size = Coord { x: 50, y: 50 };
        prev_arrow_opts.solid_color = Some(Color { r: 50, g: 50, b: 50, a: 255 });
        prev_arrow_opts.left_click_action.push(bang_redraw(self.prev_sche.as_str()));
        ret.push(
            RmObject::new(ObjectType::Meter(MeterType::String(prev_arrow_text), prev_arrow_opts))
                .prefix_name_owned("PrevScheArrow"),
        );

        let mut curr_img_opts = MeterOptions::new();
        curr_img_opts.pos = Coord { x: 100, y: dy };
        curr_img_opts.size = Coord { x: 50, y: 50 };
        curr_img_opts.solid_color = Some(Color { r: 40, g: 40, b: 40, a: 255 });
        ret.push(
            RmObject::new(
                ObjectType::Meter(
                    MeterType::Image(
                        ImageOptions {
                            image_name: asset_path("Schedule Types", self.id.as_str()),
                            preseve_aspect_ratio: false,
                        },
                    ),
                    curr_img_opts,
                ),
            ).prefix_name_owned("CurrScheImage"),
        );

        let mut title_text = StringOptions::default();
        title_text.text = self.title.clone();
        let mut title_opts = MeterOptions::new();
        title_opts.pos = Coord { x: 200, y: 25 + dy };
        title_opts.size = Coord { x: 100, y: 50 };
        title_opts.solid_color = Some(Color { r: 40, g: 40, b: 40, a: 255 });
        ret.push(
            RmObject::new(ObjectType::Meter(MeterType::String(title_text), title_opts))
                .prefix_name_owned("CurrScheTitle"),
        );

        let mut next_arrow_text = StringOptions::default();
        next_arrow_text.text = ">>".to_owned();
        let mut next_arrow_opts = MeterOptions::new();
        next_arrow_opts.pos = Coord { x: 275, y: 25 + dy };
        next_arrow_opts.size = Coord { x: 50, y: 50 };
        next_arrow_opts.solid_color = Some(Color { r: 50, g: 50, b: 50, a: 255 });
        next_arrow_opts.left_click_action.push(bang_redraw(self.next_sche.as_str()));
        ret.push(
            RmObject::new(ObjectType::Meter(MeterType::String(next_arrow_text), next_arrow_opts))
                .prefix_name_owned("NextScheArrow"),
        );

        let mut next_img_opts = MeterOptions::new();
        next_img_opts.pos = Coord { x: 300, y: dy };
        next_img_opts.size = Coord { x: 50, y: 50 };
        next_img_opts.solid_color = Some(Color { r: 50, g: 50, b: 50, a: 255 });
        next_img_opts.left_click_action.push(bang_redraw(self.next_sche.as_str()));
        ret.push(
            RmObject::new(
                ObjectType::Meter(
                    MeterType::Image(
                        ImageOptions {
                            image_name: asset_path("Schedule Types", self.next_sche.as_str()),
                            preseve_aspect_ratio: false,
                        },
                    ),
                    next_img_opts,
                ),
            ).prefix_name_owned("NextScheImage"),
        );
        let ghost hdr = ret@;

        let (mut stacked, _offsets) = stack_events(&self.events);
        let ghost st0 = stacked@;
        shift_meters(&mut stacked, 0, dy);
        proof {
            lemma_shift_bounded(stacked@, st0, 0, dy as int, GRAPH_POS_LIMIT as int, 400);
            assert forall|j: int| 0 <= j < evsv.len() implies spec_event_block(
                stacked@,
                spec_total_objs(evsv.take(j)),
                #[trigger] evsv[j],
                crate::text::spec_digits(j as nat),
                (dy as int) + 50 + spec_total_height(evsv.take(j)),
            ) by {
                lemma_event_block_shifted(
                    stacked@,
                    st0,
                    spec_total_objs(evsv.take(j)),
                    evsv[j],
                    crate::text::spec_digits(j as nat),
                    50 + spec_total_height(evsv.take(j)),
                    dy as int,
                );
            }
        }
        let ghost st1 = stacked@;
        ret.append(&mut stacked);
        proof {
            assert forall|j: int| 0 <= j < evsv.len() implies spec_event_block(
                ret@,
                6 + spec_total_objs(evsv.take(j)),
                #[trigger] evsv[j],
                crate::text::spec_digits(j as nat),
                (dy as int) + 50 + spec_total_height(evsv.take(j)),
            ) by {
                lemma_total_objs_prefix(evsv, j);
                lemma_total_objs_prefix(evsv, j + 1);
                lemma_total_objs_mono(evsv, j + 1, evsv.len() as int);
                lemma_event_block_offset(
                    ret@,
                    st1,
                    6 + spec_total_objs(evsv.take(j)),
                    spec_total_objs(evsv.take(j)),
                    evsv[j],
                    crate::text::spec_digits(j as nat),
                    (dy as int) + 50 + spec_total_height(evsv.take(j)),
                );
            }
        }

        // compose every name under the group id
        let n = ret.len();
        let ghost pre0 = ret@;
        let mut i: usize = 0;
        while i < n
            invariant
                i <= n,
                ret@.len() == n,
                pre0.len() == n,
                forall|k: int|
                    0 <= k < i ==> (#[trigger] ret@[k]).name@ == self.id@ + pre0[k].name@
                        && spec_prefixed_type(ret@[k].object_type, pre0[k].object_type, self.id@),
                forall|k: int| i <= k < n ==> (#[trigger] ret@[k]) == pre0[k],
            decreases n - i,
        {
            ret[i].prefix_name_mut(self.id.as_str());
            i = i + 1;
        }
        proof {
            reveal(spec_header_at);
            assert forall|j: int| 0 <= j < evsv.len() implies spec_event_block(
                ret@,
                6 + spec_total_objs(evsv.take(j)),
                #[trigger] evsv[j],
                self.id@ + crate::text::spec_digits(j as nat),
                (dy as int) + 50 + spec_total_height(evsv.take(j)),
            ) by {
                lemma_event_block_prefixed(
                    ret@,
                    pre0,
                    6 + spec_total_objs(evsv.take(j)),
                    evsv[j],
                    self.id@,
                    crate::text::spec_digits(j as nat),
                    (dy as int) + 50 + spec_total_height(evsv.take(j)),
                );
            }
            assert(pre0[0] == hdr[0]);
            assert(pre0[1] == hdr[1]);
            assert(pre0[2] == hdr[2]);
            assert(pre0[3] == hdr[3]);
            assert(pre0[4] == hdr[4]);
            assert(pre0[5] == hdr[5]);
            assert(spec_header_at(ret@, 0, gv, dy as int));
        }

        // tag every meter for grouped show/hide and wire the navigation
        let down_bang = bang_redraw(self.next_sche.as_str());
        let up_bang = bang_redraw(self.prev_sche.as_str());
        let ghost pre1 = ret@;
        let mut i2: usize = 0;
        while i2 < n
            invariant
                i2 <= n,
                ret@.len() == n,
                pre1.len() == n,
                down_bang@ == spec_bang_redraw(self.next_sche@),
                up_bang@ == spec_bang_redraw(self.prev_sche@),
                forall|k: int|
                    0 <= k < i2 ==> spec_retagged(#[trigger] ret@[k], pre1[k]) && spec_group_tagged(
                        ret@[k],
                        self.id@,
                        self.prev_sche@,
                        self.next_sche@,
                        visible,
                    ),
                forall|k: int| i2 <= k < n ==> (#[trigger] ret@[k]) == pre1[k],
            decreases n - i2,
        {
            match &mut ret[i2].object_type {
                ObjectType::Meter(_, o) => {
                    o.groups.push(self.id.clone());
                    o.scroll_down_action.push(down_bang.clone());
                    o.scroll_up_action.push(up_bang.clone());
                    o.hidden = !visible;
                },
                ObjectType::Measure(_, _) => {},
            }
            i2 = i2 + 1;
        }
        proof {
            assert forall|j: int| 0 <= j < evsv.len() implies spec_event_block(
                ret@,
                6 + spec_total_objs(evsv.take(j)),
                #[trigger] evsv[j],
                self.id@ + crate::text::spec_digits(j as nat),
                (dy as int) + 50 + spec_total_height(evsv.take(j)),
            ) by {
                lemma_event_block_retagged(
                    ret@,
                    pre1,
                    6 + spec_total_objs(evsv.take(j)),
                    evsv[j],
                    self.id@ + crate::text::spec_digits(j as nat),
                    (dy as int) + 50 + spec_total_height(evsv.take(j)),
                );
            }
            reveal(spec_header_at);
            assert(spec_retagged(ret@[0], pre1[0]));
            assert(spec_retagged(ret@[1], pre1[1]));
            assert(spec_retagged(ret@[2], pre1[2]));
            assert(spec_retagged(ret@[3], pre1[3]));
            assert(spec_retagged(ret@[4], pre1[4]));
            assert(spec_retagged(ret@[5], pre1[5]));
            assert(spec_header_at(ret@, 0, gv, dy as int));
            assert forall|k: int| 0 <= k < n as int implies match (#[trigger] ret@[k]).object_type {
                ObjectType::Meter(_, o) => -(GRAPH_POS_LIMIT as int + 400) <= o.pos.x
                    <= GRAPH_POS_LIMIT as int + 400 && -(GRAPH_POS_LIMIT as int + 400) <= o.pos.y
                    <= GRAPH_POS_LIMIT as int + 400,
                ObjectType::Measure(_, _) => true,
            } by {
                assert(spec_retagged(ret@[k], pre1[k]));
                assert(pre1[k].name@ == self.id@ + pre0[k].name@ && spec_prefixed_type(
                    pre1[k].object_type,
                    pre0[k].object_type,
                    self.id@,
                ));
            }
        }
        ret
    }
}

// ---------------------------------------------------------------------------
// Splatfest rendering.
// ---------------------------------------------------------------------------

/// The name of row `k` of one team's results table.
pub open spec fn spec_result_row_name(k: int) -> Seq<char> {
    if k == 0 {
        "SneakPeak"@
    } else if k == 1 {
        "Votes"@
    } else if k == 2 {
        "Open"@
    } else if k == 3 {
        "Pro"@
    } else {
        "Tricolor"@
    }
}

/// The ratio shown on row `k` of one team's results table.
pub open spec fn spec_result_row(t: SplatfestTeamResult, k: int) -> crate::rm_structure::Ratio {
    if k == 0 {
        t.sneak_peak
    } else if k == 1 {
        t.votes
    } else if k == 2 {
        t.open
    } else if k == 3 {
        t.pro
    } else {
        t.tricolor
    }
}

impl SplatfestTeamResult {
    /// One team's five result rows: the percentage text of each ratio,
    /// highlighted when that team leads the row.
    pub fn to_rm(&self) -> (r: Vec<RmObject>)
        ensures
            r@.len() == 5,
            forall|k: int| 0 <= k < 5 ==> (#[trigger] r@[k]).name@ == spec_result_row_name(k),
            forall|k: int|
                0 <= k < 5 ==> match (#[trigger] r@[k]).object_type {
                    ObjectType::Meter(t, o) => {
                        &&& t matches MeterType::String(s)
                        &&& s.text@ == spec_percent_text(
                            spec_result_row(*self, k).basis_points as nat,
                        )
                        &&& (spec_result_row(*self, k).is_leading <==> s.font_color == Some(
                            Color { r: 150, g: 150, b: 50, a: 255 },
                        ))
                        &&& o.pos.x == 50 && o.pos.y == 25 + 50 * k
                        &&& o.size == (Coord { x: 100, y: 50 })
                    },
                    ObjectType::Measure(_, _) => false,
                },
            spec_positions_bounded(r@, 300),
    {
        let mut ret: Vec<RmObject> = Vec::new();
        let rows: [Ratio; 5] = [self.sneak_peak, self.votes, self.open, self.pro, self.tricolor];
        let mut k: usize = 0;
        while k < 5
            invariant
                k <= 5,
                ret@.len() == k,
                rows@ =~= seq![self.sneak_peak, self.votes, self.open, self.pro, self.tricolor],
                forall|j: int| 0 <= j < k ==> (#[trigger] ret@[j]).name@ == spec_result_row_name(j),
                forall|j: int|
                    0 <= j < k ==> match (#[trigger] ret@[j]).object_type {
                        ObjectType::Meter(t, o) => {
                            &&& t matches MeterType::String(s)
                            &&& s.text@ == spec_percent_text(
                                spec_result_row(*self, j).basis_points as nat,
                            )
                            &&& (spec_result_row(*self, j).is_leading <==> s.font_color == Some(
                                Color { r: 150, g: 150, b: 50, a: 255 },
                            ))
                            &&& o.pos.x == 50 && o.pos.y == 25 + 50 * j
                            &&& o.size == (Coord { x: 100, y: 50 })
                        },
                        ObjectType::Measure(_, _) => false,
                    },
            decreases 5 - k,
        {
            let row = rows[k];
            let nm: &str = if k == 0 {
                "SneakPeak"
            } else if k == 1 {
                "Votes"
            } else if k == 2 {
                "Open"
            } else if k == 3 {
                "Pro"
            } else {
                "Tricolor"
            };
            let mut text = StringOptions::default();
            text.text = percent_text(row.basis_points);
            if row.is_leading {
                text.font_color = Some(Color { r: 150, g: 150, b: 50, a: 255 });
            }
            let mut opts = MeterOptions::new();
            opts.pos = Coord { x: 50, y: 25 + 50 * (k as i64) };
            opts.size = Coord { x: 100, y: 50 };
            opts.solid_color = Some(Color { r: 30, g: 30, b: 30, a: 255 });
            ret.push(
                RmObject::new(ObjectType::Meter(MeterType::String(text), opts)).prefix_name_owned(
                    nm,
                ),
            );
            proof {
                assert(ret@[k as int].name@ =~= spec_result_row_name(k as int));
            }
            k = k + 1;
        }
        ret
    }
}

// ---------------------------------------------------------------------------
// Splatfest and whole-structure rendering.
// ---------------------------------------------------------------------------

/// How far a splatfest pushes every schedule group down: the running or
/// pending card is short; the finished card needs room for the results
/// table.
pub open spec fn spec_fest_shift(s: Option<SplatfestStateV>) -> int {
    match s {
        None => 0,
        Some(SplatfestStateV::MissingTricolor) => 150,
        Some(SplatfestStateV::Active(_, _)) => 150,
        Some(SplatfestStateV::Finished(_)) => 400,
    }
}


/// The team shown in column `t` of the splatfest card.
pub open spec fn spec_fest_team_at3(
    ts: crate::schedule_data::trioV<crate::rm_structure::SplatfestTeamV>,
    t: int,
) -> crate::rm_structure::SplatfestTeamV {
    if t == 0 {
        ts.first
    } else if t == 1 {
        ts.second
    } else {
        ts.third
    }
}

/// The result column of team `t`.
pub open spec fn spec_result_at3(
    rs: crate::schedule_data::trioV<SplatfestTeamResult>,
    t: int,
) -> SplatfestTeamResult {
    if t == 0 {
        rs.first
    } else if t == 1 {
        rs.second
    } else {
        rs.third
    }
}

pub open spec fn spec_card_team_image_name(t: int) -> Seq<char> {
    if t == 0 {
        "SplatfestTeam0Image"@
    } else if t == 1 {
        "SplatfestTeam1Image"@
    } else {
        "SplatfestTeam2Image"@
    }
}

pub open spec fn spec_card_team_text_name(t: int) -> Seq<char> {
    if t == 0 {
        "SplatfestTeam0Name"@
    } else if t == 1 {
        "SplatfestTeam1Name"@
    } else {
        "SplatfestTeam2Name"@
    }
}

pub open spec fn spec_card_col_prefix(t: int) -> Seq<char> {
    if t == 0 {
        "SplatfestTeam0"@
    } else if t == 1 {
        "SplatfestTeam1"@
    } else {
        "SplatfestTeam2"@
    }
}

pub open spec fn spec_row_name(k: int) -> Seq<char> {
    if k == 0 {
        "SplatfestSneakPeakRow"@
    } else if k == 1 {
        "SplatfestVotesRow"@
    } else if k == 2 {
        "SplatfestOpenRow"@
    } else if k == 3 {
        "SplatfestProRow"@
    } else {
        "SplatfestTricolorRow"@
    }
}

pub open spec fn spec_row_label(k: int) -> Seq<char> {
    if k == 0 {
        "Sneak Peak"@
    } else if k == 1 {
        "Votes"@
    } else if k == 2 {
        "Open"@
    } else if k == 3 {
        "Pro"@
    } else {
        "Tricolor"@
    }
}

/// Team `t`'s two meters on the splatfest card: its image tile and its
/// name text, both tinted with the team color.
pub open spec fn spec_card_team_at(
    s: Seq<RmObject>,
    at: int,
    f: crate::rm_structure::SplatfestV,
    t2: int,
) -> bool {
    let team = spec_fest_team_at3(f.teams, t2);
    &&& s[at + 1 + 2 * t2].name@ == spec_card_team_image_name(t2)
    &&& (s[at + 1 + 2 * t2].object_type matches ObjectType::Meter(t, o) && {
        &&& (t matches MeterType::Image(img) && img.image_name@ == spec_asset_path(
            "Splatfest Teams"@,
            team.name,
        ))
        &&& o.solid_color == Some(team.color)
        &&& o.pos.x == 100 + 100 * t2 && o.pos.y == 50 && o.size.x == 100 && o.size.y == 50
    })
    &&& s[at + 2 + 2 * t2].name@ == spec_card_team_text_name(t2)
    &&& (s[at + 2 + 2 * t2].object_type matches ObjectType::Meter(t, o) && {
        &&& (t matches MeterType::String(st) && st.text@ == team.name)
        &&& o.solid_color == Some(team.color)
        &&& o.pos.x == 150 + 100 * t2 && o.pos.y == 125 && o.size.x == 100 && o.size.y == 50
    })
}

/// Row label `k` of the finished card's results table.
pub open spec fn spec_card_row_at(s: Seq<RmObject>, at: int, k: int) -> bool {
    &&& s[at + 9 + k].name@ == spec_row_name(k)
    &&& (s[at + 9 + k].object_type matches ObjectType::Meter(t, o) && {
        &&& (t matches MeterType::String(st) && st.text@ == spec_row_label(k))
        &&& o.pos.x == 50 && o.pos.y == 175 + 50 * k && o.size.x == 100 && o.size.y == 50
    })
}

/// Cell `k` of team `t2`'s result column: the percent text of that row's
/// ratio, highlighted when the team leads it, tinted with the team color.
pub open spec fn spec_card_col_at(
    s: Seq<RmObject>,
    at: int,
    f: crate::rm_structure::SplatfestV,
    results: crate::rm_structure::SplatfestResultsV,
    t2: int,
    k: int,
) -> bool {
    let res = spec_result_at3(results.team_results, t2);
    let team = spec_fest_team_at3(f.teams, t2);
    &&& s[at + 14 + 5 * t2 + k].name@ == spec_card_col_prefix(t2) + spec_result_row_name(k)
    &&& (s[at + 14 + 5 * t2 + k].object_type matches ObjectType::Meter(t, o) && {
        &&& (t matches MeterType::String(st) && {
            &&& st.text@ == spec_percent_text(spec_result_row(res, k).basis_points as nat)
            &&& (spec_result_row(res, k).is_leading <==> st.font_color == Some(
                Color { r: 150, g: 150, b: 50, a: 255 },
            ))
        })
        &&& o.solid_color == Some(team.color)
        &&& o.pos.x == 150 + 100 * t2 && o.pos.y == 175 + 50 * k && o.size.x == 100 && o.size.y
            == 50
    })
}

/// The full content of the splatfest card at base index `at`: the title
/// text, the three teams' image and name meters in their colors, and the
/// state body — the full-term bar behind a backdrop, the two half-term
/// bars around the tricolor stage, or the winner's meters with the five
/// labelled result rows and the three tinted result columns. Every name
/// starts with the card's own component.
#[verifier::opaque]
pub open spec fn spec_fest_card(
    s: Seq<RmObject>,
    at: int,
    f: crate::rm_structure::SplatfestV,
) -> bool {
    &&& 0 <= at && at + spec_fest_objs(Some(f.state)) <= s.len()
    &&& s[at].name@ == "SplatfestTitle"@
    &&& (s[at].object_type matches ObjectType::Meter(t, o) && {
        &&& (t matches MeterType::String(st) && st.text@ == f.title)
        &&& o.pos.x == 250 && o.pos.y == 25 && o.size.x == 300 && o.size.y == 50
    })
    &&& forall|t2: int| 0 <= t2 < 3 ==> #[trigger] spec_card_team_at(s, at, f, t2)
    &&& match f.state {
        SplatfestStateV::MissingTricolor => {
            &&& s[at + 7].name@ == "SplatfestBackground"@
            &&& (s[at + 7].object_type matches ObjectType::Meter(t, o) && {
                &&& (t matches MeterType::Image(img) && img.image_name@.len() == 0)
                &&& o.pos.x == 0 && o.pos.y == 0 && o.size.x == 100 && o.size.y == 150
            })
            &&& spec_timebar_at(
                s,
                at + 8,
                "SplatfestFullTerm"@,
                f.run_time.start,
                f.run_time.end,
                0,
                50,
            )
        },
        SplatfestStateV::Active(mid, stage) => {
            &&& spec_timebar_at(s, at + 7, "SplatfestFirstTerm"@, f.run_time.start, mid, 0, 0)
            &&& s[at + 11].name@ == "SplatfestTricolorStage"@
            &&& spec_named_tile(s[at + 11], "Stages"@, stage.name, 0, 50, 100, 50)
            &&& spec_timebar_at(s, at + 12, "SplatfestSecondTerm"@, mid, f.run_time.end, 0, 100)
        },
        SplatfestStateV::Finished(results) => {
            &&& s[at + 7].name@ == "SplatfestWinnerTeamName"@
            &&& (s[at + 7].object_type matches ObjectType::Meter(t, o) && {
                &&& (t matches MeterType::String(st) && st.text@ == results.winner.name)
                &&& o.solid_color == Some(results.winner.color)
                &&& o.pos.x == 50 && o.pos.y == 25 && o.size.x == 100 && o.size.y == 50
            })
            &&& s[at + 8].name@ == "SplatfestWinnerTeamImage"@
            &&& (s[at + 8].object_type matches ObjectType::Meter(t, o) && {
                &&& (t matches MeterType::Image(img) && img.image_name@ == spec_asset_path(
                    "Splatfest Teams"@,
                    results.winner.name,
                ))
                &&& o.solid_color == Some(results.winner.color)
                &&& o.pos.x == 0 && o.pos.y == 50 && o.size.x == 100 && o.size.y == 100
            })
            &&& forall|k: int| 0 <= k < 5 ==> #[trigger] spec_card_row_at(s, at, k)
            &&& forall|t2: int, k: int|
                0 <= t2 < 3 && 0 <= k < 5 ==> #[trigger] spec_card_col_at(s, at, f, results, t2, k)
        },
    }
}

impl Splatfest {
    /// Render the splatfest card: the title, the three teams, and the
    /// state-dependent body — a full-term bar behind a backdrop, the two
    /// half-term bars around the tricolor stage, or the winner with the
    /// results table. The whole content is pinned by [`spec_fest_card`].
    #[verifier::rlimit(100)]
    #[verifier::spinoff_prover]
    pub fn to_rm(&self) -> (r: Vec<RmObject>)
        ensures
            spec_fest_card(r@, 0, self.deep_view()),
            spec_positions_bounded(r@, 1000),
            r@.len() == spec_fest_objs(Some(self.state.deep_view())),
    {
        let ghost fv = self.deep_view();
        let mut ret: Vec<RmObject> = Vec::new();
        let mut title_text = StringOptions::default();
        title_text.text = self.title.clone();
        let mut title_opts = MeterOptions::new();
        title_opts.pos = Coord { x: 250, y: 25 };
        title_opts.size = Coord { x: 300, y: 50 };
        title_opts.solid_color = Some(Color { r: 50, g: 50, b: 50, a: 255 });
        ret.push(
            RmObject::new(ObjectType::Meter(MeterType::String(title_text), title_opts))
                .prefix_name_owned("SplatfestTitle"),
        );
        proof {
            assert(ret@[0].name@ =~= "SplatfestTitle"@);
        }
        let team_refs: [&SplatfestTeam; 3] = [&self.teams.first, &self.teams.second, &self.teams.third];
        let mut i: usize = 0;
        while i < 3
            invariant
                i <= 3,
                fv == self.deep_view(),
                ret@.len() == 1 + 2 * i,
                ret@[0].name@ == "SplatfestTitle"@,
                (ret@[0].object_type matches ObjectType::Meter(t, o) && {
                    &&& (t matches MeterType::String(st) && st.text@ == fv.title)
                    &&& o.pos.x == 250 && o.pos.y == 25 && o.size.x == 300 && o.size.y == 50
                }),
                forall|t2: int| 0 <= t2 < i ==> #[trigger] spec_card_team_at(ret@, 0, fv, t2),
                spec_positions_bounded(ret@, 1000),
            decreases 3 - i,
        {
            let team = team_refs[i];
            proof {
                if i == 0 {
                    assert(team.deep_view() == spec_fest_team_at3(fv.teams, 0));
                } else if i == 1 {
                    assert(team.deep_view() == spec_fest_team_at3(fv.teams, 1));
                } else {
                    assert(team.deep_view() == spec_fest_team_at3(fv.teams, 2));
                }
            }
            let img_name: &str = if i == 0 {
                "SplatfestTeam0Image"
            } else if i == 1 {
                "SplatfestTeam1Image"
            } else {
                "SplatfestTeam2Image"
            };
            let text_name: &str = if i == 0 {
                "SplatfestTeam0Name"
            } else if i == 1 {
                "SplatfestTeam1Name"
            } else {
                "SplatfestTeam2Name"
            };
            let ghost rpre_team0 = ret@;
            let mut img_opts = MeterOptions::new();
            img_opts.pos = Coord { x: 100 + (i as i64) * 100, y: 50 };
            img_opts.size = Coord { x: 100, y: 50 };
            img_opts.solid_color = Some(team.color);
            ret.push(
                RmObject::new(
                    ObjectType::Meter(
                        MeterType::Image(
                            ImageOptions {
                                image_name: asset_path("Splatfest Teams", team.name.as_str()),
                                preseve_aspect_ratio: true,
                            },
                        ),
                        img_opts,
                    ),
                ).prefix_name_owned(img_name),
            );
            let mut name_text = StringOptions::default();
            name_text.text = team.name.clone();
            let mut name_opts = MeterOptions::new();
            name_opts.pos = Coord { x: 150 + (i as i64) * 100, y: 125 };
            name_opts.size = Coord { x: 100, y: 50 };
            name_opts.solid_color = Some(team.color);
            let ghost rpre_team = ret@;
            ret.push(
                RmObject::new(ObjectType::Meter(MeterType::String(name_text), name_opts))
                    .prefix_name_owned(text_name),
            );
            proof {
                assert forall|t2: int| 0 <= t2 < i as int implies #[trigger] spec_card_team_at(
                    ret@,
                    0,
                    fv,
                    t2,
                ) by {
                    assert(rpre_team[1 + 2 * t2] == rpre_team0[1 + 2 * t2]);
                    assert(rpre_team[2 + 2 * t2] == rpre_team0[2 + 2 * t2]);
                    assert(ret@[1 + 2 * t2] == rpre_team[1 + 2 * t2]);
                    assert(ret@[2 + 2 * t2] == rpre_team[2 + 2 * t2]);
                    assert(spec_card_team_at(rpre_team0, 0, fv, t2));
                }
                assert(ret@[1 + 2 * i as int].name@ =~= spec_card_team_image_name(i as int));
                assert(ret@[2 + 2 * i as int].name@ =~= spec_card_team_text_name(i as int));
                assert(spec_card_team_at(ret@, 0, fv, i as int));
            }
            i = i + 1;
        }
        let ghost base7 = ret@;
        match &self.state {
            SplatfestState::MissingTricolor => {
                let mut back_opts = MeterOptions::new();
                back_opts.size = Coord { x: 100, y: 150 };
                back_opts.solid_color = Some(Color { r: 50, g: 50, b: 50, a: 255 });
                ret.push(
                    RmObject::new(
                        ObjectType::Meter(
                            MeterType::Image(
                                ImageOptions {
                                    image_name: String::new(),
                                    preseve_aspect_ratio: false,
                                },
                            ),
                            back_opts,
                        ),
                    ).prefix_name_owned("SplatfestBackground"),
                );
                let mut bar = new_timebar(self.run_time.start, self.run_time.end);
                let ghost bpre0 = bar@;
                let mut j: usize = 0;
                while j < bar.len()
                    invariant
                        j <= bar@.len(),
                        bar@.len() == 4,
                        bpre0.len() == 4,
                        forall|k: int|
                            0 <= k < j ==> (#[trigger] bar@[k]).name@ == "SplatfestFullTerm"@
                                + bpre0[k].name@ && spec_prefixed_type(
                                bar@[k].object_type,
                                bpre0[k].object_type,
                                "SplatfestFullTerm"@,
                            ),
                        forall|k: int| j <= k < 4 ==> (#[trigger] bar@[k]) == bpre0[k],
                        spec_positions_bounded(bar@, 150),
                    decreases bar@.len() - j,
                {
                    bar[j].prefix_name_mut("SplatfestFullTerm");
                    j = j + 1;
                }
                proof {
                    lemma_timebar_prefixed(
                        bar@,
                        bpre0,
                        0,
                        "SplatfestFullTerm"@,
                        Seq::empty(),
                        self.run_time.start,
                        self.run_time.end,
                        0,
                        0,
                    );
                    assert("SplatfestFullTerm"@ + Seq::<char>::empty() =~= "SplatfestFullTerm"@);
                }
                let ghost bpre = bar@;
                shift_meters(&mut bar, 0, 50);
                proof {
                    lemma_timebar_shifted(
                        bar@,
                        bpre,
                        0,
                        "SplatfestFullTerm"@,
                        self.run_time.start,
                        self.run_time.end,
                        0,
                        0,
                        0,
                        50,
                    );
                    lemma_shift_bounded(bar@, bpre, 0, 50, 150, 100);
                }
                let ghost bfin = bar@;
                ret.append(&mut bar);
                proof {
                    reveal(spec_fest_card);
                    reveal(spec_timebar_at);
                    assert(ret@[0] == base7[0]);
                    assert forall|t2: int| 0 <= t2 < 3 implies #[trigger] spec_card_team_at(
                        ret@,
                        0,
                        fv,
                        t2,
                    ) by {
                        assert(ret@[1 + 2 * t2] == base7[1 + 2 * t2]);
                        assert(ret@[2 + 2 * t2] == base7[2 + 2 * t2]);
                        assert(spec_card_team_at(base7, 0, fv, t2));
                    }
                    assert(ret@[7].name@ =~= "SplatfestBackground"@);
                    assert(ret@[8] == bfin[0]);
                    assert(ret@[9] == bfin[1]);
                    assert(ret@[10] == bfin[2]);
                    assert(ret@[11] == bfin[3]);
                    assert(spec_fest_card(ret@, 0, fv));
                }
            },
            SplatfestState::Active(mid_term, tricolor_stage) => {
                let mut first_bar = new_timebar(self.run_time.start, *mid_term);
                let ghost fpre0 = first_bar@;
                let mut j: usize = 0;
                while j < first_bar.len()
                    invariant
                        j <= first_bar@.len(),
                        first_bar@.len() == 4,
                        fpre0.len() == 4,
                        forall|k: int|
                            0 <= k < j ==> (#[trigger] first_bar@[k]).name@ == "SplatfestFirstTerm"@
                                + fpre0[k].name@ && spec_prefixed_type(
                                first_bar@[k].object_type,
                                fpre0[k].object_type,
                                "SplatfestFirstTerm"@,
                            ),
                        forall|k: int| j <= k < 4 ==> (#[trigger] first_bar@[k]) == fpre0[k],
                        spec_positions_bounded(first_bar@, 150),
                    decreases first_bar@.len() - j,
                {
                    first_bar[j].prefix_name_mut("SplatfestFirstTerm");
                    j = j + 1;
                }
                proof {
                    lemma_timebar_prefixed(
                        first_bar@,
                        fpre0,
                        0,
                        "SplatfestFirstTerm"@,
                        Seq::empty(),
                        self.run_time.start,
                        *mid_term,
                        0,
                        0,
                    );
                    assert("SplatfestFirstTerm"@ + Seq::<char>::empty() =~= "SplatfestFirstTerm"@);
                }
                let ghost ffin = first_bar@;
                ret.append(&mut first_bar);
                let mut stage_obj = tricolor_stage.get_rm_object();
                stage_obj.prefix_name_mut("SplatfestTricolorStage");
                match &mut stage_obj.object_type {
                    ObjectType::Meter(_, o) => {
                        o.pos = Coord { x: o.pos.x, y: o.pos.y + 50 };
                    },
                    ObjectType::Measure(_, _) => {},
                }
                ret.push(stage_obj);
                let mut second_bar = new_timebar(*mid_term, self.run_time.end);
                let ghost spre0 = second_bar@;
                let mut j2: usize = 0;
                while j2 < second_bar.len()
                    invariant
                        j2 <= second_bar@.len(),
                        second_bar@.len() == 4,
                        spre0.len() == 4,
                        forall|k: int|
                            0 <= k < j2 ==> (#[trigger] second_bar@[k]).name@
                                == "SplatfestSecondTerm"@ + spre0[k].name@ && spec_prefixed_type(
                                second_bar@[k].object_type,
                                spre0[k].object_type,
                                "SplatfestSecondTerm"@,
                            ),
                        forall|k: int| j2 <= k < 4 ==> (#[trigger] second_bar@[k]) == spre0[k],
                        spec_positions_bounded(second_bar@, 150),
                    decreases second_bar@.len() - j2,
                {
                    second_bar[j2].prefix_name_mut("SplatfestSecondTerm");
                    j2 = j2 + 1;
                }
                proof {
                    lemma_timebar_prefixed(
                        second_bar@,
                        spre0,
                        0,
                        "SplatfestSecondTerm"@,
                        Seq::empty(),
                        *mid_term,
                        self.run_time.end,
                        0,
                        0,
                    );
                    assert("SplatfestSecondTerm"@ + Seq::<char>::empty()
                        =~= "SplatfestSecondTerm"@);
                }
                let ghost sbpre = second_bar@;
                shift_meters(&mut second_bar, 0, 100);
                proof {
                    lemma_timebar_shifted(
                        second_bar@,
                        sbpre,
                        0,
                        "SplatfestSecondTerm"@,
                        *mid_term,
                        self.run_time.end,
                        0,
                        0,
                        0,
                        100,
                    );
                    lemma_shift_bounded(second_bar@, sbpre, 0, 100, 150, 100);
                }
                let ghost sfin = second_bar@;
                ret.append(&mut second_bar);
                proof {
                    reveal(spec_fest_card);
                    reveal(spec_timebar_at);
                    assert(fv.state == SplatfestStateV::Active(
                        *mid_term,
                        tricolor_stage.deep_view(),
                    ));
                    assert(ret@[0] == base7[0]);
                    assert forall|t2: int| 0 <= t2 < 3 implies #[trigger] spec_card_team_at(
                        ret@,
                        0,
                        fv,
                        t2,
                    ) by {
                        assert(ret@[1 + 2 * t2] == base7[1 + 2 * t2]);
                        assert(ret@[2 + 2 * t2] == base7[2 + 2 * t2]);
                        assert(spec_card_team_at(base7, 0, fv, t2));
                    }
                    assert(ret@[7] == ffin[0]);
                    assert(ret@[8] == ffin[1]);
                    assert(ret@[9] == ffin[2]);
                    assert(ret@[10] == ffin[3]);
                    assert(ret@[11].name@ =~= "SplatfestTricolorStage"@);
                    assert(spec_named_tile(
                        ret@[11],
                        "Stages"@,
                        tricolor_stage.deep_view().name,
                        0,
                        50,
                        100,
                        50,
                    ));
                    assert(ret@[12] == sfin[0]);
                    assert(ret@[13] == sfin[1]);
                    assert(ret@[14] == sfin[2]);
                    assert(ret@[15] == sfin[3]);
                    assert(spec_fest_card(ret@, 0, fv));
                }
            },
            SplatfestState::Finished(results) => {
                let ghost resultsv = results.deep_view();
                let mut win_text = StringOptions::default();
                win_text.text = results.winner.name.clone();
                let mut win_opts = MeterOptions::new();
                win_opts.pos = Coord { x: 50, y: 25 };
                win_opts.size = Coord { x: 100, y: 50 };
                win_opts.solid_color = Some(results.winner.color);
                ret.push(
                    RmObject::new(ObjectType::Meter(MeterType::String(win_text), win_opts))
                        .prefix_name_owned("SplatfestWinnerTeamName"),
                );
                let mut win_img_opts = MeterOptions::new();
                win_img_opts.pos = Coord { x: 0, y: 50 };
                win_img_opts.size = Coord { x: 100, y: 100 };
                win_img_opts.solid_color = Some(results.winner.color);
                ret.push(
                    RmObject::new(
                        ObjectType::Meter(
                            MeterType::Image(
                                ImageOptions {
                                    image_name: asset_path(
                                        "Splatfest Teams",
                                        results.winner.name.as_str(),
                                    ),
                                    preseve_aspect_ratio: false,
                                },
                            ),
                            win_img_opts,
                        ),
                    ).prefix_name_owned("SplatfestWinnerTeamImage"),
                );
                proof {
                    assert(ret@[7].name@ =~= "SplatfestWinnerTeamName"@);
                    assert(ret@[8].name@ =~= "SplatfestWinnerTeamImage"@);
                }
                let ghost base9 = ret@;
                let mut k: usize = 0;
                while k < 5
                    invariant
                        k <= 5,
                        fv == self.deep_view(),
                        base9.len() == 9,
                        ret@.len() == 9 + k,
                        forall|k2: int| 0 <= k2 < 9 ==> (#[trigger] ret@[k2]) == base9[k2],
                        forall|k2: int| 0 <= k2 < k ==> #[trigger] spec_card_row_at(ret@, 0, k2),
                        spec_positions_bounded(ret@, 1000),
                    decreases 5 - k,
                {
                    let label: &str = if k == 0 {
                        "Sneak Peak"
                    } else if k == 1 {
                        "Votes"
                    } else if k == 2 {
                        "Open"
                    } else if k == 3 {
                        "Pro"
                    } else {
                        "Tricolor"
                    };
                    let row_name: &str = if k == 0 {
                        "SplatfestSneakPeakRow"
                    } else if k == 1 {
                        "SplatfestVotesRow"
                    } else if k == 2 {
                        "SplatfestOpenRow"
                    } else if k == 3 {
                        "SplatfestProRow"
                    } else {
                        "SplatfestTricolorRow"
                    };
                    let ghost rpre_row = ret@;
                    let mut row_text = StringOptions::default();
                    row_text.text = label.to_owned();
                    let mut row_opts = MeterOptions::new();
                    row_opts.pos = Coord { x: 50, y: 175 + 50 * (k as i64) };
                    row_opts.size = Coord { x: 100, y: 50 };
                    row_opts.solid_color = Some(Color { r: 50, g: 50, b: 50, a: 255 });
                    ret.push(
                        RmObject::new(ObjectType::Meter(MeterType::String(row_text), row_opts))
                            .prefix_name_owned(row_name),
                    );
                    proof {
                        assert forall|k2: int| 0 <= k2 < k as int implies
                            #[trigger] spec_card_row_at(ret@, 0, k2) by {
                            assert(ret@[9 + k2] == rpre_row[9 + k2]);
                            assert(spec_card_row_at(rpre_row, 0, k2));
                        }
                        assert(ret@[9 + k as int].name@ =~= spec_row_name(k as int));
                        assert(spec_card_row_at(ret@, 0, k as int));
                    }
                    k = k + 1;
                }
                let res_refs: [&SplatfestTeamResult; 3] = [
                    &results.team_results.first,
                    &results.team_results.second,
                    &results.team_results.third,
                ];
                let colors: [Color; 3] = [
                    self.teams.first.color,
                    self.teams.second.color,
                    self.teams.third.color,
                ];
                let ghost base14 = ret@;
                let mut t: usize = 0;
                while t < 3
                    invariant
                        t <= 3,
                        base14.len() == 14,
                        forall|k2: int| 0 <= k2 < 14 ==> (#[trigger] ret@[k2]) == base14[k2],
                        fv == self.deep_view(),
                        resultsv == results.deep_view(),
                        res_refs@.len() == 3,
                        res_refs@[0] == &results.team_results.first,
                        res_refs@[1] == &results.team_results.second,
                        res_refs@[2] == &results.team_results.third,
                        colors@ =~= seq![
                            self.teams.first.color,
                            self.teams.second.color,
                            self.teams.third.color,
                        ],
                        ret@.len() == 14 + 5 * t,
                        forall|k2: int| 0 <= k2 < 5 ==> #[trigger] spec_card_row_at(ret@, 0, k2),
                        forall|t2: int, k2: int|
                            0 <= t2 < t && 0 <= k2 < 5 ==> #[trigger] spec_card_col_at(
                                ret@,
                                0,
                                fv,
                                resultsv,
                                t2,
                                k2,
                            ),
                        spec_positions_bounded(ret@, 1000),
                    decreases 3 - t,
                {
                    let ghost tcolor = spec_fest_team_at3(fv.teams, t as int).color;
                    let ghost tres = spec_result_at3(resultsv.team_results, t as int);
                    proof {
                        if t == 0 {
                            assert(colors@[0] == tcolor);
                            assert(res_refs@[0].deep_view() == tres);
                        } else if t == 1 {
                            assert(colors@[1] == tcolor);
                            assert(res_refs@[1].deep_view() == tres);
                        } else {
                            assert(colors@[2] == tcolor);
                            assert(res_refs@[2].deep_view() == tres);
                        }
                    }
                    let col_prefix: &str = if t == 0 {
                        "SplatfestTeam0"
                    } else if t == 1 {
                        "SplatfestTeam1"
                    } else {
                        "SplatfestTeam2"
                    };
                    let mut cols = res_refs[t].to_rm();
                    let ghost cols0 = cols@;
                    let mut j3: usize = 0;
                    while j3 < cols.len()
                        invariant
                            j3 <= cols@.len(),
                            cols@.len() == 5,
                            cols0.len() == 5,
                            col_prefix@ == spec_card_col_prefix(t as int),
                            tres == spec_result_at3(resultsv.team_results, t as int),
                            tcolor == spec_fest_team_at3(fv.teams, t as int).color,
                            forall|j: int| j3 <= j < 5 ==> (#[trigger] cols@[j]) == cols0[j],
                            forall|j: int|
                                0 <= j < 5 ==> (#[trigger] cols0[j]).name@ == spec_result_row_name(
                                    j,
                                ),
                            forall|j: int|
                                0 <= j < 5 ==> match (#[trigger] cols0[j]).object_type {
                                    ObjectType::Meter(mt, o) => {
                                        &&& mt matches MeterType::String(st)
                                        &&& st.text@ == spec_percent_text(
                                            spec_result_row(tres, j).basis_points as nat,
                                        )
                                        &&& (spec_result_row(tres, j).is_leading <==> st.font_color
                                            == Some(Color { r: 150, g: 150, b: 50, a: 255 }))
                                        &&& o.pos.x == 50 && o.pos.y == 25 + 50 * j
                                        &&& o.size.x == 100 && o.size.y == 50
                                    },
                                    ObjectType::Measure(_, _) => false,
                                },
                            forall|j: int|
                                0 <= j < j3 ==> {
                                    &&& (#[trigger] cols@[j]).name@ == spec_card_col_prefix(
                                        t as int,
                                    ) + spec_result_row_name(j)
                                    &&& match cols@[j].object_type {
                                        ObjectType::Meter(mt, o) => {
                                            &&& mt matches MeterType::String(st)
                                            &&& st.text@ == spec_percent_text(
                                                spec_result_row(tres, j).basis_points as nat,
                                            )
                                            &&& (spec_result_row(tres, j).is_leading
                                                <==> st.font_color == Some(
                                                Color { r: 150, g: 150, b: 50, a: 255 },
                                            ))
                                            &&& o.solid_color == Some(tcolor)
                                            &&& o.pos.x == 50 && o.pos.y == 25 + 50 * j
                                            &&& o.size.x == 100 && o.size.y == 50
                                        },
                                        ObjectType::Measure(_, _) => false,
                                    }
                                },
                        decreases cols@.len() - j3,
                    {
                        cols[j3].prefix_name_mut(col_prefix);
                        match &mut cols[j3].object_type {
                            ObjectType::Meter(_, o) => {
                                o.solid_color = Some(colors[t]);
                            },
                            ObjectType::Measure(_, _) => {},
                        }
                        j3 = j3 + 1;
                    }
                    let ghost cpre = cols@;
                    let sx: i64 = 100 + 100 * (t as i64);
                    shift_meters(&mut cols, sx, 150);
                    proof {
                        assert forall|j: int| 0 <= j < 5 implies {
                            &&& (#[trigger] cols@[j]).name@ == spec_card_col_prefix(t as int)
                                + spec_result_row_name(j)
                            &&& match cols@[j].object_type {
                                ObjectType::Meter(mt, o) => {
                                    &&& mt matches MeterType::String(st)
                                    &&& st.text@ == spec_percent_text(
                                        spec_result_row(tres, j).basis_points as nat,
                                    )
                                    &&& (spec_result_row(tres, j).is_leading <==> st.font_color
                                        == Some(Color { r: 150, g: 150, b: 50, a: 255 }))
                                    &&& o.solid_color == Some(tcolor)
                                    &&& o.pos.x == 150 + 100 * (t as int) && o.pos.y == 175 + 50
                                        * j
                                    &&& o.size.x == 100 && o.size.y == 50
                                },
                                ObjectType::Measure(_, _) => false,
                            }
                        } by {
                            assert(spec_shifted(cols@[j], cpre[j], sx as int, 150));
                        }
                    }
                    let ghost cfin = cols@;
                    let ghost rpre = ret@;
                    ret.append(&mut cols);
                    proof {
                        assert forall|t2: int, k2: int| 0 <= t2 < t + 1 && 0 <= k2 < 5 implies
                            #[trigger] spec_card_col_at(ret@, 0, fv, resultsv, t2, k2) by {
                            if t2 < t {
                                assert(ret@[14 + 5 * t2 + k2] == rpre[14 + 5 * t2 + k2]);
                                assert(spec_card_col_at(rpre, 0, fv, resultsv, t2, k2));
                            } else {
                                assert(ret@[14 + 5 * t2 + k2] == cfin[k2]);
                            }
                        }
                        assert forall|k2: int| 0 <= k2 < 5 implies #[trigger] spec_card_row_at(
                            ret@,
                            0,
                            k2,
                        ) by {
                            assert(ret@[9 + k2] == rpre[9 + k2]);
                            assert(spec_card_row_at(rpre, 0, k2));
                        }
                    }
                    t = t + 1;
                }
                proof {
                    reveal(spec_fest_card);
                    assert(fv.state == SplatfestStateV::Finished(resultsv));
                    assert(ret@[0] == base14[0]);
                    assert(base14[0] == base9[0]);
                    assert(base9[0] == base7[0]);
                    assert forall|t2: int| 0 <= t2 < 3 implies #[trigger] spec_card_team_at(
                        ret@,
                        0,
                        fv,
                        t2,
                    ) by {
                        assert(ret@[1 + 2 * t2] == base14[1 + 2 * t2]);
                        assert(base14[1 + 2 * t2] == base9[1 + 2 * t2]);
                        assert(base9[1 + 2 * t2] == base7[1 + 2 * t2]);
                        assert(ret@[2 + 2 * t2] == base14[2 + 2 * t2]);
                        assert(base14[2 + 2 * t2] == base9[2 + 2 * t2]);
                        assert(base9[2 + 2 * t2] == base7[2 + 2 * t2]);
                        assert(spec_card_team_at(base7, 0, fv, t2));
                    }
                    assert(ret@[7] == base14[7]);
                    assert(base14[7] == base9[7]);
                    assert(ret@[8] == base14[8]);
                    assert(base14[8] == base9[8]);
                    assert(spec_fest_card(ret@, 0, fv));
                }
            },
        }
        ret
    }
}


/// How many objects the splatfest card holds in each state.
pub open spec fn spec_fest_objs(s: Option<SplatfestStateV>) -> int {
    match s {
        None => 0,
        Some(SplatfestStateV::MissingTricolor) => 12,
        Some(SplatfestStateV::Active(_, _)) => 16,
        Some(SplatfestStateV::Finished(_)) => 29,
    }
}

/// The summed object counts of the rendered groups.
pub open spec fn spec_groups_objs(gs: Seq<crate::rm_structure::ScheduleV>) -> int
    decreases gs.len(),
{
    if gs.len() == 0 {
        0
    } else {
        spec_groups_objs(gs.drop_last()) + 6 + spec_total_objs(gs.last().events)
    }
}


/// No two objects of a group's header row share a final name, whatever the
/// group id: the six suffixes under the id are pairwise distinct.
#[verifier::rlimit(100)]
#[verifier::spinoff_prover]
pub proof fn lemma_header_names_distinct(
    s: Seq<RmObject>,
    at: int,
    g: crate::rm_structure::ScheduleV,
    dy: int,
    i: int,
    j: int,
)
    requires
        spec_header_at(s, at, g, dy),
        0 <= i < j < 6,
    ensures
        s[at + i].name@ != s[at + j].name@,
{
    reveal(spec_header_at);
    reveal_strlit("PrevScheImage");
    reveal_strlit("PrevScheArrow");
    reveal_strlit("CurrScheImage");
    reveal_strlit("CurrScheTitle");
    reveal_strlit("NextScheArrow");
    reveal_strlit("NextScheImage");
    assert("PrevScheImage"@.len() == 13);
    assert("PrevScheArrow"@.len() == 13);
    assert("CurrScheImage"@.len() == 13);
    assert("CurrScheTitle"@.len() == 13);
    assert("NextScheArrow"@.len() == 13);
    assert("NextScheImage"@.len() == 13);
    assert(g.id + "PrevScheImage"@ != g.id + "PrevScheArrow"@) by {
        assert((g.id + "PrevScheImage"@)[g.id.len() as int + 8] != (g.id + "PrevScheArrow"@)[g.id.len() as int
            + 8]);
    }
    assert(g.id + "PrevScheImage"@ != g.id + "CurrScheImage"@) by {
        assert((g.id + "PrevScheImage"@)[g.id.len() as int + 0] != (g.id + "CurrScheImage"@)[g.id.len() as int
            + 0]);
    }
    assert(g.id + "PrevScheImage"@ != g.id + "CurrScheTitle"@) by {
        assert((g.id + "PrevScheImage"@)[g.id.len() as int + 0] != (g.id + "CurrScheTitle"@)[g.id.len() as int
            + 0]);
    }
    assert(g.id + "PrevScheImage"@ != g.id + "NextScheArrow"@) by {
        assert((g.id + "PrevScheImage"@)[g.id.len() as int + 0] != (g.id + "NextScheArrow"@)[g.id.len() as int
            + 0]);
    }
    assert(g.id + "PrevScheImage"@ != g.id + "NextScheImage"@) by {
        assert((g.id + "PrevScheImage"@)[g.id.len() as int + 0] != (g.id + "NextScheImage"@)[g.id.len() as int
            + 0]);
    }
    assert(g.id + "PrevScheArrow"@ != g.id + "CurrScheImage"@) by {
        assert((g.id + "PrevScheArrow"@)[g.id.len() as int + 0] != (g.id + "CurrScheImage"@)[g.id.len() as int
            + 0]);
    }
    assert(g.id + "PrevScheArrow"@ != g.id + "CurrScheTitle"@) by {
        assert((g.id + "PrevScheArrow"@)[g.id.len() as int + 0] != (g.id + "CurrScheTitle"@)[g.id.len() as int
            + 0]);
    }
    assert(g.id + "PrevScheArrow"@ != g.id + "NextScheArrow"@) by {
        assert((g.id + "PrevScheArrow"@)[g.id.len() as int + 0] != (g.id + "NextScheArrow"@)[g.id.len() as int
            + 0]);
    }
    assert(g.id + "PrevScheArrow"@ != g.id + "NextScheImage"@) by {
        assert((g.id + "PrevScheArrow"@)[g.id.len() as int + 0] != (g.id + "NextScheImage"@)[g.id.len() as int
            + 0]);
    }
    assert(g.id + "CurrScheImage"@ != g.id + "CurrScheTitle"@) by {
        assert((g.id + "CurrScheImage"@)[g.id.len() as int + 8] != (g.id + "CurrScheTitle"@)[g.id.len() as int
            + 8]);
    }
    assert(g.id + "CurrScheImage"@ != g.id + "NextScheArrow"@) by {
        assert((g.id + "CurrScheImage"@)[g.id.len() as int + 0] != (g.id + "NextScheArrow"@)[g.id.len() as int
            + 0]);
    }
    assert(g.id + "CurrScheImage"@ != g.id + "NextScheImage"@) by {
        assert((g.id + "CurrScheImage"@)[g.id.len() as int + 0] != (g.id + "NextScheImage"@)[g.id.len() as int
            + 0]);
    }
    assert(g.id + "CurrScheTitle"@ != g.id + "NextScheArrow"@) by {
        assert((g.id + "CurrScheTitle"@)[g.id.len() as int + 0] != (g.id + "NextScheArrow"@)[g.id.len() as int
            + 0]);
    }
    assert(g.id + "CurrScheTitle"@ != g.id + "NextScheImage"@) by {
        assert((g.id + "CurrScheTitle"@)[g.id.len() as int + 0] != (g.id + "NextScheImage"@)[g.id.len() as int
            + 0]);
    }
    assert(g.id + "NextScheArrow"@ != g.id + "NextScheImage"@) by {
        assert((g.id + "NextScheArrow"@)[g.id.len() as int + 8] != (g.id + "NextScheImage"@)[g.id.len() as int
            + 8]);
    }
}

/// The full rendering of one group at base index `at`: its header row,
/// each event's objects at that event's top offset under the group-id and
/// event-index name prefixes, and every meter tagged for grouped
/// show/hide.
#[verifier::opaque]
pub open spec fn spec_group_block(
    s: Seq<RmObject>,
    at: int,
    g: crate::rm_structure::ScheduleV,
    visible: bool,
    dy: int,
) -> bool {
    &&& spec_header_at(s, at, g, dy)
    &&& forall|j: int|
        0 <= j < g.events.len() ==> spec_event_block(
            s,
            at + 6 + spec_total_objs(g.events.take(j)),
            #[trigger] g.events[j],
            g.id + crate::text::spec_digits(j as nat),
            dy + 50 + spec_total_height(g.events.take(j)),
        )
    &&& forall|k: int|
        0 <= k < 6 + spec_total_objs(g.events) ==> spec_group_tagged(
            #[trigger] s[at + k],
            g.id,
            g.prev_sche,
            g.next_sche,
            visible,
        )
}

/// A group block read off one sequence holds in any sequence carrying the
/// same objects at another base index.
#[verifier::rlimit(100)]
#[verifier::spinoff_prover]
pub proof fn lemma_group_block_offset(
    t: Seq<RmObject>,
    s: Seq<RmObject>,
    at_t: int,
    at_s: int,
    g: crate::rm_structure::ScheduleV,
    visible: bool,
    dy: int,
)
    requires
        spec_group_block(s, at_s, g, visible, dy),
        0 <= at_t,
        at_t + 6 + spec_total_objs(g.events) <= t.len(),
        forall|k: int|
            0 <= k < 6 + spec_total_objs(g.events) ==> #[trigger] t[at_t + k] == s[at_s + k],
    ensures
        spec_group_block(t, at_t, g, visible, dy),
{
    reveal(spec_group_block);
    lemma_total_objs_nonneg(g.events);
    proof_header_offset(t, s, at_t, at_s, g, dy);
    assert forall|j: int| 0 <= j < g.events.len() implies spec_event_block(
        t,
        at_t + 6 + spec_total_objs(g.events.take(j)),
        #[trigger] g.events[j],
        g.id + crate::text::spec_digits(j as nat),
        dy + 50 + spec_total_height(g.events.take(j)),
    ) by {
        lemma_total_objs_prefix(g.events, j);
        lemma_total_objs_prefix(g.events, j + 1);
        lemma_total_objs_mono(g.events, j + 1, g.events.len() as int);
        assert forall|k: int| 0 <= k < spec_event_objs(g.events[j]) implies #[trigger] t[(at_t + 6
            + spec_total_objs(g.events.take(j))) + k] == s[(at_s + 6 + spec_total_objs(
            g.events.take(j),
        )) + k] by {
            assert(t[at_t + (6 + spec_total_objs(g.events.take(j)) + k)] == s[at_s + (6
                + spec_total_objs(g.events.take(j)) + k)]);
        }
        lemma_event_block_offset(
            t,
            s,
            at_t + 6 + spec_total_objs(g.events.take(j)),
            at_s + 6 + spec_total_objs(g.events.take(j)),
            g.events[j],
            g.id + crate::text::spec_digits(j as nat),
            dy + 50 + spec_total_height(g.events.take(j)),
        );
    }
    assert forall|k: int| 0 <= k < 6 + spec_total_objs(g.events) implies spec_group_tagged(
        #[trigger] t[at_t + k],
        g.id,
        g.prev_sche,
        g.next_sche,
        visible,
    ) by {
        assert(t[at_t + k] == s[at_s + k]);
    }
}

proof fn proof_header_offset(
    t: Seq<RmObject>,
    s: Seq<RmObject>,
    at_t: int,
    at_s: int,
    g: crate::rm_structure::ScheduleV,
    dy: int,
)
    requires
        spec_header_at(s, at_s, g, dy),
        0 <= at_t,
        at_t + 6 <= t.len(),
        forall|k: int| 0 <= k < 6 ==> #[trigger] t[at_t + k] == s[at_s + k],
    ensures
        spec_header_at(t, at_t, g, dy),
{
    reveal(spec_header_at);
    assert(t[at_t + 0] == s[at_s + 0]);
    assert(t[at_t + 1] == s[at_s + 1]);
    assert(t[at_t + 2] == s[at_s + 2]);
    assert(t[at_t + 3] == s[at_s + 3]);
    assert(t[at_t + 4] == s[at_s + 4]);
    assert(t[at_t + 5] == s[at_s + 5]);
}

pub proof fn lemma_groups_objs_prefix(gs: Seq<crate::rm_structure::ScheduleV>, i: int)
    requires
        0 <= i <= gs.len(),
    ensures
        spec_groups_objs(gs.take(i)) >= 0,
        spec_groups_objs(gs.take(i)) <= spec_groups_objs(gs),
        i < gs.len() ==> spec_groups_objs(gs.take(i + 1)) == spec_groups_objs(gs.take(i)) + 6
            + spec_total_objs(gs[i].events),
    decreases gs.len() - i,
{
    lemma_groups_objs_nonneg(gs.take(i));
    if i < gs.len() {
        assert(gs.take(i + 1).drop_last() =~= gs.take(i));
        assert(gs.take(i + 1).last() == gs[i]);
        lemma_total_objs_nonneg(gs[i].events);
        lemma_groups_objs_prefix(gs, i + 1);
    } else {
        assert(gs.take(i) =~= gs);
    }
}

pub proof fn lemma_groups_objs_mono(gs: Seq<crate::rm_structure::ScheduleV>, a: int, b: int)
    requires
        0 <= a <= b <= gs.len(),
    ensures
        spec_groups_objs(gs.take(a)) <= spec_groups_objs(gs.take(b)),
    decreases b - a,
{
    if a < b {
        lemma_groups_objs_prefix(gs, a);
        lemma_total_objs_nonneg(gs[a].events);
        lemma_groups_objs_mono(gs, a + 1, b);
    }
}

pub proof fn lemma_groups_objs_nonneg(gs: Seq<crate::rm_structure::ScheduleV>)
    ensures
        spec_groups_objs(gs) >= 0,
    decreases gs.len(),
{
    if gs.len() > 0 {
        lemma_groups_objs_nonneg(gs.drop_last());
        lemma_total_objs_nonneg(gs.last().events);
    }
}

/// Whether every group of a structure can be laid out within bounds.
pub open spec fn spec_structure_fits(s: crate::rm_structure::RmStructureV) -> bool {
    forall|i: int| 0 <= i < s.schedules.len() ==> spec_group_fits((#[trigger] s.schedules[i]).events)
}

/// Decide whether the whole structure can be laid out within bounds.
pub fn structure_fits(s: &RmStructure) -> (r: bool)
    ensures
        r == spec_structure_fits(s.deep_view()),
{
    let mut i: usize = 0;
    while i < s.schedules.len()
        invariant
            i <= s.schedules@.len(),
            s.schedules.deep_view().len() == s.schedules@.len(),
            forall|k: int|
                0 <= k < i ==> spec_group_fits((#[trigger] s.schedules.deep_view()[k]).events),
        decreases s.schedules@.len() - i,
    {
        if !group_fits(&s.schedules[i].events) {
            proof {
                assert(s.deep_view().schedules[i as int].events == s.schedules@[
                    i as int
                ].events.deep_view());
            }
            return false;
        }
        i = i + 1;
    }
    true
}


/// The name of slot `k` of the splatfest card.
pub open spec fn spec_card_name(f: crate::rm_structure::SplatfestV, k: int) -> Seq<char> {
    match f.state {
        SplatfestStateV::MissingTricolor => {
            if k == 0 {
                "SplatfestTitle"@
            } else if k == 1 {
                "SplatfestTeam0Image"@
            } else if k == 2 {
                "SplatfestTeam0Name"@
            } else if k == 3 {
                "SplatfestTeam1Image"@
            } else if k == 4 {
                "SplatfestTeam1Name"@
            } else if k == 5 {
                "SplatfestTeam2Image"@
            } else if k == 6 {
                "SplatfestTeam2Name"@
            } else if k == 7 {
                "SplatfestBackground"@
            } else if k == 8 {
                "SplatfestFullTermTimeBarMeasure"@
            } else if k == 9 {
                "SplatfestFullTermTimeBar"@
            } else if k == 10 {
                "SplatfestFullTermStartTime"@
            } else {
                "SplatfestFullTermEndTime"@
            }
        },
        SplatfestStateV::Active(_, _) => {
            if k == 0 {
                "SplatfestTitle"@
            } else if k == 1 {
                "SplatfestTeam0Image"@
            } else if k == 2 {
                "SplatfestTeam0Name"@
            } else if k == 3 {
                "SplatfestTeam1Image"@
            } else if k == 4 {
                "SplatfestTeam1Name"@
            } else if k == 5 {
                "SplatfestTeam2Image"@
            } else if k == 6 {
                "SplatfestTeam2Name"@
            } else if k == 7 {
                "SplatfestFirstTermTimeBarMeasure"@
            } else if k == 8 {
                "SplatfestFirstTermTimeBar"@
            } else if k == 9 {
                "SplatfestFirstTermStartTime"@
            } else if k == 10 {
                "SplatfestFirstTermEndTime"@
            } else if k == 11 {
                "SplatfestTricolorStage"@
            } else if k == 12 {
                "SplatfestSecondTermTimeBarMeasure"@
            } else if k == 13 {
                "SplatfestSecondTermTimeBar"@
            } else if k == 14 {
                "SplatfestSecondTermStartTime"@
            } else {
                "SplatfestSecondTermEndTime"@
            }
        },
        SplatfestStateV::Finished(_) => {
            if k == 0 {
                "SplatfestTitle"@
            } else if k == 1 {
                "SplatfestTeam0Image"@
            } else if k == 2 {
                "SplatfestTeam0Name"@
            } else if k == 3 {
                "SplatfestTeam1Image"@
            } else if k == 4 {
                "SplatfestTeam1Name"@
            } else if k == 5 {
                "SplatfestTeam2Image"@
            } else if k == 6 {
                "SplatfestTeam2Name"@
            } else if k == 7 {
                "SplatfestWinnerTeamName"@
            } else if k == 8 {
                "SplatfestWinnerTeamImage"@
            } else if k == 9 {
                "SplatfestSneakPeakRow"@
            } else if k == 10 {
                "SplatfestVotesRow"@
            } else if k == 11 {
                "SplatfestOpenRow"@
            } else if k == 12 {
                "SplatfestProRow"@
            } else if k == 13 {
                "SplatfestTricolorRow"@
            } else if k == 14 {
                "SplatfestTeam0SneakPeak"@
            } else if k == 15 {
                "SplatfestTeam0Votes"@
            } else if k == 16 {
                "SplatfestTeam0Open"@
            } else if k == 17 {
                "SplatfestTeam0Pro"@
            } else if k == 18 {
                "SplatfestTeam0Tricolor"@
            } else if k == 19 {
                "SplatfestTeam1SneakPeak"@
            } else if k == 20 {
                "SplatfestTeam1Votes"@
            } else if k == 21 {
                "SplatfestTeam1Open"@
            } else if k == 22 {
                "SplatfestTeam1Pro"@
            } else if k == 23 {
                "SplatfestTeam1Tricolor"@
            } else if k == 24 {
                "SplatfestTeam2SneakPeak"@
            } else if k == 25 {
                "SplatfestTeam2Votes"@
            } else if k == 26 {
                "SplatfestTeam2Open"@
            } else if k == 27 {
                "SplatfestTeam2Pro"@
            } else {
                "SplatfestTeam2Tricolor"@
            }
        },
    }
}

/// Every slot of the splatfest card carries the name of [`spec_card_name`].
#[verifier::rlimit(100)]
#[verifier::spinoff_prover]
pub proof fn lemma_card_name_table(s: Seq<RmObject>, at: int, f: crate::rm_structure::SplatfestV)
    requires
        spec_fest_card(s, at, f),
    ensures
        forall|k: int|
            0 <= k < spec_fest_objs(Some(f.state)) ==> (#[trigger] s[at + k]).name@
                == spec_card_name(f, k),
{
    reveal(spec_fest_card);
    reveal(spec_timebar_at);
    reveal_strlit("TimeBarMeasure");
    reveal_strlit("TimeBar");
    reveal_strlit("StartTime");
    reveal_strlit("EndTime");
    reveal_strlit("SplatfestFullTerm");
    reveal_strlit("SplatfestFirstTerm");
    reveal_strlit("SplatfestSecondTerm");
    reveal_strlit("SplatfestTeam0");
    reveal_strlit("SplatfestTeam1");
    reveal_strlit("SplatfestTeam2");
    reveal_strlit("SneakPeak");
    reveal_strlit("Votes");
    reveal_strlit("Open");
    reveal_strlit("Pro");
    reveal_strlit("Tricolor");
    reveal_strlit("SplatfestBackground");
    reveal_strlit("SplatfestFirstTermEndTime");
    reveal_strlit("SplatfestFirstTermStartTime");
    reveal_strlit("SplatfestFirstTermTimeBar");
    reveal_strlit("SplatfestFirstTermTimeBarMeasure");
    reveal_strlit("SplatfestFullTermEndTime");
    reveal_strlit("SplatfestFullTermStartTime");
    reveal_strlit("SplatfestFullTermTimeBar");
    reveal_strlit("SplatfestFullTermTimeBarMeasure");
    reveal_strlit("SplatfestOpenRow");
    reveal_strlit("SplatfestProRow");
    reveal_strlit("SplatfestSecondTermEndTime");
    reveal_strlit("SplatfestSecondTermStartTime");
    reveal_strlit("SplatfestSecondTermTimeBar");
    reveal_strlit("SplatfestSecondTermTimeBarMeasure");
    reveal_strlit("SplatfestSneakPeakRow");
    reveal_strlit("SplatfestTeam0Image");
    reveal_strlit("SplatfestTeam0Name");
    reveal_strlit("SplatfestTeam0Open");
    reveal_strlit("SplatfestTeam0Pro");
    reveal_strlit("SplatfestTeam0SneakPeak");
    reveal_strlit("SplatfestTeam0Tricolor");
    reveal_strlit("SplatfestTeam0Votes");
    reveal_strlit("SplatfestTeam1Image");
    reveal_strlit("SplatfestTeam1Name");
    reveal_strlit("SplatfestTeam1Open");
    reveal_strlit("SplatfestTeam1Pro");
    reveal_strlit("SplatfestTeam1SneakPeak");
    reveal_strlit("SplatfestTeam1Tricolor");
    reveal_strlit("SplatfestTeam1Votes");
    reveal_strlit("SplatfestTeam2Image");
    reveal_strlit("SplatfestTeam2Name");
    reveal_strlit("SplatfestTeam2Open");
    reveal_strlit("SplatfestTeam2Pro");
    reveal_strlit("SplatfestTeam2SneakPeak");
    reveal_strlit("SplatfestTeam2Tricolor");
    reveal_strlit("SplatfestTeam2Votes");
    reveal_strlit("SplatfestTitle");
    reveal_strlit("SplatfestTricolorRow");
    reveal_strlit("SplatfestTricolorStage");
    reveal_strlit("SplatfestVotesRow");
    reveal_strlit("SplatfestWinnerTeamImage");
    reveal_strlit("SplatfestWinnerTeamName");
    assert("SplatfestFullTerm"@ + "TimeBarMeasure"@ =~= "SplatfestFullTermTimeBarMeasure"@);
    assert("SplatfestFullTerm"@ + "TimeBar"@ =~= "SplatfestFullTermTimeBar"@);
    assert("SplatfestFullTerm"@ + "StartTime"@ =~= "SplatfestFullTermStartTime"@);
    assert("SplatfestFullTerm"@ + "EndTime"@ =~= "SplatfestFullTermEndTime"@);
    assert("SplatfestFirstTerm"@ + "TimeBarMeasure"@ =~= "SplatfestFirstTermTimeBarMeasure"@);
    assert("SplatfestFirstTerm"@ + "TimeBar"@ =~= "SplatfestFirstTermTimeBar"@);
    assert("SplatfestFirstTerm"@ + "StartTime"@ =~= "SplatfestFirstTermStartTime"@);
    assert("SplatfestFirstTerm"@ + "EndTime"@ =~= "SplatfestFirstTermEndTime"@);
    assert("SplatfestSecondTerm"@ + "TimeBarMeasure"@ =~= "SplatfestSecondTermTimeBarMeasure"@);
    assert("SplatfestSecondTerm"@ + "TimeBar"@ =~= "SplatfestSecondTermTimeBar"@);
    assert("SplatfestSecondTerm"@ + "StartTime"@ =~= "SplatfestSecondTermStartTime"@);
    assert("SplatfestSecondTerm"@ + "EndTime"@ =~= "SplatfestSecondTermEndTime"@);
    assert("SplatfestTeam0"@ + "SneakPeak"@ =~= "SplatfestTeam0SneakPeak"@);
    assert("SplatfestTeam0"@ + "Votes"@ =~= "SplatfestTeam0Votes"@);
    assert("SplatfestTeam0"@ + "Open"@ =~= "SplatfestTeam0Open"@);
    assert("SplatfestTeam0"@ + "Pro"@ =~= "SplatfestTeam0Pro"@);
    assert("SplatfestTeam0"@ + "Tricolor"@ =~= "SplatfestTeam0Tricolor"@);
    assert("SplatfestTeam1"@ + "SneakPeak"@ =~= "SplatfestTeam1SneakPeak"@);
    assert("SplatfestTeam1"@ + "Votes"@ =~= "SplatfestTeam1Votes"@);
    assert("SplatfestTeam1"@ + "Open"@ =~= "SplatfestTeam1Open"@);
    assert("SplatfestTeam1"@ + "Pro"@ =~= "SplatfestTeam1Pro"@);
    assert("SplatfestTeam1"@ + "Tricolor"@ =~= "SplatfestTeam1Tricolor"@);
    assert("SplatfestTeam2"@ + "SneakPeak"@ =~= "SplatfestTeam2SneakPeak"@);
    assert("SplatfestTeam2"@ + "Votes"@ =~= "SplatfestTeam2Votes"@);
    assert("SplatfestTeam2"@ + "Open"@ =~= "SplatfestTeam2Open"@);
    assert("SplatfestTeam2"@ + "Pro"@ =~= "SplatfestTeam2Pro"@);
    assert("SplatfestTeam2"@ + "Tricolor"@ =~= "SplatfestTeam2Tricolor"@);
    assert(spec_card_team_at(s, at, f, 0));
    assert(spec_card_team_at(s, at, f, 1));
    assert(spec_card_team_at(s, at, f, 2));
    match f.state {
        SplatfestStateV::MissingTricolor => {
            assert(s[at + 8].name@ == "SplatfestFullTermTimeBarMeasure"@);
            assert(s[at + 9].name@ == "SplatfestFullTermTimeBar"@);
            assert(s[at + 10].name@ == "SplatfestFullTermStartTime"@);
            assert(s[at + 11].name@ == "SplatfestFullTermEndTime"@);
            assert forall|k: int| 0 <= k < 12 implies (#[trigger] s[at + k]).name@
                == spec_card_name(f, k) by {}
        },
        SplatfestStateV::Active(_, _) => {
            assert(s[at + 7].name@ == "SplatfestFirstTermTimeBarMeasure"@);
            assert(s[at + 8].name@ == "SplatfestFirstTermTimeBar"@);
            assert(s[at + 9].name@ == "SplatfestFirstTermStartTime"@);
            assert(s[at + 10].name@ == "SplatfestFirstTermEndTime"@);
            assert(s[at + 12].name@ == "SplatfestSecondTermTimeBarMeasure"@);
            assert(s[at + 13].name@ == "SplatfestSecondTermTimeBar"@);
            assert(s[at + 14].name@ == "SplatfestSecondTermStartTime"@);
            assert(s[at + 15].name@ == "SplatfestSecondTermEndTime"@);
            assert forall|k: int| 0 <= k < 16 implies (#[trigger] s[at + k]).name@
                == spec_card_name(f, k) by {}
        },
        SplatfestStateV::Finished(results) => {
            assert forall|k2: int| 0 <= k2 < 5 implies (#[trigger] s[at + 9 + k2]).name@
                == spec_row_name(k2) by {
                assert(spec_card_row_at(s, at, k2));
            }
            assert forall|t2: int, k2: int| 0 <= t2 < 3 && 0 <= k2 < 5 implies (#[trigger] s[at
                + 14 + 5 * t2 + k2]).name@ == spec_card_col_prefix(t2) + spec_result_row_name(
                k2,
            ) by {
                assert(spec_card_col_at(s, at, f, results, t2, k2));
            }
            assert forall|k: int| 0 <= k < 29 implies (#[trigger] s[at + k]).name@
                == spec_card_name(f, k) by {
                if 14 <= k < 29 {
                    let t2 = (k - 14) / 5;
                    let k2 = (k - 14) % 5;
                    assert(k == 14 + 5 * t2 + k2);
                    assert(s[at + 14 + 5 * t2 + k2].name@ == spec_card_col_prefix(t2)
                        + spec_result_row_name(k2));
                }
            }
        },
    }
}


#[verifier::rlimit(100)]
#[verifier::spinoff_prover]
proof fn lemma_card_names_distinct_missing(f: crate::rm_structure::SplatfestV, i: int, j: int)
    requires
        f.state matches SplatfestStateV::MissingTricolor,
        0 <= i < j < spec_fest_objs(Some(f.state)),
    ensures
        spec_card_name(f, i) != spec_card_name(f, j),
{
    reveal_strlit("SplatfestBackground");
    reveal_strlit("SplatfestFullTermEndTime");
    reveal_strlit("SplatfestFullTermStartTime");
    reveal_strlit("SplatfestFullTermTimeBar");
    reveal_strlit("SplatfestFullTermTimeBarMeasure");
    reveal_strlit("SplatfestTeam0Image");
    reveal_strlit("SplatfestTeam0Name");
    reveal_strlit("SplatfestTeam1Image");
    reveal_strlit("SplatfestTeam1Name");
    reveal_strlit("SplatfestTeam2Image");
    reveal_strlit("SplatfestTeam2Name");
    reveal_strlit("SplatfestTitle");
    assert("SplatfestBackground"@.len() == 19);
    assert("SplatfestFullTermEndTime"@.len() == 24);
    assert("SplatfestFullTermStartTime"@.len() == 26);
    assert("SplatfestFullTermTimeBar"@.len() == 24);
    assert("SplatfestFullTermTimeBarMeasure"@.len() == 31);
    assert("SplatfestTeam0Image"@.len() == 19);
    assert("SplatfestTeam0Name"@.len() == 18);
    assert("SplatfestTeam1Image"@.len() == 19);
    assert("SplatfestTeam1Name"@.len() == 18);
    assert("SplatfestTeam2Image"@.len() == 19);
    assert("SplatfestTeam2Name"@.len() == 18);
    assert("SplatfestTitle"@.len() == 14);
    assert("SplatfestTitle"@ != "SplatfestTeam0Image"@);
    assert("SplatfestTitle"@ != "SplatfestTeam0Name"@);
    assert("SplatfestTitle"@ != "SplatfestTeam1Image"@);
    assert("SplatfestTitle"@ != "SplatfestTeam1Name"@);
    assert("SplatfestTitle"@ != "SplatfestTeam2Image"@);
    assert("SplatfestTitle"@ != "SplatfestTeam2Name"@);
    assert("SplatfestTitle"@ != "SplatfestBackground"@);
    assert("SplatfestTitle"@ != "SplatfestFullTermTimeBarMeasure"@);
    assert("SplatfestTitle"@ != "SplatfestFullTermTimeBar"@);
    assert("SplatfestTitle"@ != "SplatfestFullTermStartTime"@);
    assert("SplatfestTitle"@ != "SplatfestFullTermEndTime"@);
    assert("SplatfestTeam0Image"@ != "SplatfestTeam0Name"@);
    assert("SplatfestTeam0Image"@ != "SplatfestTeam1Image"@) by {
        assert("SplatfestTeam0Image"@[13] != "SplatfestTeam1Image"@[13]);
    }
    assert("SplatfestTeam0Image"@ != "SplatfestTeam1Name"@);
    assert("SplatfestTeam0Image"@ != "SplatfestTeam2Image"@) by {
        assert("SplatfestTeam0Image"@[13] != "SplatfestTeam2Image"@[13]);
    }
    assert("SplatfestTeam0Image"@ != "SplatfestTeam2Name"@);
    assert("SplatfestTeam0Image"@ != "SplatfestBackground"@) by {
        assert("SplatfestTeam0Image"@[9] != "SplatfestBackground"@[9]);
    }
    assert("SplatfestTeam0Image"@ != "SplatfestFullTermTimeBarMeasure"@);
    assert("SplatfestTeam0Image"@ != "SplatfestFullTermTimeBar"@);
    assert("SplatfestTeam0Image"@ != "SplatfestFullTermStartTime"@);
    assert("SplatfestTeam0Image"@ != "SplatfestFullTermEndTime"@);
    assert("SplatfestTeam0Name"@ != "SplatfestTeam1Image"@);
    assert("SplatfestTeam0Name"@ != "SplatfestTeam1Name"@) by {
        assert("SplatfestTeam0Name"@[13] != "SplatfestTeam1Name"@[13]);
    }
    assert("SplatfestTeam0Name"@ != "SplatfestTeam2Image"@);
    assert("SplatfestTeam0Name"@ != "SplatfestTeam2Name"@) by {
        assert("SplatfestTeam0Name"@[13] != "SplatfestTeam2Name"@[13]);
    }
    assert("SplatfestTeam0Name"@ != "SplatfestBackground"@);
    assert("SplatfestTeam0Name"@ != "SplatfestFullTermTimeBarMeasure"@);
    assert("SplatfestTeam0Name"@ != "SplatfestFullTermTimeBar"@);
    assert("SplatfestTeam0Name"@ != "SplatfestFullTermStartTime"@);
    assert("SplatfestTeam0Name"@ != "SplatfestFullTermEndTime"@);
    assert("SplatfestTeam1Image"@ != "SplatfestTeam1Name"@);
    assert("SplatfestTeam1Image"@ != "SplatfestTeam2Image"@) by {
        assert("SplatfestTeam1Image"@[13] != "SplatfestTeam2Image"@[13]);
    }
    assert("SplatfestTeam1Image"@ != "SplatfestTeam2Name"@);
    assert("SplatfestTeam1Image"@ != "SplatfestBackground"@) by {
        assert("SplatfestTeam1Image"@[9] != "SplatfestBackground"@[9]);
    }
    assert("SplatfestTeam1Image"@ != "SplatfestFullTermTimeBarMeasure"@);
    assert("SplatfestTeam1Image"@ != "SplatfestFullTermTimeBar"@);
    assert("SplatfestTeam1Image"@ != "SplatfestFullTermStartTime"@);
    assert("SplatfestTeam1Image"@ != "SplatfestFullTermEndTime"@);
    assert("SplatfestTeam1Name"@ != "SplatfestTeam2Image"@);
    assert("SplatfestTeam1Name"@ != "SplatfestTeam2Name"@) by {
        assert("SplatfestTeam1Name"@[13] != "SplatfestTeam2Name"@[13]);
    }
    assert("SplatfestTeam1Name"@ != "SplatfestBackground"@);
    assert("SplatfestTeam1Name"@ != "SplatfestFullTermTimeBarMeasure"@);
    assert("SplatfestTeam1Name"@ != "SplatfestFullTermTimeBar"@);
    assert("SplatfestTeam1Name"@ != "SplatfestFullTermStartTime"@);
    assert("SplatfestTeam1Name"@ != "SplatfestFullTermEndTime"@);
    assert("SplatfestTeam2Image"@ != "SplatfestTeam2Name"@);
    assert("SplatfestTeam2Image"@ != "SplatfestBackground"@) by {
        assert("SplatfestTeam2Image"@[9] != "SplatfestBackground"@[9]);
    }
    assert("SplatfestTeam2Image"@ != "SplatfestFullTermTimeBarMeasure"@);
    assert("SplatfestTeam2Image"@ != "SplatfestFullTermTimeBar"@);
    assert("SplatfestTeam2Image"@ != "SplatfestFullTermStartTime"@);
    assert("SplatfestTeam2Image"@ != "SplatfestFullTermEndTime"@);
    assert("SplatfestTeam2Name"@ != "SplatfestBackground"@);
    assert("SplatfestTeam2Name"@ != "SplatfestFullTermTimeBarMeasure"@);
    assert("SplatfestTeam2Name"@ != "SplatfestFullTermTimeBar"@);
    assert("SplatfestTeam2Name"@ != "SplatfestFullTermStartTime"@);
    assert("SplatfestTeam2Name"@ != "SplatfestFullTermEndTime"@);
    assert("SplatfestBackground"@ != "SplatfestFullTermTimeBarMeasure"@);
    assert("SplatfestBackground"@ != "SplatfestFullTermTimeBar"@);
    assert("SplatfestBackground"@ != "SplatfestFullTermStartTime"@);
    assert("SplatfestBackground"@ != "SplatfestFullTermEndTime"@);
    assert("SplatfestFullTermTimeBarMeasure"@ != "SplatfestFullTermTimeBar"@);
    assert("SplatfestFullTermTimeBarMeasure"@ != "SplatfestFullTermStartTime"@);
    assert("SplatfestFullTermTimeBarMeasure"@ != "SplatfestFullTermEndTime"@);
    assert("SplatfestFullTermTimeBar"@ != "SplatfestFullTermStartTime"@);
    assert("SplatfestFullTermTimeBar"@ != "SplatfestFullTermEndTime"@) by {
        assert("SplatfestFullTermTimeBar"@[17] != "SplatfestFullTermEndTime"@[17]);
    }
    assert("SplatfestFullTermStartTime"@ != "SplatfestFullTermEndTime"@);
}

#[verifier::rlimit(100)]
#[verifier::spinoff_prover]
proof fn lemma_card_names_distinct_active(f: crate::rm_structure::SplatfestV, i: int, j: int)
    requires
        f.state matches SplatfestStateV::Active(_, _),
        0 <= i < j < spec_fest_objs(Some(f.state)),
    ensures
        spec_card_name(f, i) != spec_card_name(f, j),
{
    reveal_strlit("SplatfestFirstTermEndTime");
    reveal_strlit("SplatfestFirstTermStartTime");
    reveal_strlit("SplatfestFirstTermTimeBar");
    reveal_strlit("SplatfestFirstTermTimeBarMeasure");
    reveal_strlit("SplatfestSecondTermEndTime");
    reveal_strlit("SplatfestSecondTermStartTime");
    reveal_strlit("SplatfestSecondTermTimeBar");
    reveal_strlit("SplatfestSecondTermTimeBarMeasure");
    reveal_strlit("SplatfestTeam0Image");
    reveal_strlit("SplatfestTeam0Name");
    reveal_strlit("SplatfestTeam1Image");
    reveal_strlit("SplatfestTeam1Name");
    reveal_strlit("SplatfestTeam2Image");
    reveal_strlit("SplatfestTeam2Name");
    reveal_strlit("SplatfestTitle");
    reveal_strlit("SplatfestTricolorStage");
    assert("SplatfestFirstTermEndTime"@.len() == 25);
    assert("SplatfestFirstTermStartTime"@.len() == 27);
    assert("SplatfestFirstTermTimeBar"@.len() == 25);
    assert("SplatfestFirstTermTimeBarMeasure"@.len() == 32);
    assert("SplatfestSecondTermEndTime"@.len() == 26);
    assert("SplatfestSecondTermStartTime"@.len() == 28);
    assert("SplatfestSecondTermTimeBar"@.len() == 26);
    assert("SplatfestSecondTermTimeBarMeasure"@.len() == 33);
    assert("SplatfestTeam0Image"@.len() == 19);
    assert("SplatfestTeam0Name"@.len() == 18);
    assert("SplatfestTeam1Image"@.len() == 19);
    assert("SplatfestTeam1Name"@.len() == 18);
    assert("SplatfestTeam2Image"@.len() == 19);
    assert("SplatfestTeam2Name"@.len() == 18);
    assert("SplatfestTitle"@.len() == 14);
    assert("SplatfestTricolorStage"@.len() == 22);
    assert("SplatfestTitle"@ != "SplatfestTeam0Image"@);
    assert("SplatfestTitle"@ != "SplatfestTeam0Name"@);
    assert("SplatfestTitle"@ != "SplatfestTeam1Image"@);
    assert("SplatfestTitle"@ != "SplatfestTeam1Name"@);
    assert("SplatfestTitle"@ != "SplatfestTeam2Image"@);
    assert("SplatfestTitle"@ != "SplatfestTeam2Name"@);
    assert("SplatfestTitle"@ != "SplatfestFirstTermTimeBarMeasure"@);
    assert("SplatfestTitle"@ != "SplatfestFirstTermTimeBar"@);
    assert("SplatfestTitle"@ != "SplatfestFirstTermStartTime"@);
    assert("SplatfestTitle"@ != "SplatfestFirstTermEndTime"@);
    assert("SplatfestTitle"@ != "SplatfestTricolorStage"@);
    assert("SplatfestTitle"@ != "SplatfestSecondTermTimeBarMeasure"@);
    assert("SplatfestTitle"@ != "SplatfestSecondTermTimeBar"@);
    assert("SplatfestTitle"@ != "SplatfestSecondTermStartTime"@);
    assert("SplatfestTitle"@ != "SplatfestSecondTermEndTime"@);
    assert("SplatfestTeam0Image"@ != "SplatfestTeam0Name"@);
    assert("SplatfestTeam0Image"@ != "SplatfestTeam1Image"@) by {
        assert("SplatfestTeam0Image"@[13] != "SplatfestTeam1Image"@[13]);
    }
    assert("SplatfestTeam0Image"@ != "SplatfestTeam1Name"@);
    assert("SplatfestTeam0Image"@ != "SplatfestTeam2Image"@) by {
        assert("SplatfestTeam0Image"@[13] != "SplatfestTeam2Image"@[13]);
    }
    assert("SplatfestTeam0Image"@ != "SplatfestTeam2Name"@);
    assert("SplatfestTeam0Image"@ != "SplatfestFirstTermTimeBarMeasure"@);
    assert("SplatfestTeam0Image"@ != "SplatfestFirstTermTimeBar"@);
    assert("SplatfestTeam0Image"@ != "SplatfestFirstTermStartTime"@);
    assert("SplatfestTeam0Image"@ != "SplatfestFirstTermEndTime"@);
    assert("SplatfestTeam0Image"@ != "SplatfestTricolorStage"@);
    assert("SplatfestTeam0Image"@ != "SplatfestSecondTermTimeBarMeasure"@);
    assert("SplatfestTeam0Image"@ != "SplatfestSecondTermTimeBar"@);
    assert("SplatfestTeam0Image"@ != "SplatfestSecondTermStartTime"@);
    assert("SplatfestTeam0Image"@ != "SplatfestSecondTermEndTime"@);
    assert("SplatfestTeam0Name"@ != "SplatfestTeam1Image"@);
    assert("SplatfestTeam0Name"@ != "SplatfestTeam1Name"@) by {
        assert("SplatfestTeam0Name"@[13] != "SplatfestTeam1Name"@[13]);
    }
    assert("SplatfestTeam0Name"@ != "SplatfestTeam2Image"@);
    assert("SplatfestTeam0Name"@ != "SplatfestTeam2Name"@) by {
        assert("SplatfestTeam0Name"@[13] != "SplatfestTeam2Name"@[13]);
    }
    assert("SplatfestTeam0Name"@ != "SplatfestFirstTermTimeBarMeasure"@);
    assert("SplatfestTeam0Name"@ != "SplatfestFirstTermTimeBar"@);
    assert("SplatfestTeam0Name"@ != "SplatfestFirstTermStartTime"@);
    assert("SplatfestTeam0Name"@ != "SplatfestFirstTermEndTime"@);
    assert("SplatfestTeam0Name"@ != "SplatfestTricolorStage"@);
    assert("SplatfestTeam0Name"@ != "SplatfestSecondTermTimeBarMeasure"@);
    assert("SplatfestTeam0Name"@ != "SplatfestSecondTermTimeBar"@);
    assert("SplatfestTeam0Name"@ != "SplatfestSecondTermStartTime"@);
    assert("SplatfestTeam0Name"@ != "SplatfestSecondTermEndTime"@);
    assert("SplatfestTeam1Image"@ != "SplatfestTeam1Name"@);
    assert("SplatfestTeam1Image"@ != "SplatfestTeam2Image"@) by {
        assert("SplatfestTeam1Image"@[13] != "SplatfestTeam2Image"@[13]);
    }
    assert("SplatfestTeam1Image"@ != "SplatfestTeam2Name"@);
    assert("SplatfestTeam1Image"@ != "SplatfestFirstTermTimeBarMeasure"@);
    assert("SplatfestTeam1Image"@ != "SplatfestFirstTermTimeBar"@);
    assert("SplatfestTeam1Image"@ != "SplatfestFirstTermStartTime"@);
    assert("SplatfestTeam1Image"@ != "SplatfestFirstTermEndTime"@);
    assert("SplatfestTeam1Image"@ != "SplatfestTricolorStage"@);
    assert("SplatfestTeam1Image"@ != "SplatfestSecondTermTimeBarMeasure"@);
    assert("SplatfestTeam1Image"@ != "SplatfestSecondTermTimeBar"@);
    assert("SplatfestTeam1Image"@ != "SplatfestSecondTermStartTime"@);
    assert("SplatfestTeam1Image"@ != "SplatfestSecondTermEndTime"@);
    assert("SplatfestTeam1Name"@ != "SplatfestTeam2Image"@);
    assert("SplatfestTeam1Name"@ != "SplatfestTeam2Name"@) by {
        assert("SplatfestTeam1Name"@[13] != "SplatfestTeam2Name"@[13]);
    }
    assert("SplatfestTeam1Name"@ != "SplatfestFirstTermTimeBarMeasure"@);
    assert("SplatfestTeam1Name"@ != "SplatfestFirstTermTimeBar"@);
    assert("SplatfestTeam1Name"@ != "SplatfestFirstTermStartTime"@);
    assert("SplatfestTeam1Name"@ != "SplatfestFirstTermEndTime"@);
    assert("SplatfestTeam1Name"@ != "SplatfestTricolorStage"@);
    assert("SplatfestTeam1Name"@ != "SplatfestSecondTermTimeBarMeasure"@);
    assert("SplatfestTeam1Name"@ != "SplatfestSecondTermTimeBar"@);
    assert("SplatfestTeam1Name"@ != "SplatfestSecondTermStartTime"@);
    assert("SplatfestTeam1Name"@ != "SplatfestSecondTermEndTime"@);
    assert("SplatfestTeam2Image"@ != "SplatfestTeam2Name"@);
    assert("SplatfestTeam2Image"@ != "SplatfestFirstTermTimeBarMeasure"@);
    assert("SplatfestTeam2Image"@ != "SplatfestFirstTermTimeBar"@);
    assert("SplatfestTeam2Image"@ != "SplatfestFirstTermStartTime"@);
    assert("SplatfestTeam2Image"@ != "SplatfestFirstTermEndTime"@);
    assert("SplatfestTeam2Image"@ != "SplatfestTricolorStage"@);
    assert("SplatfestTeam2Image"@ != "SplatfestSecondTermTimeBarMeasure"@);
    assert("SplatfestTeam2Image"@ != "SplatfestSecondTermTimeBar"@);
    assert("SplatfestTeam2Image"@ != "SplatfestSecondTermStartTime"@);
    assert("SplatfestTeam2Image"@ != "SplatfestSecondTermEndTime"@);
    assert("SplatfestTeam2Name"@ != "SplatfestFirstTermTimeBarMeasure"@);
    assert("SplatfestTeam2Name"@ != "SplatfestFirstTermTimeBar"@);
    assert("SplatfestTeam2Name"@ != "SplatfestFirstTermStartTime"@);
    assert("SplatfestTeam2Name"@ != "SplatfestFirstTermEndTime"@);
    assert("SplatfestTeam2Name"@ != "SplatfestTricolorStage"@);
    assert("SplatfestTeam2Name"@ != "SplatfestSecondTermTimeBarMeasure"@);
    assert("SplatfestTeam2Name"@ != "SplatfestSecondTermTimeBar"@);
    assert("SplatfestTeam2Name"@ != "SplatfestSecondTermStartTime"@);
    assert("SplatfestTeam2Name"@ != "SplatfestSecondTermEndTime"@);
    assert("SplatfestFirstTermTimeBarMeasure"@ != "SplatfestFirstTermTimeBar"@);
    assert("SplatfestFirstTermTimeBarMeasure"@ != "SplatfestFirstTermStartTime"@);
    assert("SplatfestFirstTermTimeBarMeasure"@ != "SplatfestFirstTermEndTime"@);
    assert("SplatfestFirstTermTimeBarMeasure"@ != "SplatfestTricolorStage"@);
    assert("SplatfestFirstTermTimeBarMeasure"@ != "SplatfestSecondTermTimeBarMeasure"@);
    assert("SplatfestFirstTermTimeBarMeasure"@ != "SplatfestSecondTermTimeBar"@);
    assert("SplatfestFirstTermTimeBarMeasure"@ != "SplatfestSecondTermStartTime"@);
    assert("SplatfestFirstTermTimeBarMeasure"@ != "SplatfestSecondTermEndTime"@);
    assert("SplatfestFirstTermTimeBar"@ != "SplatfestFirstTermStartTime"@);
    assert("SplatfestFirstTermTimeBar"@ != "SplatfestFirstTermEndTime"@) by {
        assert("SplatfestFirstTermTimeBar"@[18] != "SplatfestFirstTermEndTime"@[18]);
    }
    assert("SplatfestFirstTermTimeBar"@ != "SplatfestTricolorStage"@);
    assert("SplatfestFirstTermTimeBar"@ != "SplatfestSecondTermTimeBarMeasure"@);
    assert("SplatfestFirstTermTimeBar"@ != "SplatfestSecondTermTimeBar"@);
    assert("SplatfestFirstTermTimeBar"@ != "SplatfestSecondTermStartTime"@);
    assert("SplatfestFirstTermTimeBar"@ != "SplatfestSecondTermEndTime"@);
    assert("SplatfestFirstTermStartTime"@ != "SplatfestFirstTermEndTime"@);
    assert("SplatfestFirstTermStartTime"@ != "SplatfestTricolorStage"@);
    assert("SplatfestFirstTermStartTime"@ != "SplatfestSecondTermTimeBarMeasure"@);
    assert("SplatfestFirstTermStartTime"@ != "SplatfestSecondTermTimeBar"@);
    assert("SplatfestFirstTermStartTime"@ != "SplatfestSecondTermStartTime"@);
    assert("SplatfestFirstTermStartTime"@ != "SplatfestSecondTermEndTime"@);
    assert("SplatfestFirstTermEndTime"@ != "SplatfestTricolorStage"@);
    assert("SplatfestFirstTermEndTime"@ != "SplatfestSecondTermTimeBarMeasure"@);
    assert("SplatfestFirstTermEndTime"@ != "SplatfestSecondTermTimeBar"@);
    assert("SplatfestFirstTermEndTime"@ != "SplatfestSecondTermStartTime"@);
    assert("SplatfestFirstTermEndTime"@ != "SplatfestSecondTermEndTime"@);
    assert("SplatfestTricolorStage"@ != "SplatfestSecondTermTimeBarMeasure"@);
    assert("SplatfestTricolorStage"@ != "SplatfestSecondTermTimeBar"@);
    assert("SplatfestTricolorStage"@ != "SplatfestSecondTermStartTime"@);
    assert("SplatfestTricolorStage"@ != "SplatfestSecondTermEndTime"@);
    assert("SplatfestSecondTermTimeBarMeasure"@ != "SplatfestSecondTermTimeBar"@);
    assert("SplatfestSecondTermTimeBarMeasure"@ != "SplatfestSecondTermStartTime"@);
    assert("SplatfestSecondTermTimeBarMeasure"@ != "SplatfestSecondTermEndTime"@);
    assert("SplatfestSecondTermTimeBar"@ != "SplatfestSecondTermStartTime"@);
    assert("SplatfestSecondTermTimeBar"@ != "SplatfestSecondTermEndTime"@) by {
        assert("SplatfestSecondTermTimeBar"@[19] != "SplatfestSecondTermEndTime"@[19]);
    }
    assert("SplatfestSecondTermStartTime"@ != "SplatfestSecondTermEndTime"@);
}

#[verifier::rlimit(100)]
#[verifier::spinoff_prover]
proof fn lemma_card_names_distinct_finished(f: crate::rm_structure::SplatfestV, i: int, j: int)
    requires
        f.state matches SplatfestStateV::Finished(_),
        0 <= i < j < spec_fest_objs(Some(f.state)),
    ensures
        spec_card_name(f, i) != spec_card_name(f, j),
{
    reveal_strlit("SplatfestOpenRow");
    reveal_strlit("SplatfestProRow");
    reveal_strlit("SplatfestSneakPeakRow");
    reveal_strlit("SplatfestTeam0Image");
    reveal_strlit("SplatfestTeam0Name");
    reveal_strlit("SplatfestTeam0Open");
    reveal_strlit("SplatfestTeam0Pro");
    reveal_strlit("SplatfestTeam0SneakPeak");
    reveal_strlit("SplatfestTeam0Tricolor");
    reveal_strlit("SplatfestTeam0Votes");
    reveal_strlit("SplatfestTeam1Image");
    reveal_strlit("SplatfestTeam1Name");
    reveal_strlit("SplatfestTeam1Open");
    reveal_strlit("SplatfestTeam1Pro");
    reveal_strlit("SplatfestTeam1SneakPeak");
    reveal_strlit("SplatfestTeam1Tricolor");
    reveal_strlit("SplatfestTeam1Votes");
    reveal_strlit("SplatfestTeam2Image");
    reveal_strlit("SplatfestTeam2Name");
    reveal_strlit("SplatfestTeam2Open");
    reveal_strlit("SplatfestTeam2Pro");
    reveal_strlit("SplatfestTeam2SneakPeak");
    reveal_strlit("SplatfestTeam2Tricolor");
    reveal_strlit("SplatfestTeam2Votes");
    reveal_strlit("SplatfestTitle");
    reveal_strlit("SplatfestTricolorRow");
    reveal_strlit("SplatfestVotesRow");
    reveal_strlit("SplatfestWinnerTeamImage");
    reveal_strlit("SplatfestWinnerTeamName");
    assert("SplatfestOpenRow"@.len() == 16);
    assert("SplatfestProRow"@.len() == 15);
    assert("SplatfestSneakPeakRow"@.len() == 21);
    assert("SplatfestTeam0Image"@.len() == 19);
    assert("SplatfestTeam0Name"@.len() == 18);
    assert("SplatfestTeam0Open"@.len() == 18);
    assert("SplatfestTeam0Pro"@.len() == 17);
    assert("SplatfestTeam0SneakPeak"@.len() == 23);
    assert("SplatfestTeam0Tricolor"@.len() == 22);
    assert("SplatfestTeam0Votes"@.len() == 19);
    assert("SplatfestTeam1Image"@.len() == 19);
    assert("SplatfestTeam1Name"@.len() == 18);
    assert("SplatfestTeam1Open"@.len() == 18);
    assert("SplatfestTeam1Pro"@.len() == 17);
    assert("SplatfestTeam1SneakPeak"@.len() == 23);
    assert("SplatfestTeam1Tricolor"@.len() == 22);
    assert("SplatfestTeam1Votes"@.len() == 19);
    assert("SplatfestTeam2Image"@.len() == 19);
    assert("SplatfestTeam2Name"@.len() == 18);
    assert("SplatfestTeam2Open"@.len() == 18);
    assert("SplatfestTeam2Pro"@.len() == 17);
    assert("SplatfestTeam2SneakPeak"@.len() == 23);
    assert("SplatfestTeam2Tricolor"@.len() == 22);
    assert("SplatfestTeam2Votes"@.len() == 19);
    assert("SplatfestTitle"@.len() == 14);
    assert("SplatfestTricolorRow"@.len() == 20);
    assert("SplatfestVotesRow"@.len() == 17);
    assert("SplatfestWinnerTeamImage"@.len() == 24);
    assert("SplatfestWinnerTeamName"@.len() == 23);
    assert("SplatfestTitle"@ != "SplatfestTeam0Image"@);
    assert("SplatfestTitle"@ != "SplatfestTeam0Name"@);
    assert("SplatfestTitle"@ != "SplatfestTeam1Image"@);
    assert("SplatfestTitle"@ != "SplatfestTeam1Name"@);
    assert("SplatfestTitle"@ != "SplatfestTeam2Image"@);
    assert("SplatfestTitle"@ != "SplatfestTeam2Name"@);
    assert("SplatfestTitle"@ != "SplatfestWinnerTeamName"@);
    assert("SplatfestTitle"@ != "SplatfestWinnerTeamImage"@);
    assert("SplatfestTitle"@ != "SplatfestSneakPeakRow"@);
    assert("SplatfestTitle"@ != "SplatfestVotesRow"@);
    assert("SplatfestTitle"@ != "SplatfestOpenRow"@);
    assert("SplatfestTitle"@ != "SplatfestProRow"@);
    assert("SplatfestTitle"@ != "SplatfestTricolorRow"@);
    assert("SplatfestTitle"@ != "SplatfestTeam0SneakPeak"@);
    assert("SplatfestTitle"@ != "SplatfestTeam0Votes"@);
    assert("SplatfestTitle"@ != "SplatfestTeam0Open"@);
    assert("SplatfestTitle"@ != "SplatfestTeam0Pro"@);
    assert("SplatfestTitle"@ != "SplatfestTeam0Tricolor"@);
    assert("SplatfestTitle"@ != "SplatfestTeam1SneakPeak"@);
    assert("SplatfestTitle"@ != "SplatfestTeam1Votes"@);
    assert("SplatfestTitle"@ != "SplatfestTeam1Open"@);
    assert("SplatfestTitle"@ != "SplatfestTeam1Pro"@);
    assert("SplatfestTitle"@ != "SplatfestTeam1Tricolor"@);
    assert("SplatfestTitle"@ != "SplatfestTeam2SneakPeak"@);
    assert("SplatfestTitle"@ != "SplatfestTeam2Votes"@);
    assert("SplatfestTitle"@ != "SplatfestTeam2Open"@);
    assert("SplatfestTitle"@ != "SplatfestTeam2Pro"@);
    assert("SplatfestTitle"@ != "SplatfestTeam2Tricolor"@);
    assert("SplatfestTeam0Image"@ != "SplatfestTeam0Name"@);
    assert("SplatfestTeam0Image"@ != "SplatfestTeam1Image"@) by {
        assert("SplatfestTeam0Image"@[13] != "SplatfestTeam1Image"@[13]);
    }
    assert("SplatfestTeam0Image"@ != "SplatfestTeam1Name"@);
    assert("SplatfestTeam0Image"@ != "SplatfestTeam2Image"@) by {
        assert("SplatfestTeam0Image"@[13] != "SplatfestTeam2Image"@[13]);
    }
    assert("SplatfestTeam0Image"@ != "SplatfestTeam2Name"@);
    assert("SplatfestTeam0Image"@ != "SplatfestWinnerTeamName"@);
    assert("SplatfestTeam0Image"@ != "SplatfestWinnerTeamImage"@);
    assert("SplatfestTeam0Image"@ != "SplatfestSneakPeakRow"@);
    assert("SplatfestTeam0Image"@ != "SplatfestVotesRow"@);
    assert("SplatfestTeam0Image"@ != "SplatfestOpenRow"@);
    assert("SplatfestTeam0Image"@ != "SplatfestProRow"@);
    assert("SplatfestTeam0Image"@ != "SplatfestTricolorRow"@);
    assert("SplatfestTeam0Image"@ != "SplatfestTeam0SneakPeak"@);
    assert("SplatfestTeam0Image"@ != "SplatfestTeam0Votes"@) by {
        assert("SplatfestTeam0Image"@[14] != "SplatfestTeam0Votes"@[14]);
    }
    assert("SplatfestTeam0Image"@ != "SplatfestTeam0Open"@);
    assert("SplatfestTeam0Image"@ != "SplatfestTeam0Pro"@);
    assert("SplatfestTeam0Image"@ != "SplatfestTeam0Tricolor"@);
    assert("SplatfestTeam0Image"@ != "SplatfestTeam1SneakPeak"@);
    assert("SplatfestTeam0Image"@ != "SplatfestTeam1Votes"@) by {
        assert("SplatfestTeam0Image"@[13] != "SplatfestTeam1Votes"@[13]);
    }
    assert("SplatfestTeam0Image"@ != "SplatfestTeam1Open"@);
    assert("SplatfestTeam0Image"@ != "SplatfestTeam1Pro"@);
    assert("SplatfestTeam0Image"@ != "SplatfestTeam1Tricolor"@);
    assert("SplatfestTeam0Image"@ != "SplatfestTeam2SneakPeak"@);
    assert("SplatfestTeam0Image"@ != "SplatfestTeam2Votes"@) by {
        assert("SplatfestTeam0Image"@[13] != "SplatfestTeam2Votes"@[13]);
    }
    assert("SplatfestTeam0Image"@ != "SplatfestTeam2Open"@);
    assert("SplatfestTeam0Image"@ != "SplatfestTeam2Pro"@);
    assert("SplatfestTeam0Image"@ != "SplatfestTeam2Tricolor"@);
    assert("SplatfestTeam0Name"@ != "SplatfestTeam1Image"@);
    assert("SplatfestTeam0Name"@ != "SplatfestTeam1Name"@) by {
        assert("SplatfestTeam0Name"@[13] != "SplatfestTeam1Name"@[13]);
    }
    assert("SplatfestTeam0Name"@ != "SplatfestTeam2Image"@);
    assert("SplatfestTeam0Name"@ != "SplatfestTeam2Name"@) by {
        assert("SplatfestTeam0Name"@[13] != "SplatfestTeam2Name"@[13]);
    }
    assert("SplatfestTeam0Name"@ != "SplatfestWinnerTeamName"@);
    assert("SplatfestTeam0Name"@ != "SplatfestWinnerTeamImage"@);
    assert("SplatfestTeam0Name"@ != "SplatfestSneakPeakRow"@);
    assert("SplatfestTeam0Name"@ != "SplatfestVotesRow"@);
    assert("SplatfestTeam0Name"@ != "SplatfestOpenRow"@);
    assert("SplatfestTeam0Name"@ != "SplatfestProRow"@);
    assert("SplatfestTeam0Name"@ != "SplatfestTricolorRow"@);
    assert("SplatfestTeam0Name"@ != "SplatfestTeam0SneakPeak"@);
    assert("SplatfestTeam0Name"@ != "SplatfestTeam0Votes"@);
    assert("SplatfestTeam0Name"@ != "SplatfestTeam0Open"@) by {
        assert("SplatfestTeam0Name"@[14] != "SplatfestTeam0Open"@[14]);
    }
    assert("SplatfestTeam0Name"@ != "SplatfestTeam0Pro"@);
    assert("SplatfestTeam0Name"@ != "SplatfestTeam0Tricolor"@);
    assert("SplatfestTeam0Name"@ != "SplatfestTeam1SneakPeak"@);
    assert("SplatfestTeam0Name"@ != "SplatfestTeam1Votes"@);
    assert("SplatfestTeam0Name"@ != "SplatfestTeam1Open"@) by {
        assert("SplatfestTeam0Name"@[13] != "SplatfestTeam1Open"@[13]);
    }
    assert("SplatfestTeam0Name"@ != "SplatfestTeam1Pro"@);
    assert("SplatfestTeam0Name"@ != "SplatfestTeam1Tricolor"@);
    assert("SplatfestTeam0Name"@ != "SplatfestTeam2SneakPeak"@);
    assert("SplatfestTeam0Name"@ != "SplatfestTeam2Votes"@);
    assert("SplatfestTeam0Name"@ != "SplatfestTeam2Open"@) by {
        assert("SplatfestTeam0Name"@[13] != "SplatfestTeam2Open"@[13]);
    }
    assert("SplatfestTeam0Name"@ != "SplatfestTeam2Pro"@);
    assert("SplatfestTeam0Name"@ != "SplatfestTeam2Tricolor"@);
    assert("SplatfestTeam1Image"@ != "SplatfestTeam1Name"@);
    assert("SplatfestTeam1Image"@ != "SplatfestTeam2Image"@) by {
        assert("SplatfestTeam1Image"@[13] != "SplatfestTeam2Image"@[13]);
    }
    assert("SplatfestTeam1Image"@ != "SplatfestTeam2Name"@);
    assert("SplatfestTeam1Image"@ != "SplatfestWinnerTeamName"@);
    assert("SplatfestTeam1Image"@ != "SplatfestWinnerTeamImage"@);
    assert("SplatfestTeam1Image"@ != "SplatfestSneakPeakRow"@);
    assert("SplatfestTeam1Image"@ != "SplatfestVotesRow"@);
    assert("SplatfestTeam1Image"@ != "SplatfestOpenRow"@);
    assert("SplatfestTeam1Image"@ != "SplatfestProRow"@);
    assert("SplatfestTeam1Image"@ != "SplatfestTricolorRow"@);
    assert("SplatfestTeam1Image"@ != "SplatfestTeam0SneakPeak"@);
    assert("SplatfestTeam1Image"@ != "SplatfestTeam0Votes"@) by {
        assert("SplatfestTeam1Image"@[13] != "SplatfestTeam0Votes"@[13]);
    }
    assert("SplatfestTeam1Image"@ != "SplatfestTeam0Open"@);
    assert("SplatfestTeam1Image"@ != "SplatfestTeam0Pro"@);
    assert("SplatfestTeam1Image"@ != "SplatfestTeam0Tricolor"@);
    assert("SplatfestTeam1Image"@ != "SplatfestTeam1SneakPeak"@);
    assert("SplatfestTeam1Image"@ != "SplatfestTeam1Votes"@) by {
        assert("SplatfestTeam1Image"@[14] != "SplatfestTeam1Votes"@[14]);
    }
    assert("SplatfestTeam1Image"@ != "SplatfestTeam1Open"@);
    assert("SplatfestTeam1Image"@ != "SplatfestTeam1Pro"@);
    assert("SplatfestTeam1Image"@ != "SplatfestTeam1Tricolor"@);
    assert("SplatfestTeam1Image"@ != "SplatfestTeam2SneakPeak"@);
    assert("SplatfestTeam1Image"@ != "SplatfestTeam2Votes"@) by {
        assert("SplatfestTeam1Image"@[13] != "SplatfestTeam2Votes"@[13]);
    }
    assert("SplatfestTeam1Image"@ != "SplatfestTeam2Open"@);
    assert("SplatfestTeam1Image"@ != "SplatfestTeam2Pro"@);
    assert("SplatfestTeam1Image"@ != "SplatfestTeam2Tricolor"@);
    assert("SplatfestTeam1Name"@ != "SplatfestTeam2Image"@);
    assert("SplatfestTeam1Name"@ != "SplatfestTeam2Name"@) by {
        assert("SplatfestTeam1Name"@[13] != "SplatfestTeam2Name"@[13]);
    }
    assert("SplatfestTeam1Name"@ != "SplatfestWinnerTeamName"@);
    assert("SplatfestTeam1Name"@ != "SplatfestWinnerTeamImage"@);
    assert("SplatfestTeam1Name"@ != "SplatfestSneakPeakRow"@);
    assert("SplatfestTeam1Name"@ != "SplatfestVotesRow"@);
    assert("SplatfestTeam1Name"@ != "SplatfestOpenRow"@);
    assert("SplatfestTeam1Name"@ != "SplatfestProRow"@);
    assert("SplatfestTeam1Name"@ != "SplatfestTricolorRow"@);
    assert("SplatfestTeam1Name"@ != "SplatfestTeam0SneakPeak"@);
    assert("SplatfestTeam1Name"@ != "SplatfestTeam0Votes"@);
    assert("SplatfestTeam1Name"@ != "SplatfestTeam0Open"@) by {
        assert("SplatfestTeam1Name"@[13] != "SplatfestTeam0Open"@[13]);
    }
    assert("SplatfestTeam1Name"@ != "SplatfestTeam0Pro"@);
    assert("SplatfestTeam1Name"@ != "SplatfestTeam0Tricolor"@);
    assert("SplatfestTeam1Name"@ != "SplatfestTeam1SneakPeak"@);
    assert("SplatfestTeam1Name"@ != "SplatfestTeam1Votes"@);
    assert("SplatfestTeam1Name"@ != "SplatfestTeam1Open"@) by {
        assert("SplatfestTeam1Name"@[14] != "SplatfestTeam1Open"@[14]);
    }
    assert("SplatfestTeam1Name"@ != "SplatfestTeam1Pro"@);
    assert("SplatfestTeam1Name"@ != "SplatfestTeam1Tricolor"@);
    assert("SplatfestTeam1Name"@ != "SplatfestTeam2SneakPeak"@);
    assert("SplatfestTeam1Name"@ != "SplatfestTeam2Votes"@);
    assert("SplatfestTeam1Name"@ != "SplatfestTeam2Open"@) by {
        assert("SplatfestTeam1Name"@[13] != "SplatfestTeam2Open"@[13]);
    }
    assert("SplatfestTeam1Name"@ != "SplatfestTeam2Pro"@);
    assert("SplatfestTeam1Name"@ != "SplatfestTeam2Tricolor"@);
    assert("SplatfestTeam2Image"@ != "SplatfestTeam2Name"@);
    assert("SplatfestTeam2Image"@ != "SplatfestWinnerTeamName"@);
    assert("SplatfestTeam2Image"@ != "SplatfestWinnerTeamImage"@);
    assert("SplatfestTeam2Image"@ != "SplatfestSneakPeakRow"@);
    assert("SplatfestTeam2Image"@ != "SplatfestVotesRow"@);
    assert("SplatfestTeam2Image"@ != "SplatfestOpenRow"@);
    assert("SplatfestTeam2Image"@ != "SplatfestProRow"@);
    assert("SplatfestTeam2Image"@ != "SplatfestTricolorRow"@);
    assert("SplatfestTeam2Image"@ != "SplatfestTeam0SneakPeak"@);
    assert("SplatfestTeam2Image"@ != "SplatfestTeam0Votes"@) by {
        assert("SplatfestTeam2Image"@[13] != "SplatfestTeam0Votes"@[13]);
    }
    assert("SplatfestTeam2Image"@ != "SplatfestTeam0Open"@);
    assert("SplatfestTeam2Image"@ != "SplatfestTeam0Pro"@);
    assert("SplatfestTeam2Image"@ != "SplatfestTeam0Tricolor"@);
    assert("SplatfestTeam2Image"@ != "SplatfestTeam1SneakPeak"@);
    assert("SplatfestTeam2Image"@ != "SplatfestTeam1Votes"@) by {
        assert("SplatfestTeam2Image"@[13] != "SplatfestTeam1Votes"@[13]);
    }
    assert("SplatfestTeam2Image"@ != "SplatfestTeam1Open"@);
    assert("SplatfestTeam2Image"@ != "SplatfestTeam1Pro"@);
    assert("SplatfestTeam2Image"@ != "SplatfestTeam1Tricolor"@);
    assert("SplatfestTeam2Image"@ != "SplatfestTeam2SneakPeak"@);
    assert("SplatfestTeam2Image"@ != "SplatfestTeam2Votes"@) by {
        assert("SplatfestTeam2Image"@[14] != "SplatfestTeam2Votes"@[14]);
    }
    assert("SplatfestTeam2Image"@ != "SplatfestTeam2Open"@);
    assert("SplatfestTeam2Image"@ != "SplatfestTeam2Pro"@);
    assert("SplatfestTeam2Image"@ != "SplatfestTeam2Tricolor"@);
    assert("SplatfestTeam2Name"@ != "SplatfestWinnerTeamName"@);
    assert("SplatfestTeam2Name"@ != "SplatfestWinnerTeamImage"@);
    assert("SplatfestTeam2Name"@ != "SplatfestSneakPeakRow"@);
    assert("SplatfestTeam2Name"@ != "SplatfestVotesRow"@);
    assert("SplatfestTeam2Name"@ != "SplatfestOpenRow"@);
    assert("SplatfestTeam2Name"@ != "SplatfestProRow"@);
    assert("SplatfestTeam2Name"@ != "SplatfestTricolorRow"@);
    assert("SplatfestTeam2Name"@ != "SplatfestTeam0SneakPeak"@);
    assert("SplatfestTeam2Name"@ != "SplatfestTeam0Votes"@);
    assert("SplatfestTeam2Name"@ != "SplatfestTeam0Open"@) by {
        assert("SplatfestTeam2Name"@[13] != "SplatfestTeam0Open"@[13]);
    }
    assert("SplatfestTeam2Name"@ != "SplatfestTeam0Pro"@);
    assert("SplatfestTeam2Name"@ != "SplatfestTeam0Tricolor"@);
    assert("SplatfestTeam2Name"@ != "SplatfestTeam1SneakPeak"@);
    assert("SplatfestTeam2Name"@ != "SplatfestTeam1Votes"@);
    assert("SplatfestTeam2Name"@ != "SplatfestTeam1Open"@) by {
        assert("SplatfestTeam2Name"@[13] != "SplatfestTeam1Open"@[13]);
    }
    assert("SplatfestTeam2Name"@ != "SplatfestTeam1Pro"@);
    assert("SplatfestTeam2Name"@ != "SplatfestTeam1Tricolor"@);
    assert("SplatfestTeam2Name"@ != "SplatfestTeam2SneakPeak"@);
    assert("SplatfestTeam2Name"@ != "SplatfestTeam2Votes"@);
    assert("SplatfestTeam2Name"@ != "SplatfestTeam2Open"@) by {
        assert("SplatfestTeam2Name"@[14] != "SplatfestTeam2Open"@[14]);
    }
    assert("SplatfestTeam2Name"@ != "SplatfestTeam2Pro"@);
    assert("SplatfestTeam2Name"@ != "SplatfestTeam2Tricolor"@);
    assert("SplatfestWinnerTeamName"@ != "SplatfestWinnerTeamImage"@);
    assert("SplatfestWinnerTeamName"@ != "SplatfestSneakPeakRow"@);
    assert("SplatfestWinnerTeamName"@ != "SplatfestVotesRow"@);
    assert("SplatfestWinnerTeamName"@ != "SplatfestOpenRow"@);
    assert("SplatfestWinnerTeamName"@ != "SplatfestProRow"@);
    assert("SplatfestWinnerTeamName"@ != "SplatfestTricolorRow"@);
    assert("SplatfestWinnerTeamName"@ != "SplatfestTeam0SneakPeak"@) by {
        assert("SplatfestWinnerTeamName"@[9] != "SplatfestTeam0SneakPeak"@[9]);
    }
    assert("SplatfestWinnerTeamName"@ != "SplatfestTeam0Votes"@);
    assert("SplatfestWinnerTeamName"@ != "SplatfestTeam0Open"@);
    assert("SplatfestWinnerTeamName"@ != "SplatfestTeam0Pro"@);
    assert("SplatfestWinnerTeamName"@ != "SplatfestTeam0Tricolor"@);
    assert("SplatfestWinnerTeamName"@ != "SplatfestTeam1SneakPeak"@) by {
        assert("SplatfestWinnerTeamName"@[9] != "SplatfestTeam1SneakPeak"@[9]);
    }
    assert("SplatfestWinnerTeamName"@ != "SplatfestTeam1Votes"@);
    assert("SplatfestWinnerTeamName"@ != "SplatfestTeam1Open"@);
    assert("SplatfestWinnerTeamName"@ != "SplatfestTeam1Pro"@);
    assert("SplatfestWinnerTeamName"@ != "SplatfestTeam1Tricolor"@);
    assert("SplatfestWinnerTeamName"@ != "SplatfestTeam2SneakPeak"@) by {
        assert("SplatfestWinnerTeamName"@[9] != "SplatfestTeam2SneakPeak"@[9]);
    }
    assert("SplatfestWinnerTeamName"@ != "SplatfestTeam2Votes"@);
    assert("SplatfestWinnerTeamName"@ != "SplatfestTeam2Open"@);
    assert("SplatfestWinnerTeamName"@ != "SplatfestTeam2Pro"@);
    assert("SplatfestWinnerTeamName"@ != "SplatfestTeam2Tricolor"@);
    assert("SplatfestWinnerTeamImage"@ != "SplatfestSneakPeakRow"@);
    assert("SplatfestWinnerTeamImage"@ != "SplatfestVotesRow"@);
    assert("SplatfestWinnerTeamImage"@ != "SplatfestOpenRow"@);
    assert("SplatfestWinnerTeamImage"@ != "SplatfestProRow"@);
    assert("SplatfestWinnerTeamImage"@ != "SplatfestTricolorRow"@);
    assert("SplatfestWinnerTeamImage"@ != "SplatfestTeam0SneakPeak"@);
    assert("SplatfestWinnerTeamImage"@ != "SplatfestTeam0Votes"@);
    assert("SplatfestWinnerTeamImage"@ != "SplatfestTeam0Open"@);
    assert("SplatfestWinnerTeamImage"@ != "SplatfestTeam0Pro"@);
    assert("SplatfestWinnerTeamImage"@ != "SplatfestTeam0Tricolor"@);
    assert("SplatfestWinnerTeamImage"@ != "SplatfestTeam1SneakPeak"@);
    assert("SplatfestWinnerTeamImage"@ != "SplatfestTeam1Votes"@);
    assert("SplatfestWinnerTeamImage"@ != "SplatfestTeam1Open"@);
    assert("SplatfestWinnerTeamImage"@ != "SplatfestTeam1Pro"@);
    assert("SplatfestWinnerTeamImage"@ != "SplatfestTeam1Tricolor"@);
    assert("SplatfestWinnerTeamImage"@ != "SplatfestTeam2SneakPeak"@);
    assert("SplatfestWinnerTeamImage"@ != "SplatfestTeam2Votes"@);
    assert("SplatfestWinnerTeamImage"@ != "SplatfestTeam2Open"@);
    assert("SplatfestWinnerTeamImage"@ != "SplatfestTeam2Pro"@);
    assert("SplatfestWinnerTeamImage"@ != "SplatfestTeam2Tricolor"@);
    assert("SplatfestSneakPeakRow"@ != "SplatfestVotesRow"@);
    assert("SplatfestSneakPeakRow"@ != "SplatfestOpenRow"@);
    assert("SplatfestSneakPeakRow"@ != "SplatfestProRow"@);
    assert("SplatfestSneakPeakRow"@ != "SplatfestTricolorRow"@);
    assert("SplatfestSneakPeakRow"@ != "SplatfestTeam0SneakPeak"@);
    assert("SplatfestSneakPeakRow"@ != "SplatfestTeam0Votes"@);
    assert("SplatfestSneakPeakRow"@ != "SplatfestTeam0Open"@);
    assert("SplatfestSneakPeakRow"@ != "SplatfestTeam0Pro"@);
    assert("SplatfestSneakPeakRow"@ != "SplatfestTeam0Tricolor"@);
    assert("SplatfestSneakPeakRow"@ != "SplatfestTeam1SneakPeak"@);
    assert("SplatfestSneakPeakRow"@ != "SplatfestTeam1Votes"@);
    assert("SplatfestSneakPeakRow"@ != "SplatfestTeam1Open"@);
    assert("SplatfestSneakPeakRow"@ != "SplatfestTeam1Pro"@);
    assert("SplatfestSneakPeakRow"@ != "SplatfestTeam1Tricolor"@);
    assert("SplatfestSneakPeakRow"@ != "SplatfestTeam2SneakPeak"@);
    assert("SplatfestSneakPeakRow"@ != "SplatfestTeam2Votes"@);
    assert("SplatfestSneakPeakRow"@ != "SplatfestTeam2Open"@);
    assert("SplatfestSneakPeakRow"@ != "SplatfestTeam2Pro"@);
    assert("SplatfestSneakPeakRow"@ != "SplatfestTeam2Tricolor"@);
    assert("SplatfestVotesRow"@ != "SplatfestOpenRow"@);
    assert("SplatfestVotesRow"@ != "SplatfestProRow"@);
    assert("SplatfestVotesRow"@ != "SplatfestTricolorRow"@);
    assert("SplatfestVotesRow"@ != "SplatfestTeam0SneakPeak"@);
    assert("SplatfestVotesRow"@ != "SplatfestTeam0Votes"@);
    assert("SplatfestVotesRow"@ != "SplatfestTeam0Open"@);
    assert("SplatfestVotesRow"@ != "SplatfestTeam0Pro"@) by {
        assert("SplatfestVotesRow"@[9] != "SplatfestTeam0Pro"@[9]);
    }
    assert("SplatfestVotesRow"@ != "SplatfestTeam0Tricolor"@);
    assert("SplatfestVotesRow"@ != "SplatfestTeam1SneakPeak"@);
    assert("SplatfestVotesRow"@ != "SplatfestTeam1Votes"@);
    assert("SplatfestVotesRow"@ != "SplatfestTeam1Open"@);
    assert("SplatfestVotesRow"@ != "SplatfestTeam1Pro"@) by {
        assert("SplatfestVotesRow"@[9] != "SplatfestTeam1Pro"@[9]);
    }
    assert("SplatfestVotesRow"@ != "SplatfestTeam1Tricolor"@);
    assert("SplatfestVotesRow"@ != "SplatfestTeam2SneakPeak"@);
    assert("SplatfestVotesRow"@ != "SplatfestTeam2Votes"@);
    assert("SplatfestVotesRow"@ != "SplatfestTeam2Open"@);
    assert("SplatfestVotesRow"@ != "SplatfestTeam2Pro"@) by {
        assert("SplatfestVotesRow"@[9] != "SplatfestTeam2Pro"@[9]);
    }
    assert("SplatfestVotesRow"@ != "SplatfestTeam2Tricolor"@);
    assert("SplatfestOpenRow"@ != "SplatfestProRow"@);
    assert("SplatfestOpenRow"@ != "SplatfestTricolorRow"@);
    assert("SplatfestOpenRow"@ != "SplatfestTeam0SneakPeak"@);
    assert("SplatfestOpenRow"@ != "SplatfestTeam0Votes"@);
    assert("SplatfestOpenRow"@ != "SplatfestTeam0Open"@);
    assert("SplatfestOpenRow"@ != "SplatfestTeam0Pro"@);
    assert("SplatfestOpenRow"@ != "SplatfestTeam0Tricolor"@);
    assert("SplatfestOpenRow"@ != "SplatfestTeam1SneakPeak"@);
    assert("SplatfestOpenRow"@ != "SplatfestTeam1Votes"@);
    assert("SplatfestOpenRow"@ != "SplatfestTeam1Open"@);
    assert("SplatfestOpenRow"@ != "SplatfestTeam1Pro"@);
    assert("SplatfestOpenRow"@ != "SplatfestTeam1Tricolor"@);
    assert("SplatfestOpenRow"@ != "SplatfestTeam2SneakPeak"@);
    assert("SplatfestOpenRow"@ != "SplatfestTeam2Votes"@);
    assert("SplatfestOpenRow"@ != "SplatfestTeam2Open"@);
    assert("SplatfestOpenRow"@ != "SplatfestTeam2Pro"@);
    assert("SplatfestOpenRow"@ != "SplatfestTeam2Tricolor"@);
    assert("SplatfestProRow"@ != "SplatfestTricolorRow"@);
    assert("SplatfestProRow"@ != "SplatfestTeam0SneakPeak"@);
    assert("SplatfestProRow"@ != "SplatfestTeam0Votes"@);
    assert("SplatfestProRow"@ != "SplatfestTeam0Open"@);
    assert("SplatfestProRow"@ != "SplatfestTeam0Pro"@);
    assert("SplatfestProRow"@ != "SplatfestTeam0Tricolor"@);
    assert("SplatfestProRow"@ != "SplatfestTeam1SneakPeak"@);
    assert("SplatfestProRow"@ != "SplatfestTeam1Votes"@);
    assert("SplatfestProRow"@ != "SplatfestTeam1Open"@);
    assert("SplatfestProRow"@ != "SplatfestTeam1Pro"@);
    assert("SplatfestProRow"@ != "SplatfestTeam1Tricolor"@);
    assert("SplatfestProRow"@ != "SplatfestTeam2SneakPeak"@);
    assert("SplatfestProRow"@ != "SplatfestTeam2Votes"@);
    assert("SplatfestProRow"@ != "SplatfestTeam2Open"@);
    assert("SplatfestProRow"@ != "SplatfestTeam2Pro"@);
    assert("SplatfestProRow"@ != "SplatfestTeam2Tricolor"@);
    assert("SplatfestTricolorRow"@ != "SplatfestTeam0SneakPeak"@);
    assert("SplatfestTricolorRow"@ != "SplatfestTeam0Votes"@);
    assert("SplatfestTricolorRow"@ != "SplatfestTeam0Open"@);
    assert("SplatfestTricolorRow"@ != "SplatfestTeam0Pro"@);
    assert("SplatfestTricolorRow"@ != "SplatfestTeam0Tricolor"@);
    assert("SplatfestTricolorRow"@ != "SplatfestTeam1SneakPeak"@);
    assert("SplatfestTricolorRow"@ != "SplatfestTeam1Votes"@);
    assert("SplatfestTricolorRow"@ != "SplatfestTeam1Open"@);
    assert("SplatfestTricolorRow"@ != "SplatfestTeam1Pro"@);
    assert("SplatfestTricolorRow"@ != "SplatfestTeam1Tricolor"@);
    assert("SplatfestTricolorRow"@ != "SplatfestTeam2SneakPeak"@);
    assert("SplatfestTricolorRow"@ != "SplatfestTeam2Votes"@);
    assert("SplatfestTricolorRow"@ != "SplatfestTeam2Open"@);
    assert("SplatfestTricolorRow"@ != "SplatfestTeam2Pro"@);
    assert("SplatfestTricolorRow"@ != "SplatfestTeam2Tricolor"@);
    assert("SplatfestTeam0SneakPeak"@ != "SplatfestTeam0Votes"@);
    assert("SplatfestTeam0SneakPeak"@ != "SplatfestTeam0Open"@);
    assert("SplatfestTeam0SneakPeak"@ != "SplatfestTeam0Pro"@);
    assert("SplatfestTeam0SneakPeak"@ != "SplatfestTeam0Tricolor"@);
    assert("SplatfestTeam0SneakPeak"@ != "SplatfestTeam1SneakPeak"@) by {
        assert("SplatfestTeam0SneakPeak"@[13] != "SplatfestTeam1SneakPeak"@[13]);
    }
    assert("SplatfestTeam0SneakPeak"@ != "SplatfestTeam1Votes"@);
    assert("SplatfestTeam0SneakPeak"@ != "SplatfestTeam1Open"@);
    assert("SplatfestTeam0SneakPeak"@ != "SplatfestTeam1Pro"@);
    assert("SplatfestTeam0SneakPeak"@ != "SplatfestTeam1Tricolor"@);
    assert("SplatfestTeam0SneakPeak"@ != "SplatfestTeam2SneakPeak"@) by {
        assert("SplatfestTeam0SneakPeak"@[13] != "SplatfestTeam2SneakPeak"@[13]);
    }
    assert("SplatfestTeam0SneakPeak"@ != "SplatfestTeam2Votes"@);
    assert("SplatfestTeam0SneakPeak"@ != "SplatfestTeam2Open"@);
    assert("SplatfestTeam0SneakPeak"@ != "SplatfestTeam2Pro"@);
    assert("SplatfestTeam0SneakPeak"@ != "SplatfestTeam2Tricolor"@);
    assert("SplatfestTeam0Votes"@ != "SplatfestTeam0Open"@);
    assert("SplatfestTeam0Votes"@ != "SplatfestTeam0Pro"@);
    assert("SplatfestTeam0Votes"@ != "SplatfestTeam0Tricolor"@);
    assert("SplatfestTeam0Votes"@ != "SplatfestTeam1SneakPeak"@);
    assert("SplatfestTeam0Votes"@ != "SplatfestTeam1Votes"@) by {
        assert("SplatfestTeam0Votes"@[13] != "SplatfestTeam1Votes"@[13]);
    }
    assert("SplatfestTeam0Votes"@ != "SplatfestTeam1Open"@);
    assert("SplatfestTeam0Votes"@ != "SplatfestTeam1Pro"@);
    assert("SplatfestTeam0Votes"@ != "SplatfestTeam1Tricolor"@);
    assert("SplatfestTeam0Votes"@ != "SplatfestTeam2SneakPeak"@);
    assert("SplatfestTeam0Votes"@ != "SplatfestTeam2Votes"@) by {
        assert("SplatfestTeam0Votes"@[13] != "SplatfestTeam2Votes"@[13]);
    }
    assert("SplatfestTeam0Votes"@ != "SplatfestTeam2Open"@);
    assert("SplatfestTeam0Votes"@ != "SplatfestTeam2Pro"@);
    assert("SplatfestTeam0Votes"@ != "SplatfestTeam2Tricolor"@);
    assert("SplatfestTeam0Open"@ != "SplatfestTeam0Pro"@);
    assert("SplatfestTeam0Open"@ != "SplatfestTeam0Tricolor"@);
    assert("SplatfestTeam0Open"@ != "SplatfestTeam1SneakPeak"@);
    assert("SplatfestTeam0Open"@ != "SplatfestTeam1Votes"@);
    assert("SplatfestTeam0Open"@ != "SplatfestTeam1Open"@) by {
        assert("SplatfestTeam0Open"@[13] != "SplatfestTeam1Open"@[13]);
    }
    assert("SplatfestTeam0Open"@ != "SplatfestTeam1Pro"@);
    assert("SplatfestTeam0Open"@ != "SplatfestTeam1Tricolor"@);
    assert("SplatfestTeam0Open"@ != "SplatfestTeam2SneakPeak"@);
    assert("SplatfestTeam0Open"@ != "SplatfestTeam2Votes"@);
    assert("SplatfestTeam0Open"@ != "SplatfestTeam2Open"@) by {
        assert("SplatfestTeam0Open"@[13] != "SplatfestTeam2Open"@[13]);
    }
    assert("SplatfestTeam0Open"@ != "SplatfestTeam2Pro"@);
    assert("SplatfestTeam0Open"@ != "SplatfestTeam2Tricolor"@);
    assert("SplatfestTeam0Pro"@ != "SplatfestTeam0Tricolor"@);
    assert("SplatfestTeam0Pro"@ != "SplatfestTeam1SneakPeak"@);
    assert("SplatfestTeam0Pro"@ != "SplatfestTeam1Votes"@);
    assert("SplatfestTeam0Pro"@ != "SplatfestTeam1Open"@);
    assert("SplatfestTeam0Pro"@ != "SplatfestTeam1Pro"@) by {
        assert("SplatfestTeam0Pro"@[13] != "SplatfestTeam1Pro"@[13]);
    }
    assert("SplatfestTeam0Pro"@ != "SplatfestTeam1Tricolor"@);
    assert("SplatfestTeam0Pro"@ != "SplatfestTeam2SneakPeak"@);
    assert("SplatfestTeam0Pro"@ != "SplatfestTeam2Votes"@);
    assert("SplatfestTeam0Pro"@ != "SplatfestTeam2Open"@);
    assert("SplatfestTeam0Pro"@ != "SplatfestTeam2Pro"@) by {
        assert("SplatfestTeam0Pro"@[13] != "SplatfestTeam2Pro"@[13]);
    }
    assert("SplatfestTeam0Pro"@ != "SplatfestTeam2Tricolor"@);
    assert("SplatfestTeam0Tricolor"@ != "SplatfestTeam1SneakPeak"@);
    assert("SplatfestTeam0Tricolor"@ != "SplatfestTeam1Votes"@);
    assert("SplatfestTeam0Tricolor"@ != "SplatfestTeam1Open"@);
    assert("SplatfestTeam0Tricolor"@ != "SplatfestTeam1Pro"@);
    assert("SplatfestTeam0Tricolor"@ != "SplatfestTeam1Tricolor"@) by {
        assert("SplatfestTeam0Tricolor"@[13] != "SplatfestTeam1Tricolor"@[13]);
    }
    assert("SplatfestTeam0Tricolor"@ != "SplatfestTeam2SneakPeak"@);
    assert("SplatfestTeam0Tricolor"@ != "SplatfestTeam2Votes"@);
    assert("SplatfestTeam0Tricolor"@ != "SplatfestTeam2Open"@);
    assert("SplatfestTeam0Tricolor"@ != "SplatfestTeam2Pro"@);
    assert("SplatfestTeam0Tricolor"@ != "SplatfestTeam2Tricolor"@) by {
        assert("SplatfestTeam0Tricolor"@[13] != "SplatfestTeam2Tricolor"@[13]);
    }
    assert("SplatfestTeam1SneakPeak"@ != "SplatfestTeam1Votes"@);
    assert("SplatfestTeam1SneakPeak"@ != "SplatfestTeam1Open"@);
    assert("SplatfestTeam1SneakPeak"@ != "SplatfestTeam1Pro"@);
    assert("SplatfestTeam1SneakPeak"@ != "SplatfestTeam1Tricolor"@);
    assert("SplatfestTeam1SneakPeak"@ != "SplatfestTeam2SneakPeak"@) by {
        assert("SplatfestTeam1SneakPeak"@[13] != "SplatfestTeam2SneakPeak"@[13]);
    }
    assert("SplatfestTeam1SneakPeak"@ != "SplatfestTeam2Votes"@);
    assert("SplatfestTeam1SneakPeak"@ != "SplatfestTeam2Open"@);
    assert("SplatfestTeam1SneakPeak"@ != "SplatfestTeam2Pro"@);
    assert("SplatfestTeam1SneakPeak"@ != "SplatfestTeam2Tricolor"@);
    assert("SplatfestTeam1Votes"@ != "SplatfestTeam1Open"@);
    assert("SplatfestTeam1Votes"@ != "SplatfestTeam1Pro"@);
    assert("SplatfestTeam1Votes"@ != "SplatfestTeam1Tricolor"@);
    assert("SplatfestTeam1Votes"@ != "SplatfestTeam2SneakPeak"@);
    assert("SplatfestTeam1Votes"@ != "SplatfestTeam2Votes"@) by {
        assert("SplatfestTeam1Votes"@[13] != "SplatfestTeam2Votes"@[13]);
    }
    assert("SplatfestTeam1Votes"@ != "SplatfestTeam2Open"@);
    assert("SplatfestTeam1Votes"@ != "SplatfestTeam2Pro"@);
    assert("SplatfestTeam1Votes"@ != "SplatfestTeam2Tricolor"@);
    assert("SplatfestTeam1Open"@ != "SplatfestTeam1Pro"@);
    assert("SplatfestTeam1Open"@ != "SplatfestTeam1Tricolor"@);
    assert("SplatfestTeam1Open"@ != "SplatfestTeam2SneakPeak"@);
    assert("SplatfestTeam1Open"@ != "SplatfestTeam2Votes"@);
    assert("SplatfestTeam1Open"@ != "SplatfestTeam2Open"@) by {
        assert("SplatfestTeam1Open"@[13] != "SplatfestTeam2Open"@[13]);
    }
    assert("SplatfestTeam1Open"@ != "SplatfestTeam2Pro"@);
    assert("SplatfestTeam1Open"@ != "SplatfestTeam2Tricolor"@);
    assert("SplatfestTeam1Pro"@ != "SplatfestTeam1Tricolor"@);
    assert("SplatfestTeam1Pro"@ != "SplatfestTeam2SneakPeak"@);
    assert("SplatfestTeam1Pro"@ != "SplatfestTeam2Votes"@);
    assert("SplatfestTeam1Pro"@ != "SplatfestTeam2Open"@);
    assert("SplatfestTeam1Pro"@ != "SplatfestTeam2Pro"@) by {
        assert("SplatfestTeam1Pro"@[13] != "SplatfestTeam2Pro"@[13]);
    }
    assert("SplatfestTeam1Pro"@ != "SplatfestTeam2Tricolor"@);
    assert("SplatfestTeam1Tricolor"@ != "SplatfestTeam2SneakPeak"@);
    assert("SplatfestTeam1Tricolor"@ != "SplatfestTeam2Votes"@);
    assert("SplatfestTeam1Tricolor"@ != "SplatfestTeam2Open"@);
    assert("SplatfestTeam1Tricolor"@ != "SplatfestTeam2Pro"@);
    assert("SplatfestTeam1Tricolor"@ != "SplatfestTeam2Tricolor"@) by {
        assert("SplatfestTeam1Tricolor"@[13] != "SplatfestTeam2Tricolor"@[13]);
    }
    assert("SplatfestTeam2SneakPeak"@ != "SplatfestTeam2Votes"@);
    assert("SplatfestTeam2SneakPeak"@ != "SplatfestTeam2Open"@);
    assert("SplatfestTeam2SneakPeak"@ != "SplatfestTeam2Pro"@);
    assert("SplatfestTeam2SneakPeak"@ != "SplatfestTeam2Tricolor"@);
    assert("SplatfestTeam2Votes"@ != "SplatfestTeam2Open"@);
    assert("SplatfestTeam2Votes"@ != "SplatfestTeam2Pro"@);
    assert("SplatfestTeam2Votes"@ != "SplatfestTeam2Tricolor"@);
    assert("SplatfestTeam2Open"@ != "SplatfestTeam2Pro"@);
    assert("SplatfestTeam2Open"@ != "SplatfestTeam2Tricolor"@);
    assert("SplatfestTeam2Pro"@ != "SplatfestTeam2Tricolor"@);
}

/// No two objects of the splatfest card share a final name.
#[verifier::rlimit(100)]
#[verifier::spinoff_prover]
pub proof fn lemma_fest_card_names_distinct(
    s: Seq<RmObject>,
    at: int,
    f: crate::rm_structure::SplatfestV,
    i: int,
    j: int,
)
    requires
        spec_fest_card(s, at, f),
        0 <= i < j < spec_fest_objs(Some(f.state)),
    ensures
        s[at + i].name@ != s[at + j].name@,
{
    lemma_card_name_table(s, at, f);
    match f.state {
        SplatfestStateV::MissingTricolor => {
            lemma_card_names_distinct_missing(f, i, j);
        },
        SplatfestStateV::Active(_, _) => {
            lemma_card_names_distinct_active(f, i, j);
        },
        SplatfestStateV::Finished(_) => {
            lemma_card_names_distinct_finished(f, i, j);
        },
    }
}

/// The splatfest card at the graph's head survives anything appended
/// after it.
pub proof fn lemma_fest_card_preserved(
    t: Seq<RmObject>,
    s: Seq<RmObject>,
    f: crate::rm_structure::SplatfestV,
)
    requires
        spec_fest_card(s, 0, f),
        t.len() >= spec_fest_objs(Some(f.state)),
        forall|k: int| 0 <= k < spec_fest_objs(Some(f.state)) ==> #[trigger] t[k] == s[k],
    ensures
        spec_fest_card(t, 0, f),
{
    reveal(spec_fest_card);
    reveal(spec_timebar_at);
    assert(t[0] == s[0]);
    assert forall|t2: int| 0 <= t2 < 3 implies #[trigger] spec_card_team_at(t, 0, f, t2) by {
        assert(t[1 + 2 * t2] == s[1 + 2 * t2]);
        assert(t[2 + 2 * t2] == s[2 + 2 * t2]);
        assert(spec_card_team_at(s, 0, f, t2));
    }
    match f.state {
        SplatfestStateV::MissingTricolor => {
            assert(t[7] == s[7]);
            assert(t[8] == s[8]);
            assert(t[9] == s[9]);
            assert(t[10] == s[10]);
            assert(t[11] == s[11]);
        },
        SplatfestStateV::Active(_, _) => {
            assert(t[7] == s[7]);
            assert(t[8] == s[8]);
            assert(t[9] == s[9]);
            assert(t[10] == s[10]);
            assert(t[11] == s[11]);
            assert(t[12] == s[12]);
            assert(t[13] == s[13]);
            assert(t[14] == s[14]);
            assert(t[15] == s[15]);
        },
        SplatfestStateV::Finished(results) => {
            assert(t[7] == s[7]);
            assert(t[8] == s[8]);
            assert forall|k: int| 0 <= k < 5 implies #[trigger] spec_card_row_at(t, 0, k) by {
                assert(t[9 + k] == s[9 + k]);
                assert(spec_card_row_at(s, 0, k));
            }
            assert forall|t2: int, k: int| 0 <= t2 < 3 && 0 <= k < 5 implies
                #[trigger] spec_card_col_at(t, 0, f, results, t2, k) by {
                assert(t[14 + 5 * t2 + k] == s[14 + 5 * t2 + k]);
                assert(spec_card_col_at(s, 0, f, results, t2, k));
            }
        },
    }
}

/// Appending one more rendered group keeps every previous group's block
/// and adds the new one at its start index.
#[verifier::rlimit(100)]
#[verifier::spinoff_prover]
proof fn lemma_structure_append_step(
    ret_new: Seq<RmObject>,
    ret_pre: Seq<RmObject>,
    objs_v: Seq<RmObject>,
    gsv: Seq<crate::rm_structure::ScheduleV>,
    i: int,
    fest_count: int,
    sel: Seq<char>,
    dy: int,
)
    requires
        0 <= i < gsv.len(),
        fest_count >= 0,
        ret_pre.len() == fest_count + spec_groups_objs(gsv.take(i)),
        objs_v.len() == 6 + spec_total_objs(gsv[i].events),
        ret_new == ret_pre + objs_v,
        forall|i2: int|
            0 <= i2 < i ==> spec_group_block(
                ret_pre,
                fest_count + spec_groups_objs(gsv.take(i2)),
                #[trigger] gsv[i2],
                gsv[i2].id == sel,
                dy,
            ),
        spec_group_block(objs_v, 0, gsv[i], gsv[i].id == sel, dy),
    ensures
        forall|i2: int|
            0 <= i2 < i + 1 ==> spec_group_block(
                ret_new,
                fest_count + spec_groups_objs(gsv.take(i2)),
                #[trigger] gsv[i2],
                gsv[i2].id == sel,
                dy,
            ),
{
    assert forall|i2: int| 0 <= i2 < i + 1 implies spec_group_block(
        ret_new,
        fest_count + spec_groups_objs(gsv.take(i2)),
        #[trigger] gsv[i2],
        gsv[i2].id == sel,
        dy,
    ) by {
        lemma_groups_objs_prefix(gsv, i2);
        lemma_groups_objs_prefix(gsv, i2 + 1);
        lemma_groups_objs_prefix(gsv, i);
        lemma_total_objs_nonneg(gsv[i2].events);
        if i2 < i {
            lemma_groups_objs_mono(gsv, i2 + 1, i);
            lemma_group_block_offset(
                ret_new,
                ret_pre,
                fest_count + spec_groups_objs(gsv.take(i2)),
                fest_count + spec_groups_objs(gsv.take(i2)),
                gsv[i2],
                gsv[i2].id == sel,
                dy,
            );
        } else {
            lemma_group_block_offset(
                ret_new,
                objs_v,
                fest_count + spec_groups_objs(gsv.take(i)),
                0,
                gsv[i],
                gsv[i].id == sel,
                dy,
            );
        }
    }
}

impl RmStructure {
    /// Render the whole structure: the splatfest card's objects first, then
    /// every group in order, each fully laid out at the same vertical
    /// shift — down 150 while a fest is pending or active, down 400 once it
    /// is finished, unshifted with no fest — and visible exactly when it is
    /// the resolved selection.
    #[verifier::rlimit(100)]
    #[verifier::spinoff_prover]
    #[verifier::loop_isolation(true)]
    pub fn to_rm(&self, selected: &str) -> (r: Vec<RmObject>)
        requires
            spec_structure_fits(self.deep_view()),
        ensures
            ({
                let st = match self.deep_view().splatfest {
                    Some(f) => Some(f.state),
                    None => None,
                };
                let gs = self.deep_view().schedules;
                let sel = crate::control::spec_resolved(gs, selected@);
                &&& r@.len() == spec_fest_objs(st) + spec_groups_objs(gs)
                &&& (self.deep_view().splatfest matches Some(f) ==> spec_fest_card(r@, 0, f))
                &&& forall|i: int|
                    0 <= i < gs.len() ==> spec_group_block(
                        r@,
                        spec_fest_objs(st) + spec_groups_objs(gs.take(i)),
                        #[trigger] gs[i],
                        gs[i].id == sel,
                        spec_fest_shift(st),
                    )
            }),
            spec_positions_bounded(r@, GRAPH_POS_LIMIT as int + 400),
    {
        let ghost gsv = self.deep_view().schedules;
        let ghost stv = match self.deep_view().splatfest {
            Some(f) => Some(f.state),
            None => None,
        };
        let sel = crate::control::resolve_selection(&self.schedules, selected);
        proof {
            assert(gsv == self.schedules.deep_view());
            assert(sel@ == crate::control::spec_resolved(gsv, selected@));
        }
        let dy: i64 = match &self.splatfest {
            None => 0,
            Some(sp) => match &sp.state {
                SplatfestState::Finished(_) => 400,
                _ => 150,
            },
        };
        proof {
            assert(dy as int == spec_fest_shift(stv));
        }
        let ghost fest_count = spec_fest_objs(stv);
        let mut ret: Vec<RmObject> = Vec::new();
        match &self.splatfest {
            Some(sp) => {
                let mut card = sp.to_rm();
                let ghost cardv = card@;
                ret.append(&mut card);
                proof {
                    assert(ret@ =~= cardv);
                    assert(spec_fest_card(ret@, 0, sp.deep_view()));
                }
            },
            None => {},
        }
        proof {
            assert(gsv.take(0) =~= Seq::<crate::rm_structure::ScheduleV>::empty());
        }
        let mut i: usize = 0;
        while i < self.schedules.len()
            invariant
                i <= self.schedules@.len(),
                spec_structure_fits(self.deep_view()),
                gsv == self.schedules.deep_view(),
                gsv == self.deep_view().schedules,
                gsv.len() == self.schedules@.len(),
                sel@ == crate::control::spec_resolved(gsv, selected@),
                0 <= dy <= 400,
                dy as int == spec_fest_shift(stv),
                fest_count == spec_fest_objs(stv),
                stv == (match self.deep_view().splatfest {
                    Some(f) => Some(f.state),
                    None => None,
                }),
                ret@.len() == fest_count + spec_groups_objs(gsv.take(i as int)),
                (self.deep_view().splatfest matches Some(f) ==> spec_fest_card(ret@, 0, f)),
                forall|i2: int|
                    0 <= i2 < i ==> spec_group_block(
                        ret@,
                        fest_count + spec_groups_objs(gsv.take(i2)),
                        #[trigger] gsv[i2],
                        gsv[i2].id == sel@,
                        dy as int,
                    ),
                spec_positions_bounded(ret@, GRAPH_POS_LIMIT as int + 400),
            decreases self.schedules@.len() - i,
        {
            let g = &self.schedules[i];
            let visible = g.id == sel;
            proof {
                assert(gsv[i as int] == self.schedules@[i as int].deep_view());
                assert(gsv[i as int].events == g.events.deep_view());
                assert(spec_group_fits(g.events.deep_view()));
                assert(visible == (gsv[i as int].id == sel@));
            }
            let objs = g.to_rm(visible, dy);
            let ghost objs_v = objs@;
            let ghost ret_pre = ret@;
            let mut objs_m = objs;
            ret.append(&mut objs_m);
            proof {
                lemma_total_objs_nonneg(gsv[i as int].events);
                lemma_groups_objs_prefix(gsv, i as int);
                lemma_groups_objs_prefix(gsv, i as int + 1);
                assert(spec_group_block(objs_v, 0, gsv[i as int], visible, dy as int)) by {
                    reveal(spec_group_block);
                }
                lemma_structure_append_step(
                    ret@,
                    ret_pre,
                    objs_v,
                    gsv,
                    i as int,
                    fest_count,
                    sel@,
                    dy as int,
                );
                match self.deep_view().splatfest {
                    Some(f) => {
                        assert(stv == Some(f.state));
                        lemma_groups_objs_nonneg(gsv.take(i as int));
                        lemma_fest_card_preserved(ret@, ret_pre, f);
                    },
                    None => {},
                }
                assert(gsv.take(i as int + 1).drop_last() =~= gsv.take(i as int));
                assert(gsv.take(i as int + 1).last() == gsv[i as int]);
            }
            i = i + 1;
        }
        proof {
            assert(gsv.take(gsv.len() as int) =~= gsv);
        }
        ret
    }
}

} // verus!
