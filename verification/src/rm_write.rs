//! The emitted object graph: positioned, named visual primitives (meters)
//! and host measures, together with the option records the renderer reads.
//! The layout engine produces values of these types; an outer layer turns
//! them into the host's text format.

use vstd::prelude::*;

verus! {

#[derive(Clone, Copy, Debug, PartialEq, Eq, Structural)]
pub struct Coord {
    pub x: i64,
    pub y: i64,
}

impl Coord {
    pub fn at(x: i64, y: i64) -> (r: Coord)
        ensures
            r == (Coord { x, y }),
    {
        Coord { x, y }
    }
}

/// An RGBA color with 0–255 channels, as the renderer takes it.
#[derive(Clone, Copy, Debug, PartialEq, Eq, Structural)]
pub struct Color {
    pub r: i64,
    pub g: i64,
    pub b: i64,
    pub a: i64,
}

impl Color {
    pub fn rgba(r: i64, g: i64, b: i64, a: i64) -> (c: Color)
        ensures
            c == (Color { r, g, b, a }),
    {
        Color { r, g, b, a }
    }
}

#[derive(Clone, Debug, PartialEq)]
pub struct ToolTip {
    tool_tip_text: String,
}

impl ToolTip {
    pub closed spec fn spec_text(self) -> Seq<char> {
        self.tool_tip_text@
    }

    pub fn new(tool_tip_text: String) -> (r: ToolTip)
        ensures
            r.spec_text() == tool_tip_text@,
    {
        ToolTip { tool_tip_text }
    }

    /// The tooltip's text, for the renderer.
    pub fn text(&self) -> (r: &String)
        ensures
            r@ == self.spec_text(),
    {
        &self.tool_tip_text
    }
}

#[derive(Clone, Debug, PartialEq)]
pub struct MeasureOptions {
    pub on_change_action: Vec<String>,
    pub dynamic_variables: bool,
}

impl Default for MeasureOptions {
    fn default() -> (r: MeasureOptions)
        ensures
            r.on_change_action@.len() == 0,
            !r.dynamic_variables,
    {
        MeasureOptions { on_change_action: Vec::new(), dynamic_variables: false }
    }
}

#[derive(Clone, Copy, Debug, PartialEq, Eq, Structural)]
pub struct TimeBarOptions {
    pub start_time: i64,
    pub end_time: i64,
}

#[derive(Clone, Debug, PartialEq)]
pub enum SplatinkType {
    /// The schedule-driving plugin core; holds the selected group id.
    Core(String),
    /// A progress bar between two timestamps.
    TimeBar(TimeBarOptions),
}

#[derive(Clone, Debug, PartialEq)]
pub enum PluginType {
    Splatink(SplatinkType),
}

#[derive(Clone, Debug, PartialEq)]
pub enum MeasureType {
    Plugin(PluginType),
    String(String),
}

#[derive(Clone, Copy, Debug, PartialEq, Eq, Structural)]
pub enum StringAlign {
    CenterCenter,
}

#[derive(Clone, Debug, PartialEq)]
pub struct ImageOptions {
    pub image_name: String,
    pub preseve_aspect_ratio: bool,
}

#[derive(Clone, Debug, PartialEq)]
pub struct StringOptions {
    pub text: String,
    pub string_align: Option<StringAlign>,
    pub font_color: Option<Color>,
    /// Point size; whole points suffice for this display.
    pub font_size: Option<u64>,
    pub font_weight: Option<usize>,
    pub clip_string: Option<usize>,
    pub clip_string_w: Option<usize>,
    pub anti_alias: bool,
}

impl Default for StringOptions {
    fn default() -> (r: StringOptions)
        ensures
            r.text@.len() == 0,
            r.string_align == Some(StringAlign::CenterCenter),
            r.font_color == Some(Color { r: 255, g: 255, b: 255, a: 255 }),
            r.font_size == Some(12u64),
            r.font_weight == Some(800usize),
            r.clip_string == Some(2usize),
            r.clip_string_w is None,
            r.anti_alias,
    {
        StringOptions {
            text: String::new(),
            string_align: Some(StringAlign::CenterCenter),
            font_color: Some(Color { r: 255, g: 255, b: 255, a: 255 }),
            font_size: Some(12),
            font_weight: Some(800),
            clip_string: Some(2),
            clip_string_w: None,
            anti_alias: true,
        }
    }
}

#[derive(Clone, Copy, Debug, PartialEq, Eq, Structural)]
pub enum BarOrientation {
    Vertical,
    Horizontal,
}

#[derive(Clone, Copy, Debug, PartialEq, Eq, Structural)]
pub struct BarOptions {
    pub bar_color: Color,
    pub bar_orientation: BarOrientation,
}

#[derive(Clone, Debug, PartialEq)]
pub enum MeterType {
    Image(ImageOptions),
    String(StringOptions),
    Bar(BarOptions),
}

#[derive(Clone, Debug, PartialEq)]
pub struct MeterOptions {
    pub pos: Coord,
    pub size: Coord,
    pub solid_color: Option<Color>,
    pub measure_name: Option<String>,
    pub groups: Vec<String>,
    pub left_click_action: Vec<String>,
    pub right_click_action: Vec<String>,
    pub scroll_down_action: Vec<String>,
    pub scroll_up_action: Vec<String>,
    pub tool_tip: Option<ToolTip>,
    pub hidden: bool,
}

impl MeterOptions {
    pub fn new() -> (r: MeterOptions)
        ensures
            r.pos == (Coord { x: 0, y: 0 }),
            r.size == (Coord { x: 0, y: 0 }),
            r.solid_color is None,
            r.measure_name is None,
            r.groups@.len() == 0,
            r.left_click_action@.len() == 0,
            r.right_click_action@.len() == 0,
            r.scroll_down_action@.len() == 0,
            r.scroll_up_action@.len() == 0,
            r.tool_tip is None,
            !r.hidden,
    {
        MeterOptions {
            pos: Coord { x: 0, y: 0 },
            size: Coord { x: 0, y: 0 },
            solid_color: None,
            measure_name: None,
            groups: Vec::new(),
            left_click_action: Vec::new(),
            right_click_action: Vec::new(),
            scroll_down_action: Vec::new(),
            scroll_up_action: Vec::new(),
            tool_tip: None,
            hidden: false,
        }
    }
}

#[derive(Clone, Debug, PartialEq)]
pub enum ObjectType {
    Measure(MeasureType, MeasureOptions),
    Meter(MeterType, MeterOptions),
}

#[derive(Clone, Debug, PartialEq)]
pub struct RmObject {
    pub name: String,
    pub object_type: ObjectType,
}

/// The vertical extent one object contributes to stacking: the bottom edge
/// for most meters, but only the vertical center for center-anchored text,
/// and nothing at all for measures, which have no position.
pub open spec fn spec_extent(o: RmObject) -> int {
    match o.object_type {
        ObjectType::Meter(t, opts) => match t {
            MeterType::String(s) => if s.string_align == Some(StringAlign::CenterCenter) {
                opts.pos.y + opts.size.y / 2
            } else {
                opts.pos.y + opts.size.y
            },
            _ => opts.pos.y + opts.size.y as int,
        },
        ObjectType::Measure(_, _) => 0,
    }
}

/// The vertical position of a meter object; measures sit at 0.
pub open spec fn spec_y(o: RmObject) -> int {
    match o.object_type {
        ObjectType::Meter(_, opts) => opts.pos.y as int,
        ObjectType::Measure(_, _) => 0,
    }
}

impl RmObject {
    pub fn new(object_type: ObjectType) -> (r: RmObject)
        ensures
            r.name@.len() == 0,
            r.object_type == object_type,
    {
        RmObject { name: String::new(), object_type }
    }

    /// Compose this object's generated name (and any measure reference it
    /// holds) under one more enclosing component, outermost first.
    pub fn prefix_name_mut(&mut self, prefix: &str)
        ensures
            final(self).name@ == prefix@ + old(self).name@,
            spec_prefixed_type(final(self).object_type, old(self).object_type, prefix@),
    {
        let mut name = prefix.to_owned();
        name.append(self.name.as_str());
        self.name = name;
        let needs = match &self.object_type {
            ObjectType::Meter(_, o) => o.measure_name.is_some(),
            _ => false,
        };
        if needs {
            if let ObjectType::Meter(_, o) = &mut self.object_type {
                let prev = match &o.measure_name {
                    Some(n) => n.as_str(),
                    None => "",
                };
                let mut m = prefix.to_owned();
                m.append(prev);
                o.measure_name = Some(m);
            }
        }
    }

    /// `prefix_name_mut` on an owned object.
    pub fn prefix_name_owned(self, prefix: &str) -> (r: RmObject)
        ensures
            r.name@ == prefix@ + self.name@,
            spec_prefixed_type(r.object_type, self.object_type, prefix@),
    {
        let mut ret = self;
        ret.prefix_name_mut(prefix);
        ret
    }
}

/// What prefixing does to the object's options: a meter's measure reference
/// gains the same prefix; everything else is untouched.
pub open spec fn spec_prefixed_type(b: ObjectType, a: ObjectType, prefix: Seq<char>) -> bool {
    match a {
        ObjectType::Meter(t1, o1) => {
            &&& b matches ObjectType::Meter(t2, o2)
            &&& t2 == t1
            &&& o2 == (MeterOptions { measure_name: o2.measure_name, ..o1 })
            &&& match (o1.measure_name, o2.measure_name) {
                (Some(m1), Some(m2)) => m2@ == prefix + m1@,
                (None, None) => true,
                _ => false,
            }
        },
        ObjectType::Measure(_, _) => b == a,
    }
}

} // verus!
