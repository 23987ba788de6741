//! The display and battery reports.

use vstd::prelude::*;
use crate::device::{command2, property_command};
use crate::number::{parse_i32, parse_i32_spec};
use crate::text::{
    chars_of, copy_range, first_some, lemma_first_some_step, lemma_first_some_whole, lines,
    opt_text, owned, piece_after, piece_after_exec, prefix_before, prefix_before_exec, push_str,
    same_chars, split_lines, starts_with, starts_with_exec, string_of, string_views, trim,
    trimmed, views,
};

verus! {

/// The display report; each field is absent when it could not be read.
pub struct DisplayInfo {
    pub resolution: Option<String>,
    pub density: Option<String>,
    pub physical_size: Option<String>,
    pub refresh_rate: Option<String>,
    pub orientation: Option<String>,
}

/// Which fact of a status dump a line is scanned for.
#[derive(Clone, Copy, PartialEq, Eq, Structural)]
pub enum DisplayFact {
    /// The trimmed text after `Physical size:`.
    Resolution,
    /// The trimmed text after `Physical density:`.
    Density,
    /// The text after `refreshRate=`, up to the next comma, trimmed, in Hz.
    RefreshRate,
    /// The orientation code after `SurfaceOrientation:`, by name.
    Orientation,
}

pub open spec fn fact_label(f: DisplayFact) -> Seq<char> {
    match f {
        DisplayFact::Resolution => "Physical size:"@,
        DisplayFact::Density => "Physical density:"@,
        DisplayFact::RefreshRate => "refreshRate="@,
        DisplayFact::Orientation => "SurfaceOrientation:"@,
    }
}

/// The name of an orientation code; an unknown code stands for itself.
pub open spec fn orientation_name(code: Seq<char>) -> Seq<char> {
    if code == "0"@ {
        "Portrait"@
    } else if code == "1"@ {
        "Landscape"@
    } else if code == "2"@ {
        "Reverse Portrait"@
    } else if code == "3"@ {
        "Reverse Landscape"@
    } else {
        code
    }
}

/// What a line gives for `f`: the text after the first occurrence of its label.
pub open spec fn fact_line(line: Seq<char>, f: DisplayFact) -> Option<Seq<char>> {
    match piece_after(line, fact_label(f)) {
        Some(p) => Some(
            match f {
                DisplayFact::RefreshRate => trim(prefix_before(p, ',')) + " Hz"@,
                DisplayFact::Orientation => orientation_name(trim(p)),
                _ => trim(p),
            },
        ),
        None => None,
    }
}

pub open spec fn fact_rule(f: DisplayFact) -> spec_fn(Seq<char>) -> Option<Seq<char>> {
    |l: Seq<char>| fact_line(l, f)
}

/// The name of the orientation code `code`.
pub fn orientation_label(code: &Vec<char>) -> (r: String)
    ensures
        r@ == orientation_name(code@),
{
    if same_chars(code, &chars_of("0")) {
        owned("Portrait")
    } else if same_chars(code, &chars_of("1")) {
        owned("Landscape")
    } else if same_chars(code, &chars_of("2")) {
        owned("Reverse Portrait")
    } else if same_chars(code, &chars_of("3")) {
        owned("Reverse Landscape")
    } else {
        string_of(code)
    }
}

fn label_of(f: DisplayFact) -> (r: Vec<char>)
    ensures
        r@ == fact_label(f),
{
    match f {
        DisplayFact::Resolution => chars_of("Physical size:"),
        DisplayFact::Density => chars_of("Physical density:"),
        DisplayFact::RefreshRate => chars_of("refreshRate="),
        DisplayFact::Orientation => chars_of("SurfaceOrientation:"),
    }
}

/// What the status dump `text` gives for `f`, from the first line that holds
/// its label.
pub fn parse_display_fact(text: &str, f: DisplayFact) -> (r: Option<String>)
    ensures
        opt_text(r) == first_some(lines(text@), fact_rule(f)),
{
    let ls = split_lines(&chars_of(text));
    let label = label_of(f);
    let mut k: usize = 0;
    proof {
        lemma_first_some_whole(views(ls@), fact_rule(f));
    }
    while k < ls.len()
        invariant
            k <= ls@.len(),
            views(ls@) == lines(text@),
            label@ == fact_label(f),
            first_some(lines(text@), fact_rule(f)) == first_some(
                views(ls@).subrange(k as int, ls@.len() as int),
                fact_rule(f),
            ),
        decreases ls@.len() - k,
    {
        proof {
            lemma_first_some_step(views(ls@), fact_rule(f), k as int);
        }
        let line = &ls[k];
        assert(views(ls@)[k as int] == line@);
        assert((fact_rule(f))(line@) == fact_line(line@, f));
        match piece_after_exec(line, &label) {
            Some(p) => {
                let value = match f {
                    DisplayFact::RefreshRate => {
                        let mut s = string_of(&trimmed(&prefix_before_exec(&p, ',')));
                        push_str(&mut s, " Hz");
                        s
                    },
                    DisplayFact::Orientation => orientation_label(&trimmed(&p)),
                    _ => string_of(&trimmed(&p)),
                };
                return Some(value);
            },
            None => {},
        }
        k += 1;
    }
    proof {
        lemma_first_some_whole(views(ls@), fact_rule(f));
    }
    None
}

/// The commands the display report reads, in order: the screen size, the
/// density, the density property, the display dump and the input dump.
pub fn display_commands() -> (r: Vec<Vec<String>>)
    ensures
        r@.len() == 5,
        string_views(r@[0]@) == seq!["wm"@, "size"@],
        string_views(r@[1]@) == seq!["wm"@, "density"@],
        string_views(r@[2]@) == seq!["getprop"@, "ro.sf.lcd_density"@],
        string_views(r@[3]@) == seq!["dumpsys"@, "display"@],
        string_views(r@[4]@) == seq!["dumpsys"@, "input"@],
{
    let mut r: Vec<Vec<String>> = Vec::new();
    r.push(command2("wm", "size"));
    r.push(command2("wm", "density"));
    r.push(property_command("ro.sf.lcd_density"));
    r.push(command2("dumpsys", "display"));
    r.push(command2("dumpsys", "input"));
    r
}

pub open spec fn fact_of(o: Option<String>, f: DisplayFact) -> Option<Seq<char>> {
    match opt_text(o) {
        Some(t) => first_some(lines(t), fact_rule(f)),
        None => None,
    }
}

fn fact_from(o: &Option<String>, f: DisplayFact) -> (r: Option<String>)
    ensures
        opt_text(r) == fact_of(*o, f),
{
    match o {
        Some(t) => parse_display_fact(t.as_str(), f),
        None => None,
    }
}

/// The display report from the outputs of `display_commands`, in the same order.
pub fn get_display_info(outputs: &Vec<Option<String>>) -> (r: DisplayInfo)
    requires
        outputs@.len() == 5,
    ensures
        opt_text(r.resolution) == fact_of(outputs@[0], DisplayFact::Resolution),
        opt_text(r.density) == fact_of(outputs@[1], DisplayFact::Density),
        opt_text(r.physical_size) == match opt_text(outputs@[2]) {
            Some(d) => Some(d + " dpi"@),
            None => None,
        },
        opt_text(r.refresh_rate) == fact_of(outputs@[3], DisplayFact::RefreshRate),
        opt_text(r.orientation) == fact_of(outputs@[4], DisplayFact::Orientation),
{
    let physical_size = match &outputs[2] {
        Some(d) => {
            let mut s = owned(d.as_str());
            push_str(&mut s, " dpi");
            Some(s)
        },
        None => None,
    };
    DisplayInfo {
        resolution: fact_from(&outputs[0], DisplayFact::Resolution),
        density: fact_from(&outputs[1], DisplayFact::Density),
        physical_size,
        refresh_rate: fact_from(&outputs[3], DisplayFact::RefreshRate),
        orientation: fact_from(&outputs[4], DisplayFact::Orientation),
    }
}

/// The battery report. The temperature is kept in tenths of a degree, as the
/// device reports it.
pub struct BatteryInfo {
    pub level: Option<i32>,
    pub status: Option<String>,
    pub health: Option<String>,
    pub temperature_tenths: Option<i32>,
    pub voltage: Option<i32>,
    pub technology: Option<String>,
}

pub struct BatteryView {
    pub level: Option<int>,
    pub status: Option<Seq<char>>,
    pub health: Option<Seq<char>>,
    pub temperature_tenths: Option<int>,
    pub voltage: Option<int>,
    pub technology: Option<Seq<char>>,
}

pub open spec fn opt_i32(o: Option<i32>) -> Option<int> {
    match o {
        Some(n) => Some(n as int),
        None => None,
    }
}

impl View for BatteryInfo {
    type V = BatteryView;

    open spec fn view(&self) -> BatteryView {
        BatteryView {
            level: opt_i32(self.level),
            status: opt_text(self.status),
            health: opt_text(self.health),
            temperature_tenths: opt_i32(self.temperature_tenths),
            voltage: opt_i32(self.voltage),
            technology: opt_text(self.technology),
        }
    }
}

/// `line` after its prefix `p`.
pub open spec fn after_prefix(line: Seq<char>, p: Seq<char>) -> Seq<char> {
    line.subrange(p.len() as int, line.len() as int)
}

/// A number after prefix `p`, or the field left as it was.
pub open spec fn number_or(line: Seq<char>, p: Seq<char>, old: Option<int>) -> Option<int> {
    match parse_i32_spec(after_prefix(line, p)) {
        Some(n) => Some(n),
        None => old,
    }
}

/// What one raw line of the battery dump does to the report: the first of
/// the known prefixes that the trimmed line starts with sets its field; a
/// later line overrides an earlier one.
pub open spec fn battery_step(st: BatteryView, raw: Seq<char>) -> BatteryView {
    let line = trim(raw);
    if starts_with(line, "level: "@) {
        BatteryView { level: number_or(line, "level: "@, st.level), ..st }
    } else if starts_with(line, "status: "@) {
        BatteryView { status: Some(after_prefix(line, "status: "@)), ..st }
    } else if starts_with(line, "health: "@) {
        BatteryView { health: Some(after_prefix(line, "health: "@)), ..st }
    } else if starts_with(line, "temperature: "@) {
        BatteryView {
            temperature_tenths: number_or(line, "temperature: "@, st.temperature_tenths),
            ..st
        }
    } else if starts_with(line, "voltage: "@) {
        BatteryView { voltage: number_or(line, "voltage: "@, st.voltage), ..st }
    } else if starts_with(line, "technology: "@) {
        BatteryView { technology: Some(after_prefix(line, "technology: "@)), ..st }
    } else {
        st
    }
}

pub open spec fn empty_battery() -> BatteryView {
    BatteryView {
        level: None,
        status: None,
        health: None,
        temperature_tenths: None,
        voltage: None,
        technology: None,
    }
}

pub open spec fn battery_of_lines(ls: Seq<Seq<char>>) -> BatteryView
    decreases ls.len(),
{
    if ls.len() == 0 {
        empty_battery()
    } else {
        battery_step(battery_of_lines(ls.drop_last()), ls.last())
    }
}

fn starts(line: &Vec<char>, p: &str) -> (r: Option<Vec<char>>)
    ensures
        r is Some <==> starts_with(line@, p@),
        r matches Some(rest) ==> rest@ == after_prefix(line@, p@),
{
    let pv = chars_of(p);
    if starts_with_exec(line, &pv) {
        Some(copy_range(line, pv.len(), line.len()))
    } else {
        None
    }
}

fn number_after(rest: &Vec<char>, old: Option<i32>) -> (r: Option<i32>)
    ensures
        opt_i32(r) == match parse_i32_spec(rest@) {
            Some(n) => Some(n),
            None => opt_i32(old),
        },
{
    match parse_i32(rest) {
        Some(n) => Some(n),
        None => old,
    }
}

/// The battery report that the battery dump `text` gives.
pub fn parse_battery(text: &str) -> (r: BatteryInfo)
    ensures
        r@ == battery_of_lines(lines(text@)),
{
    let ls = split_lines(&chars_of(text));
    let mut b = BatteryInfo {
        level: None,
        status: None,
        health: None,
        temperature_tenths: None,
        voltage: None,
        technology: None,
    };
    let mut k: usize = 0;
    assert(views(ls@).subrange(0, 0) =~= seq![]);
    while k < ls.len()
        invariant
            k <= ls@.len(),
            views(ls@) == lines(text@),
            b@ == battery_of_lines(views(ls@).subrange(0, k as int)),
        decreases ls@.len() - k,
    {
        let ghost next = views(ls@).subrange(0, k + 1);
        assert(next.drop_last() =~= views(ls@).subrange(0, k as int));
        assert(next.last() == ls@[k as int]@);
        let line = trimmed(&ls[k]);
        if let Some(rest) = starts(&line, "level: ") {
            b.level = number_after(&rest, b.level);
        } else if let Some(rest) = starts(&line, "status: ") {
            b.status = Some(string_of(&rest));
        } else if let Some(rest) = starts(&line, "health: ") {
            b.health = Some(string_of(&rest));
        } else if let Some(rest) = starts(&line, "temperature: ") {
            b.temperature_tenths = number_after(&rest, b.temperature_tenths);
        } else if let Some(rest) = starts(&line, "voltage: ") {
            b.voltage = number_after(&rest, b.voltage);
        } else if let Some(rest) = starts(&line, "technology: ") {
            b.technology = Some(string_of(&rest));
        }
        k += 1;
    }
    assert(views(ls@).subrange(0, ls@.len() as int) =~= views(ls@));
    b
}

/// `["dumpsys", "battery"]`.
pub fn battery_command() -> (r: Vec<String>)
    ensures
        string_views(r@) == seq!["dumpsys"@, "battery"@],
{
    command2("dumpsys", "battery")
}

/// The battery report from the output of `battery_command`: absent as a whole
/// when the command failed, which is not the same as a report whose fields
/// are all absent.
pub fn get_battery_info(output: &Option<String>) -> (r: Option<BatteryInfo>)
    ensures
        match opt_text(*output) {
            Some(t) => r matches Some(b) && b@ == battery_of_lines(lines(t)),
            None => r is None,
        },
{
    match output {
        Some(t) => Some(parse_battery(t.as_str())),
        None => None,
    }
}

} // verus!
