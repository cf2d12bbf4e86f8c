//! The panel in which the user picks a source to share.

use vstd::prelude::*;
use vstd::string::*;

use crate::geometry::{at_least_one, half, middle};
use crate::screencast::{OutputMode, ScreencastSource, SourceView, capture_extent, extent_of};
use crate::text::{signed_decimal, to_signed_decimal};

verus! {

/// The types of sources, as the bits of a set of them.
pub const MONITOR: u32 = 1;

pub const WINDOW: u32 = 2;

pub const VIRTUAL: u32 = 4;

/// The measures of the panel, in pixels.
pub const PANEL_WIDTH: i32 = 720;

pub const ROW_HEIGHT: i32 = 54;

pub const PAD: i32 = 22;

/// The key symbols that the panel knows.
pub const KEY_TAB: u32 = 0xff09;

pub const KEY_RETURN: u32 = 0xff0d;

pub const KEY_ESCAPE: u32 = 0xff1b;

pub const KEY_LEFT: u32 = 0xff51;

pub const KEY_UP: u32 = 0xff52;

pub const KEY_RIGHT: u32 = 0xff53;

pub const KEY_DOWN: u32 = 0xff54;

pub const KEY_KP_ENTER: u32 = 0xff8d;

/// A source that can be picked.
pub struct SourceChoice {
    pub source: ScreencastSource,
    pub source_type: u32,
    pub width: u32,
    pub height: u32,
    pub label: String,
}

/// What a choice says.
pub struct ChoiceView {
    pub source: SourceView,
    pub source_type: u32,
    pub width: int,
    pub height: int,
    pub label: Seq<char>,
}

impl View for SourceChoice {
    type V = ChoiceView;

    open spec fn view(&self) -> ChoiceView {
        ChoiceView {
            source: self.source@,
            source_type: self.source_type,
            width: self.width as int,
            height: self.height as int,
            label: self.label@,
        }
    }
}

/// What a list of choices says.
pub open spec fn choice_views(list: Seq<SourceChoice>) -> Seq<ChoiceView> {
    list.map_values(|c: SourceChoice| c@)
}

/// A window that may be picked: its number, whether it is mapped and shown on an
/// output, its size there in pixels, and its title.
pub struct PickableWindow {
    pub number: u64,
    pub mapped: bool,
    pub on_output: bool,
    pub width: i64,
    pub height: i64,
    pub title: String,
}

/// The choice of an output.
pub open spec fn monitor_choice(name: Seq<char>, mode: (i32, i32)) -> ChoiceView {
    ChoiceView {
        source: SourceView::Output(name),
        source_type: MONITOR,
        width: at_least_one(mode.0 as int),
        height: at_least_one(mode.1 as int),
        label: "Monitor — "@ + name + " ("@ + signed_decimal(mode.0 as int) + "×"@
            + signed_decimal(mode.1 as int) + ")"@,
    }
}

/// The choices of those outputs that have a mode, in their order.
pub open spec fn monitor_choices(outputs: Seq<OutputMode>) -> Seq<ChoiceView>
    decreases outputs.len(),
{
    if outputs.len() == 0 {
        seq![]
    } else {
        let rest = monitor_choices(outputs.drop_last());
        match outputs.last().mode {
            Some(mode) => rest.push(monitor_choice(outputs.last().name@, mode)),
            None => rest,
        }
    }
}

/// The choice of a window.
pub open spec fn window_choice(w: PickableWindow) -> ChoiceView {
    ChoiceView {
        source: SourceView::Window(w.number),
        source_type: WINDOW,
        width: extent_of(w.width as int),
        height: extent_of(w.height as int),
        label: "Window — "@ + w.title@,
    }
}

/// The choices of those windows that are mapped and shown on an output, in their
/// order.
pub open spec fn window_choices(windows: Seq<PickableWindow>) -> Seq<ChoiceView>
    decreases windows.len(),
{
    if windows.len() == 0 {
        seq![]
    } else {
        let rest = window_choices(windows.drop_last());
        let w = windows.last();
        if w.mapped && w.on_output {
            rest.push(window_choice(w))
        } else {
            rest
        }
    }
}

/// The choice of a display of its own, which shows what this output shows.
pub open spec fn virtual_choice(name: Seq<char>, mode: (i32, i32)) -> ChoiceView {
    ChoiceView {
        source: SourceView::Output(name),
        source_type: VIRTUAL,
        width: at_least_one(mode.0 as int),
        height: at_least_one(mode.1 as int),
        label: "Virtual display — "@ + signed_decimal(mode.0 as int) + "×"@ + signed_decimal(
            mode.1 as int,
        ),
    }
}

/// All choices of the types asked for.
pub open spec fn all_choices(
    source_types: u32,
    outputs: Seq<OutputMode>,
    windows: Seq<PickableWindow>,
    name: Seq<char>,
    mode: (i32, i32),
) -> Seq<ChoiceView> {
    (if source_types & MONITOR != 0 {
        monitor_choices(outputs)
    } else {
        seq![]
    }) + (if source_types & WINDOW != 0 {
        window_choices(windows)
    } else {
        seq![]
    }) + (if source_types & VIRTUAL != 0 {
        seq![virtual_choice(name, mode)]
    } else {
        seq![]
    })
}

fn size_text(mode: (i32, i32)) -> (r: String)
    ensures
        r@ == signed_decimal(mode.0 as int) + "×"@ + signed_decimal(mode.1 as int),
{
    let mut out: String = to_signed_decimal(mode.0 as i64);
    out.append("×");
    let h: String = to_signed_decimal(mode.1 as i64);
    out.append(h.as_str());
    out
}

fn side(n: i32) -> (r: u32)
    ensures
        r == at_least_one(n as int),
{
    if n < 1 {
        1
    } else {
        n as u32
    }
}

fn push_monitors(out: &mut Vec<SourceChoice>, outputs: &Vec<OutputMode>)
    ensures
        choice_views(final(out)@) == choice_views(old(out)@) + monitor_choices(outputs@),
        final(out)@.len() <= old(out)@.len() + outputs@.len(),
{
    let ghost before = out@;
    let mut i: usize = 0;
    assert(outputs@.take(0) =~= seq![]);
    assert(choice_views(out@) =~= choice_views(before) + monitor_choices(outputs@.take(0)));
    while i < outputs.len()
        invariant
            i <= outputs@.len(),
            choice_views(out@) == choice_views(before) + monitor_choices(outputs@.take(i as int)),
            out@.len() <= before.len() + i,
        decreases outputs@.len() - i,
    {
        let output = &outputs[i];
        proof {
            let upto = outputs@.take(i + 1);
            assert(upto.drop_last() =~= outputs@.take(i as int));
            assert(upto.last() == *output);
        }
        if let Some(mode) = output.mode {
            let mut label: String = "Monitor — ".to_owned();
            label.append(output.name.as_str());
            label.append(" (");
            let size: String = size_text(mode);
            label.append(size.as_str());
            label.append(")");
            assert(label@ =~= monitor_choice(output.name@, mode).label);
            let choice = SourceChoice {
                source: ScreencastSource::Output(output.name.clone()),
                source_type: MONITOR,
                width: side(mode.0),
                height: side(mode.1),
                label,
            };
            let ghost said = choice@;
            let ghost held = out@;
            out.push(choice);
            assert(choice_views(out@) =~= choice_views(held).push(said));
            assert(choice_views(out@) =~= choice_views(before) + monitor_choices(
                outputs@.take(i + 1),
            ));
        }
        i += 1;
    }
    assert(outputs@.take(i as int) =~= outputs@);
}

fn push_windows(out: &mut Vec<SourceChoice>, windows: &Vec<PickableWindow>)
    ensures
        choice_views(final(out)@) == choice_views(old(out)@) + window_choices(windows@),
        final(out)@.len() <= old(out)@.len() + windows@.len(),
{
    let ghost before = out@;
    let mut i: usize = 0;
    assert(windows@.take(0) =~= seq![]);
    assert(choice_views(out@) =~= choice_views(before) + window_choices(windows@.take(0)));
    while i < windows.len()
        invariant
            i <= windows@.len(),
            choice_views(out@) == choice_views(before) + window_choices(windows@.take(i as int)),
            out@.len() <= before.len() + i,
        decreases windows@.len() - i,
    {
        let w = &windows[i];
        proof {
            let upto = windows@.take(i + 1);
            assert(upto.drop_last() =~= windows@.take(i as int));
            assert(upto.last() == *w);
        }
        if w.mapped && w.on_output {
            let mut label: String = "Window — ".to_owned();
            label.append(w.title.as_str());
            let choice = SourceChoice {
                source: ScreencastSource::Window(w.number),
                source_type: WINDOW,
                width: capture_extent(w.width),
                height: capture_extent(w.height),
                label,
            };
            let ghost said = choice@;
            let ghost held = out@;
            out.push(choice);
            assert(choice_views(out@) =~= choice_views(held).push(said));
            assert(choice_views(out@) =~= choice_views(before) + window_choices(
                windows@.take(i + 1),
            ));
        }
        i += 1;
    }
    assert(windows@.take(i as int) =~= windows@);
}

fn choices_of(
    source_types: u32,
    outputs: &Vec<OutputMode>,
    windows: &Vec<PickableWindow>,
    name: &String,
    mode: (i32, i32),
) -> (r: Vec<SourceChoice>)
    ensures
        choice_views(r@) == all_choices(source_types, outputs@, windows@, name@, mode),
        r@.len() <= outputs@.len() + windows@.len() + 1,
{
    let mut out: Vec<SourceChoice> = Vec::new();
    assert(choice_views(out@) =~= seq![]);
    if source_types & MONITOR != 0 {
        push_monitors(&mut out, outputs);
    }
    let ghost first = choice_views(out@);
    if source_types & WINDOW != 0 {
        push_windows(&mut out, windows);
    }
    let ghost second = choice_views(out@);
    if source_types & VIRTUAL != 0 {
        let mut label: String = "Virtual display — ".to_owned();
        let size: String = size_text(mode);
        label.append(size.as_str());
        assert(label@ =~= virtual_choice(name@, mode).label);
        let choice = SourceChoice {
            source: ScreencastSource::Output(name.clone()),
            source_type: VIRTUAL,
            width: side(mode.0),
            height: side(mode.1),
            label,
        };
        let ghost said = choice@;
        let ghost held = out@;
        out.push(choice);
        assert(choice_views(out@) =~= choice_views(held).push(said));
    }
    assert(choice_views(out@) =~= all_choices(source_types, outputs@, windows@, name@, mode));
    out
}

/// The lesser of two numbers.
pub open spec fn lesser(a: int, b: int) -> int {
    if a < b {
        a
    } else {
        b
    }
}

/// The size of a panel with so many choices on an output of this size: wide enough
/// where the output is, and no higher than it.
pub open spec fn panel_size(output: (i32, i32), count: int) -> (int, int) {
    (
        lesser(PANEL_WIDTH as int, at_least_one(output.0 as int)),
        lesser(PAD * 2 + ROW_HEIGHT * (count + 1), at_least_one(output.1 as int)),
    )
}

/// So many choices can be laid out.
pub open spec fn countable(count: int) -> bool {
    PAD * 2 + ROW_HEIGHT * (count + 1) <= i32::MAX
}

/// A panel that is open, for the request of this number.
pub struct SourcePicker {
    pub request: u64,
    pub output_name: String,
    pub choices: Vec<SourceChoice>,
    pub selected: usize,
    pub location: (i32, i32),
    pub size: (i32, i32),
}

impl SourcePicker {
    /// There is a choice, and one is selected.
    pub open spec fn wf(&self) -> bool {
        &&& self.selected < self.choices@.len()
        &&& self.size.0 >= 1
        &&& self.size.1 >= 1
    }

    /// A panel in the middle of its output, with the first choice selected.
    pub fn new(
        request: u64,
        output_name: String,
        output_size: (i32, i32),
        choices: Vec<SourceChoice>,
    ) -> (r: Self)
        requires
            output_size.0 > i32::MIN,
            output_size.1 > i32::MIN,
            choices@.len() > 0,
            countable(choices@.len() as int),
        ensures
            r.wf(),
            r.request == request,
            r.output_name@ == output_name@,
            r.choices@ == choices@,
            r.selected == 0,
            ({
                let size = panel_size(output_size, choices@.len() as int);
                &&& r.size.0 == size.0
                &&& r.size.1 == size.1
                &&& r.location.0 == half(output_size.0 - size.0)
                &&& r.location.1 == half(output_size.1 - size.1)
            }),
    {
        let rows: i32 = choices.len() as i32 + 1;
        let wanted: i32 = PAD * 2 + ROW_HEIGHT * rows;
        let (ow, oh): (i32, i32) = output_size;
        let room_w: i32 = if ow < 1 {
            1
        } else {
            ow
        };
        let room_h: i32 = if oh < 1 {
            1
        } else {
            oh
        };
        let height: i32 = if wanted < room_h {
            wanted
        } else {
            room_h
        };
        let width: i32 = if PANEL_WIDTH < room_w {
            PANEL_WIDTH
        } else {
            room_w
        };
        let location = (middle(ow, width), middle(oh, height));
        SourcePicker {
            request,
            output_name,
            choices,
            selected: 0,
            location,
            size: (width, height),
        }
    }

    pub fn output_name(&self) -> (r: &str)
        ensures
            r@ == self.output_name@,
    {
        self.output_name.as_str()
    }

    /// Moves the selection by so many choices, round the ends of the list.
    pub fn move_selection(&mut self, delta: isize)
        requires
            old(self).wf(),
        ensures
            final(self).wf(),
            final(self).selected == moved(
                old(self).selected as int,
                delta as int,
                old(self).choices@.len() as int,
            ),
            final(self).choices == old(self).choices,
            final(self).request == old(self).request,
            final(self).output_name == old(self).output_name,
            final(self).location == old(self).location,
            final(self).size == old(self).size,
    {
        let n: u128 = self.choices.len() as u128;
        let s: u128 = self.selected as u128;
        let next: u128 = if delta >= 0 {
            (s + delta as u128) % n
        } else {
            let back: u128 = (-(delta as i128)) as u128;
            let d: u128 = back % n;
            proof {
                lemma_back(s as int, back as int, n as int);
            }
            (s + n - d) % n
        };
        self.selected = next as usize;
    }

    /// What the panel answers: the selected choice where the user accepted, nothing
    /// where not.
    pub fn complete(self, accepted: bool) -> (r: Option<SourceChoice>)
        requires
            self.wf(),
        ensures
            r == if accepted {
                Some(self.choices@[self.selected as int])
            } else {
                None
            },
    {
        let mut picker = self;
        if accepted {
            Some(picker.choices.remove(picker.selected))
        } else {
            None
        }
    }
}

/// Where a selection comes to that is moved round the ends of a list.
pub open spec fn moved(selected: int, delta: int, count: int) -> int {
    (selected + delta) % count
}

proof fn lemma_back(s: int, back: int, n: int)
    requires
        n > 0,
        0 <= s < n,
        back >= 0,
    ensures
        0 <= back % n < n,
        (s + n - back % n) % n == (s - back) % n,
{
    let q = back / n;
    let d = back % n;
    vstd::arithmetic::div_mod::lemma_fundamental_div_mod(back, n);
    assert(s - back == n * (-(q + 1)) + (s + n - d)) by (nonlinear_arith)
        requires
            back == n * q + d,
    ;
    vstd::arithmetic::div_mod::lemma_mod_multiples_vanish(-(q + 1), s + n - d, n);
}

/// What became of a wish to pick a source.
pub struct PickOutcome {
    /// The request that is answered with nothing, since a new one took its place.
    pub cancelled: Option<u64>,
    /// The answer to the request, where it can be given at once.
    pub reply: Option<Option<SourceChoice>>,
    pub redraw: bool,
}

/// Nothing can be picked: the session is locked, there is no output to show the
/// panel on, or nothing to choose from.
pub open spec fn nothing_to_pick(
    locked: bool,
    ui: Option<OutputMode>,
    source_types: u32,
    outputs: Seq<OutputMode>,
    windows: Seq<PickableWindow>,
) -> bool {
    locked || ui is None || (ui->0).mode is None || all_choices(
        source_types,
        outputs,
        windows,
        (ui->0).name@,
        (ui->0).mode->0,
    ).len() == 0
}

/// Opens the panel, on the output `ui`. A panel that is open already is closed first.
/// Where there is nothing to pick, and where there is only one choice, the answer is
/// given without a panel.
pub fn open_picker(
    slot: &mut Option<SourcePicker>,
    request: u64,
    source_types: u32,
    locked: bool,
    ui: &Option<OutputMode>,
    outputs: &Vec<OutputMode>,
    windows: &Vec<PickableWindow>,
) -> (r: PickOutcome)
    requires
        countable((outputs@.len() + windows@.len() + 1) as int),
        *ui is Some && (ui->0).mode is Some ==> ((ui->0).mode->0).0 > i32::MIN && ((
        ui->0).mode->0).1 > i32::MIN,
    ensures
        r.cancelled == match *old(slot) {
            Some(picker) => Some(picker.request),
            None => None,
        },
        nothing_to_pick(locked, *ui, source_types, outputs@, windows@) ==> {
            &&& *final(slot) is None
            &&& r.reply is Some && r.reply->0 is None
            &&& !r.redraw
        },
        !nothing_to_pick(locked, *ui, source_types, outputs@, windows@) ==> {
            let mode = (ui->0).mode->0;
            let list = all_choices(source_types, outputs@, windows@, (ui->0).name@, mode);
            if list.len() == 1 {
                &&& *final(slot) is None
                &&& r.reply is Some && r.reply->0 is Some
                &&& (r.reply->0->0)@ == list[0]
                &&& !r.redraw
            } else {
                let size = panel_size(mode, list.len() as int);
                let picker = (*final(slot))->0;
                &&& *final(slot) is Some
                &&& picker.wf()
                &&& picker.request == request
                &&& picker.output_name@ == (ui->0).name@
                &&& choice_views(picker.choices@) == list
                &&& picker.selected == 0
                &&& picker.size.0 == size.0
                &&& picker.size.1 == size.1
                &&& picker.location.0 == half(mode.0 - size.0)
                &&& picker.location.1 == half(mode.1 - size.1)
                &&& r.reply is None
                &&& r.redraw
            }
        },
{
    let cancelled = match slot {
        Some(picker) => Some(picker.request),
        None => None,
    };
    *slot = None;
    if locked {
        return PickOutcome { cancelled, reply: Some(None), redraw: false };
    }
    if let Some(output) = ui {
        if let Some(mode) = output.mode {
            let mut choices = choices_of(source_types, outputs, windows, &output.name, mode);
            let ghost list = choice_views(choices@);
            if choices.len() == 1 {
                let choice = choices.pop();
                assert(choice is Some && (choice->0)@ == list[0]);
                return PickOutcome { cancelled, reply: Some(choice), redraw: false };
            }
            if choices.len() == 0 {
                return PickOutcome { cancelled, reply: Some(None), redraw: false };
            }
            *slot = Some(SourcePicker::new(request, output.name.clone(), mode, choices));
            return PickOutcome { cancelled, reply: None, redraw: true };
        }
    }
    PickOutcome { cancelled, reply: Some(None), redraw: false }
}

/// What the panel does with a key.
#[derive(Clone, Copy, Debug, PartialEq, Eq, Structural)]
pub enum PanelKey {
    Back,
    Forward,
    Accept,
    Cancel,
    Other,
}

/// What a key symbol means to the panel.
pub open spec fn panel_key(sym: u32) -> PanelKey {
    if sym == KEY_UP || sym == KEY_LEFT {
        PanelKey::Back
    } else if sym == KEY_DOWN || sym == KEY_RIGHT || sym == KEY_TAB {
        PanelKey::Forward
    } else if sym == KEY_RETURN || sym == KEY_KP_ENTER {
        PanelKey::Accept
    } else if sym == KEY_ESCAPE {
        PanelKey::Cancel
    } else {
        PanelKey::Other
    }
}

/// What became of a key.
pub struct KeyResult {
    /// The focused client does not see it.
    pub swallowed: bool,
    /// The request that is answered, and its answer.
    pub reply: Option<(u64, Option<SourceChoice>)>,
    pub redraw: bool,
}

fn key_meaning(sym: u32) -> (r: PanelKey)
    ensures
        r == panel_key(sym),
{
    if sym == KEY_UP || sym == KEY_LEFT {
        PanelKey::Back
    } else if sym == KEY_DOWN || sym == KEY_RIGHT || sym == KEY_TAB {
        PanelKey::Forward
    } else if sym == KEY_RETURN || sym == KEY_KP_ENTER {
        PanelKey::Accept
    } else if sym == KEY_ESCAPE {
        PanelKey::Cancel
    } else {
        PanelKey::Other
    }
}

/// Hands a key to the panel. While it is open no client sees a key: it moves the
/// selection, accepts it, cancels, or does nothing.
pub fn picker_key(slot: &mut Option<SourcePicker>, sym: u32) -> (r: KeyResult)
    requires
        *old(slot) is Some ==> (*old(slot))->0.wf(),
    ensures
        *final(slot) is Some ==> (*final(slot))->0.wf(),
        r.swallowed == (*old(slot) is Some),
        *old(slot) is None ==> *final(slot) is None && r.reply is None && !r.redraw,
        *old(slot) is Some ==> {
            let picker = (*old(slot))->0;
            let count = picker.choices@.len() as int;
            match panel_key(sym) {
                PanelKey::Back => {
                    &&& *final(slot) == Some(
                        SourcePicker {
                            selected: moved(picker.selected as int, -1, count) as usize,
                            ..picker
                        },
                    )
                    &&& r.reply is None
                    &&& r.redraw
                },
                PanelKey::Forward => {
                    &&& *final(slot) == Some(
                        SourcePicker {
                            selected: moved(picker.selected as int, 1, count) as usize,
                            ..picker
                        },
                    )
                    &&& r.reply is None
                    &&& r.redraw
                },
                PanelKey::Accept => {
                    &&& *final(slot) is None
                    &&& r.reply == Some(
                        (picker.request, Some(picker.choices@[picker.selected as int])),
                    )
                    &&& r.redraw
                },
                PanelKey::Cancel => {
                    &&& *final(slot) is None
                    &&& r.reply == Some((picker.request, None::<SourceChoice>))
                    &&& r.redraw
                },
                PanelKey::Other => *final(slot) == *old(slot) && r.reply is None && !r.redraw,
            }
        },
{
    match slot.take() {
        None => KeyResult { swallowed: false, reply: None, redraw: false },
        Some(picker) => {
            let mut picker = picker;
            match key_meaning(sym) {
                PanelKey::Back => {
                    picker.move_selection(-1);
                    *slot = Some(picker);
                    KeyResult { swallowed: true, reply: None, redraw: true }
                },
                PanelKey::Forward => {
                    picker.move_selection(1);
                    *slot = Some(picker);
                    KeyResult { swallowed: true, reply: None, redraw: true }
                },
                PanelKey::Accept => {
                    let request: u64 = picker.request;
                    let choice = picker.complete(true);
                    KeyResult { swallowed: true, reply: Some((request, choice)), redraw: true }
                },
                PanelKey::Cancel => {
                    let request: u64 = picker.request;
                    let choice = picker.complete(false);
                    KeyResult { swallowed: true, reply: Some((request, choice)), redraw: true }
                },
                PanelKey::Other => {
                    *slot = Some(picker);
                    KeyResult { swallowed: true, reply: None, redraw: false }
                },
            }
        },
    }
}

/// The rows that a panel of this height shows, at least one.
pub open spec fn visible_rows(height: int) -> int {
    at_least_one((height - PAD * 2) / (ROW_HEIGHT as int) - 1)
}

/// The first choice that is shown: the list is moved up just far enough to show the
/// selected one.
pub open spec fn first_shown(height: int, selected: int) -> int {
    if selected < visible_rows(height) {
        0
    } else {
        selected - (visible_rows(height) - 1)
    }
}

/// How many choices are shown.
pub open spec fn shown_count(height: int, count: int, selected: int) -> int {
    lesser(visible_rows(height), count - first_shown(height, selected))
}

/// A colour.
#[derive(Clone, Copy, Debug, PartialEq, Eq, Structural)]
pub struct Rgba {
    pub r: u8,
    pub g: u8,
    pub b: u8,
    pub a: u8,
}

/// A rectangle of the panel.
#[derive(Clone, Copy, Debug, PartialEq, Eq, Structural)]
pub struct PanelRect {
    pub x: i32,
    pub y: i32,
    pub w: i32,
    pub h: i32,
}

/// One step of painting the panel.
pub enum PanelOp {
    Fill { rect: PanelRect, color: Rgba },
    /// A line of text that starts at this point of its baseline.
    Text { text: String, x: i32, baseline: i32 },
}

/// The colours of the panel.
pub open spec fn background() -> Rgba {
    Rgba { r: 15, g: 18, b: 24, a: 245 }
}

pub open spec fn row_color(selected: bool) -> Rgba {
    if selected {
        Rgba { r: 38, g: 122, b: 150, a: 255 }
    } else {
        Rgba { r: 35, g: 39, b: 48, a: 255 }
    }
}

/// The top of a row.
pub open spec fn row_top(row: int) -> int {
    PAD + ROW_HEIGHT * (row + 1)
}

/// The step fills the row of a choice.
pub open spec fn fills_row(op: PanelOp, width: int, row: int, selected: bool) -> bool {
    op matches PanelOp::Fill { rect, color } && {
        &&& rect.x == PAD
        &&& rect.y == row_top(row)
        &&& rect.w == width - PAD * 2
        &&& rect.h == ROW_HEIGHT - 6
        &&& color == row_color(selected)
    }
}

/// The step writes this text there.
pub open spec fn writes(op: PanelOp, text: Seq<char>, x: int, baseline: int) -> bool {
    op matches PanelOp::Text { text: t, x: tx, baseline: tb } && t@ == text && tx == x && tb
        == baseline
}

/// How the panel is painted: its ground, its title, and a row for each choice that is
/// shown.
pub fn build_buffer(
    width: i32,
    height: i32,
    choices: &Vec<SourceChoice>,
    selected: usize,
) -> (r: Vec<PanelOp>)
    requires
        width >= 1,
        height >= 1,
        selected < choices@.len(),
    ensures
        ({
            let rows = shown_count(height as int, choices@.len() as int, selected as int);
            let first = first_shown(height as int, selected as int);
            &&& r@.len() == 2 + 2 * rows
            &&& r@[0] == (PanelOp::Fill {
                rect: PanelRect { x: 0, y: 0, w: width, h: height },
                color: background(),
            })
            &&& writes(r@[1], "Share a source"@, PAD as int, PAD + 22)
            &&& forall|k: int|
                0 <= k < rows ==> fills_row(
                    #[trigger] r@[2 + 2 * k],
                    width as int,
                    k,
                    first + k == selected,
                )
            &&& forall|k: int|
                0 <= k < rows ==> writes(
                    #[trigger] r@[3 + 2 * k],
                    choices@[first + k].label@,
                    PAD + 14,
                    row_top(k) + 31,
                )
        }),
{
    let mut out: Vec<PanelOp> = Vec::new();
    out.push(
        PanelOp::Fill {
            rect: PanelRect { x: 0, y: 0, w: width, h: height },
            color: Rgba { r: 15, g: 18, b: 24, a: 245 },
        },
    );
    out.push(PanelOp::Text { text: "Share a source".to_owned(), x: PAD, baseline: PAD + 22 });
    let inner: i32 = height - PAD * 2;
    let fitting: i32 = if inner >= 0 {
        inner / ROW_HEIGHT - 1
    } else {
        0
    };
    let visible: usize = if fitting < 1 {
        1
    } else {
        fitting as usize
    };
    assert(visible == visible_rows(height as int));
    let first: usize = if selected < visible {
        0
    } else {
        selected - (visible - 1)
    };
    let left: usize = choices.len() - first;
    let rows: usize = if visible < left {
        visible
    } else {
        left
    };
    let mut k: usize = 0;
    while k < rows
        invariant
            width >= 1,
            height >= 1,
            k <= rows,
            rows <= visible,
            visible == visible_rows(height as int),
            first + rows <= choices@.len(),
            choices@.len() <= usize::MAX,
            out@.len() == 2 + 2 * k,
            out@[0] == (PanelOp::Fill {
                rect: PanelRect { x: 0, y: 0, w: width, h: height },
                color: background(),
            }),
            writes(out@[1], "Share a source"@, PAD as int, PAD + 22),
            forall|j: int|
                0 <= j < k ==> fills_row(
                    #[trigger] out@[2 + 2 * j],
                    width as int,
                    j,
                    first + j == selected,
                ),
            forall|j: int|
                0 <= j < k ==> writes(
                    #[trigger] out@[3 + 2 * j],
                    choices@[first + j].label@,
                    PAD + 14,
                    row_top(j) + 31,
                ),
        decreases rows - k,
    {
        assert(54 * (k + 1) <= height + 108);
        let index: usize = first + k;
        let y: i32 = PAD + ROW_HEIGHT * (k as i32 + 1);
        let color = if index == selected {
            Rgba { r: 38, g: 122, b: 150, a: 255 }
        } else {
            Rgba { r: 35, g: 39, b: 48, a: 255 }
        };
        let ghost before = out@;
        out.push(
            PanelOp::Fill {
                rect: PanelRect { x: PAD, y, w: width - PAD * 2, h: ROW_HEIGHT - 6 },
                color,
            },
        );
        out.push(
            PanelOp::Text { text: choices[index].label.clone(), x: PAD + 14, baseline: y + 31 },
        );
        assert(forall|i: int| 0 <= i < before.len() ==> out@[i] == before[i]);
        k += 1;
    }
    out
}

/// The selected choice is always among those that are shown.
pub proof fn law_selection_is_shown(height: int, count: int, selected: int)
    requires
        0 <= selected < count,
    ensures
        0 <= first_shown(height, selected) <= selected,
        selected < first_shown(height, selected) + shown_count(height, count, selected),
{
}

/// A step forward and a step back, in either order, leave the selection where it was.
pub proof fn law_steps_cancel(selected: int, count: int)
    requires
        0 <= selected < count,
    ensures
        moved(moved(selected, 1, count), -1, count) == selected,
        moved(moved(selected, -1, count), 1, count) == selected,
{
    vstd::arithmetic::div_mod::lemma_small_mod(selected as nat, count as nat);
    if selected + 1 < count {
        vstd::arithmetic::div_mod::lemma_small_mod((selected + 1) as nat, count as nat);
    } else {
        vstd::arithmetic::div_mod::lemma_mod_self_0(count);
        vstd::arithmetic::div_mod::lemma_mod_multiples_vanish(-1, count - 1, count);
        vstd::arithmetic::div_mod::lemma_small_mod((count - 1) as nat, count as nat);
    }
    if selected > 0 {
        vstd::arithmetic::div_mod::lemma_small_mod((selected - 1) as nat, count as nat);
    } else {
        vstd::arithmetic::div_mod::lemma_mod_multiples_vanish(-1, count - 1, count);
        vstd::arithmetic::div_mod::lemma_small_mod((count - 1) as nat, count as nat);
        vstd::arithmetic::div_mod::lemma_mod_self_0(count);
    }
}

/// The pixel of the byte at `i`, in rows of `width` pixels, lies in these columns of
/// these rows.
pub open spec fn in_area(i: int, width: int, x0: int, x1: int, y0: int, y1: int) -> bool {
    let p = i / 4;
    y0 <= p / width < y1 && x0 <= p % width < x1
}

/// The byte of a colour, in the order in which a pixel holds them.
pub open spec fn channel(color: Rgba, c: int) -> u8 {
    if c == 0 {
        color.b
    } else if c == 1 {
        color.g
    } else if c == 2 {
        color.r
    } else {
        color.a
    }
}

/// The greater of two numbers.
pub open spec fn greater(a: int, b: int) -> int {
    if a > b {
        a
    } else {
        b
    }
}

/// The byte at `i` belongs to a pixel of the picture that the rectangle covers.
pub open spec fn covered(i: int, width: int, height: int, rect: PanelRect) -> bool {
    in_area(
        i,
        width,
        greater(rect.x as int, 0),
        lesser(rect.x + rect.w, width),
        greater(rect.y as int, 0),
        lesser(rect.y + rect.h, height),
    )
}

proof fn lemma_pixel(i: int, width: int, px: int, py: int)
    requires
        0 <= i,
        0 <= px < width,
    ensures
        (i / 4 == py * width + px) == (i / 4 / width == py && i / 4 % width == px),
{
    let p = i / 4;
    vstd::arithmetic::div_mod::lemma_fundamental_div_mod(p, width);
    assert(width * py == py * width) by (nonlinear_arith);
    if p == py * width + px {
        vstd::arithmetic::div_mod::lemma_fundamental_div_mod_converse(p, width, py, px);
    }
}

proof fn lemma_area(py: int, px: int, width: int, height: int)
    by (nonlinear_arith)
    requires
        0 <= px < width,
        0 <= py < height,
    ensures
        0 <= py * width + px < width * height,
        0 <= py * width <= width * height,
{
}

/// Fills a rectangle of a picture, as far as it lies in it.
pub fn fill_rect(pixels: &mut Vec<u8>, width: i32, height: i32, rect: PanelRect, color: Rgba)
    requires
        width >= 0,
        height >= 0,
        width * height * 4 <= i32::MAX,
        width * height * 4 <= old(pixels)@.len(),
        i32::MIN <= rect.x + rect.w <= i32::MAX,
        i32::MIN <= rect.y + rect.h <= i32::MAX,
    ensures
        final(pixels)@.len() == old(pixels)@.len(),
        forall|i: int|
            0 <= i < old(pixels)@.len() ==> #[trigger] final(pixels)@[i] == if covered(
                i,
                width as int,
                height as int,
                rect,
            ) {
                channel(color, i % 4)
            } else {
                old(pixels)@[i]
            },
{
    let ghost before = pixels@;
    let ghost w = width as int;
    let x0: i32 = if rect.x > 0 {
        rect.x
    } else {
        0
    };
    let y0: i32 = if rect.y > 0 {
        rect.y
    } else {
        0
    };
    let x1: i32 = if rect.x + rect.w < width {
        rect.x + rect.w
    } else {
        width
    };
    let y1: i32 = if rect.y + rect.h < height {
        rect.y + rect.h
    } else {
        height
    };
    let mut py: i32 = y0;
    while py < y1
        invariant
            w == width,
            width >= 0,
            height >= 0,
            width * height * 4 <= i32::MAX,
            width * height * 4 <= before.len(),
            pixels@.len() == before.len(),
            0 <= x0,
            x1 <= width,
            0 <= y0 <= py,
            y1 <= height,
            y0 <= y1 ==> py <= y1,
            y0 > y1 ==> py == y0,
            forall|i: int|
                0 <= i < before.len() ==> #[trigger] pixels@[i] == if in_area(
                    i,
                    w,
                    x0 as int,
                    x1 as int,
                    y0 as int,
                    py as int,
                ) {
                    channel(color, i % 4)
                } else {
                    before[i]
                },
        decreases y1 - py,
    {
        let mut px: i32 = x0;
        while px < x1
            invariant
                w == width,
                width >= 0,
                height >= 0,
                width * height * 4 <= i32::MAX,
                width * height * 4 <= before.len(),
                pixels@.len() == before.len(),
                0 <= x0 <= px,
                x1 <= width,
                0 <= y0 <= py < y1 <= height,
                x0 <= x1 ==> px <= x1,
                x0 > x1 ==> px == x0,
                forall|i: int|
                    0 <= i < before.len() ==> #[trigger] pixels@[i] == if in_area(
                        i,
                        w,
                        x0 as int,
                        x1 as int,
                        y0 as int,
                        py as int,
                    ) || in_area(i, w, x0 as int, px as int, py as int, py + 1) {
                        channel(color, i % 4)
                    } else {
                        before[i]
                    },
            decreases x1 - px,
        {
            proof {
                lemma_area(py as int, px as int, w, height as int);
            }
            let ghost so_far = pixels@;
            let base: i32 = (py * width + px) * 4;
            let index: usize = base as usize;
            pixels.set(index, color.b);
            pixels.set(index + 1, color.g);
            pixels.set(index + 2, color.r);
            pixels.set(index + 3, color.a);
            proof {
                let now = pixels@;
                assert forall|i: int| 0 <= i < before.len() implies #[trigger] now[i] == if in_area(
                    i,
                    w,
                    x0 as int,
                    x1 as int,
                    y0 as int,
                    py as int,
                ) || in_area(i, w, x0 as int, px + 1, py as int, py + 1) {
                    channel(color, i % 4)
                } else {
                    before[i]
                } by {
                    lemma_pixel(i, w, px as int, py as int);
                    assert(so_far[i] == if in_area(
                        i,
                        w,
                        x0 as int,
                        x1 as int,
                        y0 as int,
                        py as int,
                    ) || in_area(i, w, x0 as int, px as int, py as int, py + 1) {
                        channel(color, i % 4)
                    } else {
                        before[i]
                    });
                    if index <= i < index + 4 {
                        assert(i / 4 == py * w + px);
                        assert(i % 4 == i - index);
                    } else {
                        assert(i / 4 != py * w + px);
                        assert(now[i] == so_far[i]);
                    }
                }
            }
            px += 1;
        }
        proof {
            let now = pixels@;
            assert forall|i: int| 0 <= i < before.len() implies #[trigger] now[i] == if in_area(
                i,
                w,
                x0 as int,
                x1 as int,
                y0 as int,
                py + 1,
            ) {
                channel(color, i % 4)
            } else {
                before[i]
            } by {
                assert(now[i] == if in_area(i, w, x0 as int, x1 as int, y0 as int, py as int)
                    || in_area(i, w, x0 as int, px as int, py as int, py + 1) {
                    channel(color, i % 4)
                } else {
                    before[i]
                });
            }
        }
        py += 1;
    }
}

/// Fills a picture.
pub fn fill(pixels: &mut Vec<u8>, width: i32, height: i32, color: Rgba)
    requires
        width >= 0,
        height >= 0,
        width * height * 4 <= i32::MAX,
        width * height * 4 <= old(pixels)@.len(),
    ensures
        final(pixels)@.len() == old(pixels)@.len(),
        forall|i: int|
            0 <= i < width * height * 4 ==> #[trigger] final(pixels)@[i] == channel(color, i % 4),
        forall|i: int|
            width * height * 4 <= i < old(pixels)@.len() ==> #[trigger] final(pixels)@[i] == old(
                pixels,
            )@[i],
{
    let rect = PanelRect { x: 0, y: 0, w: width, h: height };
    fill_rect(pixels, width, height, rect, color);
    proof {
        let w = width as int;
        let h = height as int;
        assert forall|i: int| 0 <= i < pixels@.len() implies #[trigger] covered(i, w, h, rect) == (i
            < width * height * 4) by {
            if w > 0 && h > 0 {
                lemma_in_picture(i, w, h);
            } else {
                assert(w * h == 0) by (nonlinear_arith)
                    requires
                        w == 0 || h == 0,
                ;
            }
        }
    }
}

proof fn lemma_in_picture(i: int, width: int, height: int)
    requires
        0 <= i,
        width >= 1,
        height >= 1,
    ensures
        (i < width * height * 4) == (0 <= i / 4 / width < height),
        0 <= i / 4 % width < width,
{
    let p = i / 4;
    vstd::arithmetic::div_mod::lemma_fundamental_div_mod(p, width);
    let q = p / width;
    let m = p % width;
    assert(0 <= m < width);
    assert(q >= 0) by (nonlinear_arith)
        requires
            p == width * q + m,
            p >= 0,
            m < width,
            width >= 1,
    ;
    if q < height {
        assert(p < width * height) by (nonlinear_arith)
            requires
                p == width * q + m,
                m < width,
                q < height,
                width >= 1,
        ;
    } else {
        assert(p >= width * height) by (nonlinear_arith)
            requires
                p == width * q + m,
                m >= 0,
                q >= height,
                width >= 1,
        ;
    }
}

/// A glyph with its upper left corner at this point of a picture of this size.
pub struct PlacedGlyph {
    pub x: i32,
    pub y: i32,
    /// The pixels of one of its rows.
    pub columns: usize,
    /// How far it covers each of its pixels, row by row.
    pub bitmap: Vec<u8>,
}

/// The index of the first byte of the pixel that the glyph covers with the pixel `k` of
/// its own, where it covers it at all and the pixel lies in the picture.
pub open spec fn inked(glyph: PlacedGlyph, k: int, width: int, height: int) -> Option<int> {
    let x = glyph.x + k % (glyph.columns as int);
    let y = glyph.y + k / (glyph.columns as int);
    if glyph.bitmap@[k] == 0 || x < 0 || y < 0 || x >= width || y >= height {
        None
    } else {
        Some((y * width + x) * 4)
    }
}

/// The pixels of the picture that the first `n` pixels of the glyph cover, and how far.
pub open spec fn ink(glyph: PlacedGlyph, n: int, width: int, height: int) -> Seq<(int, u8)>
    decreases n,
{
    if n <= 0 {
        seq![]
    } else {
        let rest = ink(glyph, n - 1, width, height);
        match inked(glyph, n - 1, width, height) {
            Some(index) => rest.push((index, glyph.bitmap@[n - 1])),
            None => rest,
        }
    }
}

/// The pixels of a picture that a glyph covers: the index of their first byte, and how
/// far it covers them.
pub fn glyph_ink(glyph: &PlacedGlyph, width: i32, height: i32) -> (r: Vec<(usize, u8)>)
    requires
        glyph.columns > 0 || glyph.bitmap@.len() == 0,
        width >= 0,
        height >= 0,
        width * height * 4 <= i32::MAX,
    ensures
        r@.map_values(|p: (usize, u8)| (p.0 as int, p.1)) == ink(
            *glyph,
            glyph.bitmap@.len() as int,
            width as int,
            height as int,
        ),
        forall|i: int| 0 <= i < r@.len() ==> (#[trigger] r@[i]).0 + 4 <= width * height * 4,
{
    let mut out: Vec<(usize, u8)> = Vec::new();
    let ghost as_ints = |p: (usize, u8)| (p.0 as int, p.1);
    assert(out@.map_values(as_ints) =~= seq![]);
    let mut k: usize = 0;
    while k < glyph.bitmap.len()
        invariant
            k <= glyph.bitmap@.len(),
            glyph.columns > 0 || glyph.bitmap@.len() == 0,
            width >= 0,
            height >= 0,
            width * height * 4 <= i32::MAX,
            as_ints == (|p: (usize, u8)| (p.0 as int, p.1)),
            out@.map_values(as_ints) == ink(*glyph, k as int, width as int, height as int),
            forall|i: int| 0 <= i < out@.len() ==> (#[trigger] out@[i]).0 + 4 <= width * height * 4,
        decreases glyph.bitmap@.len() - k,
    {
        let column: usize = k % glyph.columns;
        let row: usize = k / glyph.columns;
        let x: i128 = glyph.x as i128 + column as i128;
        let y: i128 = glyph.y as i128 + row as i128;
        let coverage: u8 = glyph.bitmap[k];
        if coverage != 0 && x >= 0 && y >= 0 && x < width as i128 && y < height as i128 {
            proof {
                lemma_area(y as int, x as int, width as int, height as int);
            }
            let index: i32 = (y as i32 * width + x as i32) * 4;
            let ghost before = out@;
            out.push((index as usize, coverage));
            assert(out@.map_values(as_ints) =~= before.map_values(as_ints).push(
                (index as int, coverage),
            ));
        }
        k += 1;
    }
    out
}

} // verus!
