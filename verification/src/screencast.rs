//! Screen sharing: what can be shared, and the frames handed to a stream.

use vstd::prelude::*;
use vstd::string::*;

use crate::text::{text_eq, to_decimal};

verus! {

/// What the bus side knows of an output.
pub struct OutputSnapshot {
    pub name: String,
    pub width: u32,
    pub height: u32,
}

/// What an `OutputSnapshot` says.
pub struct OutputSnapshotView {
    pub name: Seq<char>,
    pub width: u32,
    pub height: u32,
}

impl View for OutputSnapshot {
    type V = OutputSnapshotView;

    open spec fn view(&self) -> OutputSnapshotView {
        OutputSnapshotView { name: self.name@, width: self.width, height: self.height }
    }
}

/// What the bus side knows of a window.
#[derive(Clone, Copy, Debug, PartialEq, Eq, Structural)]
pub struct WindowSnapshot {
    pub id: u64,
    pub width: u32,
    pub height: u32,
}

/// What a stream shows.
pub enum ScreencastSource {
    Output(String),
    Window(u64),
}

/// What a `ScreencastSource` says.
pub enum SourceView {
    Output(Seq<char>),
    Window(u64),
}

impl View for ScreencastSource {
    type V = SourceView;

    open spec fn view(&self) -> SourceView {
        match self {
            ScreencastSource::Output(name) => SourceView::Output(name@),
            ScreencastSource::Window(id) => SourceView::Window(*id),
        }
    }
}

/// A second copy of a source.
pub fn copy_source(source: &ScreencastSource) -> (r: ScreencastSource)
    ensures
        r@ == source@,
{
    match source {
        ScreencastSource::Output(name) => ScreencastSource::Output(name.clone()),
        ScreencastSource::Window(id) => ScreencastSource::Window(*id),
    }
}

/// A captured frame.
pub struct ScreencastFrame {
    pub pixels: Vec<u8>,
    pub width: u32,
    pub height: u32,
    pub stride: u32,
}

/// What a stream asks of the compositor.
pub enum ScreencastEvent {
    /// A frame of `source`, for the frame target of this number.
    FrameRequested { source: ScreencastSource, target: u64 },
    /// The user's choice among sources of these types, for the request of this
    /// number.
    PickSource { source_types: u32, request: u64 },
}

/// The latest frame of a stream, and whether a newer one is on its way.
pub struct FrameTarget {
    pub frame: Option<ScreencastFrame>,
    pub draw_cursor: bool,
    pub pending: bool,
    pub closed: bool,
}

impl FrameTarget {
    /// A closed target holds no frame.
    pub open spec fn wf(&self) -> bool {
        self.closed ==> self.frame is None
    }

    pub fn new(draw_cursor: bool) -> (r: Self)
        ensures
            r.wf(),
            r.frame is None,
            r.draw_cursor == draw_cursor,
            !r.pending,
            !r.closed,
    {
        FrameTarget { frame: None, draw_cursor, pending: false, closed: false }
    }

    /// Asks for a frame, unless the target is closed or one is on its way. Gives
    /// the request to send, for the target's number.
    pub fn request(&mut self, source: &ScreencastSource, number: u64) -> (r: Option<
        ScreencastEvent,
    >)
        requires
            old(self).wf(),
        ensures
            final(self).wf(),
            match r {
                Some(ScreencastEvent::FrameRequested { source: s, target }) => !old(self).closed
                    && !old(self).pending && s@ == source@ && target == number,
                Some(_) => false,
                None => old(self).closed || old(self).pending,
            },
            final(self).pending == (old(self).pending || r is Some),
            final(self).frame == old(self).frame,
            final(self).draw_cursor == old(self).draw_cursor,
            final(self).closed == old(self).closed,
    {
        if self.closed || self.pending {
            return None;
        }
        self.pending = true;
        Some(ScreencastEvent::FrameRequested { source: copy_source(source), target: number })
    }

    /// The request could not be sent: none is on its way.
    pub fn request_failed(&mut self)
        requires
            old(self).wf(),
        ensures
            final(self).wf(),
            !final(self).pending,
            final(self).frame == old(self).frame,
            final(self).draw_cursor == old(self).draw_cursor,
            final(self).closed == old(self).closed,
    {
        self.pending = false;
    }

    /// Takes in the frame that was asked for, or that there is none. A closed
    /// target keeps no frame.
    pub fn complete(&mut self, frame: Option<ScreencastFrame>)
        ensures
            final(self).wf(),
            final(self).frame == if old(self).closed {
                None
            } else {
                frame
            },
            !final(self).pending,
            final(self).draw_cursor == old(self).draw_cursor,
            final(self).closed == old(self).closed,
    {
        if self.closed {
            self.frame = None;
        } else {
            self.frame = frame;
        }
        self.pending = false;
    }

    /// Closes the target for good.
    pub fn close(&mut self)
        ensures
            final(self).wf(),
            final(self).closed,
            final(self).frame is None,
            !final(self).pending,
            final(self).draw_cursor == old(self).draw_cursor,
    {
        self.closed = true;
        self.complete(None);
    }

    pub fn is_closed(&self) -> (r: bool)
        ensures
            r == self.closed,
    {
        self.closed
    }
}

/// An output as the compositor reports it: its name, and the size of its mode
/// where it has one.
pub struct OutputMode {
    pub name: String,
    pub mode: Option<(i32, i32)>,
}

/// What the bus side is told of an output: nothing where it has no mode, or one
/// without an area.
pub open spec fn snapshot_of(output: OutputMode) -> Option<OutputSnapshotView> {
    match output.mode {
        Some((w, h)) => if w > 0 && h > 0 {
            Some(OutputSnapshotView { name: output.name@, width: w as u32, height: h as u32 })
        } else {
            None
        },
        None => None,
    }
}

/// What the bus side is told of the outputs, in their order.
pub open spec fn snapshots_of(outputs: Seq<OutputMode>) -> Seq<OutputSnapshotView>
    decreases outputs.len(),
{
    if outputs.len() == 0 {
        seq![]
    } else {
        let rest = snapshots_of(outputs.drop_last());
        match snapshot_of(outputs.last()) {
            Some(s) => rest.push(s),
            None => rest,
        }
    }
}

/// What a list of outputs says.
pub open spec fn output_views(outputs: Seq<OutputSnapshot>) -> Seq<OutputSnapshotView> {
    outputs.map_values(|o: OutputSnapshot| o@)
}

/// What can be shared.
pub struct ScreencastState {
    pub outputs: Vec<OutputSnapshot>,
    pub windows: Vec<WindowSnapshot>,
}

impl ScreencastState {
    pub fn new() -> (r: Self)
        ensures
            r.outputs@.len() == 0,
            r.windows@.len() == 0,
    {
        ScreencastState { outputs: Vec::new(), windows: Vec::new() }
    }

    /// Takes in the outputs as they are now.
    pub fn refresh_outputs(&mut self, outputs: &Vec<OutputMode>)
        ensures
            output_views(final(self).outputs@) == snapshots_of(outputs@),
            final(self).windows == old(self).windows,
    {
        let mut out: Vec<OutputSnapshot> = Vec::new();
        let mut i: usize = 0;
        assert(output_views(out@) =~= seq![]);
        assert(outputs@.take(0) =~= seq![]);
        while i < outputs.len()
            invariant
                i <= outputs@.len(),
                output_views(out@) == snapshots_of(outputs@.take(i as int)),
            decreases outputs@.len() - i,
        {
            let ghost before = output_views(out@);
            proof {
                let upto = outputs@.take(i + 1);
                assert(upto.drop_last() =~= outputs@.take(i as int));
                assert(upto.last() == outputs@[i as int]);
            }
            if let Some((w, h)) = outputs[i].mode {
                if w > 0 && h > 0 {
                    let s = OutputSnapshot {
                        name: outputs[i].name.clone(),
                        width: w as u32,
                        height: h as u32,
                    };
                    let ghost v = s@;
                    out.push(s);
                    assert(output_views(out@) =~= before.push(v));
                }
            }
            i += 1;
        }
        assert(outputs@.take(i as int) =~= outputs@);
        self.outputs = out;
    }

    /// Takes in the windows as they are now.
    pub fn refresh_windows(&mut self, windows: Vec<WindowSnapshot>)
        ensures
            final(self).windows == windows,
            final(self).outputs == old(self).outputs,
    {
        self.windows = windows;
    }
}

/// How many pixels a capture has along one side that scales to `scaled` pixels:
/// at least one, and no more than can be counted.
pub fn capture_extent(scaled: i64) -> (r: u32)
    ensures
        r == if scaled < 1 {
            1
        } else if scaled > u32::MAX {
            u32::MAX as int
        } else {
            scaled as int
        },
{
    if scaled < 1 {
        1
    } else if scaled > u32::MAX as i64 {
        u32::MAX
    } else {
        scaled as u32
    }
}

/// A window that may be shared: its number, where it has one, whether it is
/// mapped and shown on an output, and its size there in pixels.
#[derive(Clone, Copy, Debug, PartialEq, Eq, Structural)]
pub struct ShareableWindow {
    pub number: Option<u64>,
    pub mapped: bool,
    pub on_output: bool,
    pub width: i64,
    pub height: i64,
}

/// One side of a capture.
pub open spec fn extent_of(scaled: int) -> int {
    if scaled < 1 {
        1
    } else if scaled > u32::MAX {
        u32::MAX as int
    } else {
        scaled
    }
}

/// What the bus side is told of the windows, in their order: those that are
/// mapped, shown on an output and numbered.
pub open spec fn window_snapshots(windows: Seq<ShareableWindow>) -> Seq<WindowSnapshot>
    decreases windows.len(),
{
    if windows.len() == 0 {
        seq![]
    } else {
        let rest = window_snapshots(windows.drop_last());
        let w = windows.last();
        if w.mapped && w.on_output && w.number is Some {
            rest.push(
                WindowSnapshot {
                    id: w.number->0,
                    width: extent_of(w.width as int) as u32,
                    height: extent_of(w.height as int) as u32,
                },
            )
        } else {
            rest
        }
    }
}

/// The windows that can be shared now.
pub fn refresh_screencast_windows(windows: &Vec<ShareableWindow>) -> (r: Vec<WindowSnapshot>)
    ensures
        r@ == window_snapshots(windows@),
{
    let mut out: Vec<WindowSnapshot> = Vec::new();
    let mut i: usize = 0;
    assert(windows@.take(0) =~= seq![]);
    while i < windows.len()
        invariant
            i <= windows@.len(),
            out@ == window_snapshots(windows@.take(i as int)),
        decreases windows@.len() - i,
    {
        proof {
            let upto = windows@.take(i + 1);
            assert(upto.drop_last() =~= windows@.take(i as int));
            assert(upto.last() == windows@[i as int]);
        }
        let w = windows[i];
        if w.mapped && w.on_output {
            if let Some(id) = w.number {
                out.push(
                    WindowSnapshot {
                        id,
                        width: capture_extent(w.width),
                        height: capture_extent(w.height),
                    },
                );
            }
        }
        i += 1;
    }
    assert(windows@.take(i as int) =~= windows@);
    out
}

/// What the compositor does with a request for a frame.
#[derive(Clone, Copy, Debug, PartialEq, Eq, Structural)]
pub enum FrameRoute {
    /// Capture the output of this index.
    CaptureOutput(usize),
    /// Capture the window of this surface on this output.
    CaptureWindow { surface: u64, output: u64 },
    /// The source is gone: the target is closed.
    CloseTarget,
}

/// The first index whose name is `name`, or the length where none is.
pub open spec fn first_named(names: Seq<Seq<char>>, name: Seq<char>) -> int
    decreases names.len(),
{
    if names.len() == 0 || names[0] == name {
        0
    } else {
        1 + first_named(names.skip(1), name)
    }
}

/// Decides what to do with a request for a frame of `source`. For a window, its
/// surface and the output it is captured on are looked up first.
pub fn route_frame_request(
    source: &ScreencastSource,
    outputs: &Vec<String>,
    window: Option<(u64, Option<u64>)>,
) -> (r: FrameRoute)
    ensures
        r == match source@ {
            SourceView::Output(name) => {
                let i = first_named(crate::text::texts(outputs@), name);
                if i < outputs@.len() {
                    FrameRoute::CaptureOutput(i as usize)
                } else {
                    FrameRoute::CloseTarget
                }
            },
            SourceView::Window(_) => match window {
                Some((surface, Some(output))) => FrameRoute::CaptureWindow { surface, output },
                _ => FrameRoute::CloseTarget,
            },
        },
{
    match source {
        ScreencastSource::Output(name) => {
            let ghost all = crate::text::texts(outputs@);
            let mut i: usize = 0;
            assert(all.skip(0) =~= all);
            while i < outputs.len()
                invariant
                    i <= outputs@.len(),
                    all == crate::text::texts(outputs@),
                    source@ == SourceView::Output(name@),
                    first_named(all, name@) == i + first_named(all.skip(i as int), name@),
                decreases outputs@.len() - i,
            {
                assert(all.skip(i as int)[0] == outputs@[i as int]@);
                assert(all.skip(i as int).skip(1) =~= all.skip(i + 1));
                if text_eq(outputs[i].as_str(), name.as_str()) {
                    return FrameRoute::CaptureOutput(i);
                }
                i += 1;
            }
            assert(all.skip(i as int).len() == 0);
            FrameRoute::CloseTarget
        },
        ScreencastSource::Window(_) => match window {
            Some((surface, Some(output))) => FrameRoute::CaptureWindow { surface, output },
            _ => FrameRoute::CloseTarget,
        },
    }
}

/// The name of the media node of a stream.
pub fn node_name(source: &ScreencastSource) -> (r: String)
    ensures
        r@ == match source@ {
            SourceView::Output(name) => "tidewm-screencast-"@ + name,
            SourceView::Window(id) => "tidewm-screencast-window-"@ + crate::text::decimal(id as nat),
        },
{
    match source {
        ScreencastSource::Output(name) => {
            let mut out: String = "tidewm-screencast-".to_owned();
            out.append(name.as_str());
            out
        },
        ScreencastSource::Window(id) => {
            let mut out: String = "tidewm-screencast-window-".to_owned();
            out.append(to_decimal(*id).as_str());
            out
        },
    }
}

/// The name of the thread that serves a stream.
pub fn worker_name(source: &ScreencastSource) -> (r: String)
    ensures
        r@ == match source@ {
            SourceView::Output(name) => "screencast-pw-"@ + name,
            SourceView::Window(id) => "screencast-pw-window-"@ + crate::text::decimal(id as nat),
        },
{
    match source {
        ScreencastSource::Output(name) => {
            let mut out: String = "screencast-pw-".to_owned();
            out.append(name.as_str());
            out
        },
        ScreencastSource::Window(id) => {
            let mut out: String = "screencast-pw-window-".to_owned();
            out.append(to_decimal(*id).as_str());
            out
        },
    }
}

/// A property of a buffer negotiation, by its number.
#[derive(Clone, Copy, Debug, PartialEq, Eq, Structural)]
pub struct BuffersProperty(pub u32);

impl BuffersProperty {
    pub fn as_raw(self) -> (r: u32)
        ensures
            r == self.0,
    {
        self.0
    }
}

/// A number of bytes in two's complement, as the negotiation takes it.
pub open spec fn as_signed(bytes: int) -> int {
    if bytes <= i32::MAX {
        bytes
    } else {
        bytes - 0x1_0000_0000
    }
}

fn signed(bytes: u32) -> (r: i32)
    ensures
        r == as_signed(bytes as int),
{
    proof {
        assert(bytes > 0x7fff_ffff ==> bytes as i32 == bytes - 0x1_0000_0000) by (bit_vector);
    }
    #[verifier::truncate]
    (bytes as i32)
}

/// The buffers that a stream of this size asks for: how many, blocks in each,
/// bytes in a block and bytes in a row, each with its number.
pub fn buffer_properties(width: u32, height: u32) -> (r: Vec<(BuffersProperty, i32)>)
    requires
        width * height * 4 <= u32::MAX,
        width * 4 <= u32::MAX,
    ensures
        r@ == seq![
            (BuffersProperty(1), 4i32),
            (BuffersProperty(2), 1i32),
            (BuffersProperty(3), as_signed(width * height * 4) as i32),
            (BuffersProperty(4), as_signed(width * 4) as i32),
        ],
{
    let mut out: Vec<(BuffersProperty, i32)> = Vec::new();
    out.push((BuffersProperty(1), 4));
    out.push((BuffersProperty(2), 1));
    proof {
        assert(width * height >= 0) by (nonlinear_arith);
    }
    out.push((BuffersProperty(3), signed(width * height * 4)));
    out.push((BuffersProperty(4), signed(width * 4)));
    out
}

} // verus!
