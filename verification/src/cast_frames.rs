//! Frames on their way into the buffers of a stream.

use vstd::prelude::*;

use crate::screencast::{FrameTarget, ScreencastFrame};

verus! {

/// How long a worker waits for its stream to be known, in milliseconds.
pub const START_TIMEOUT: u64 = 5000;

/// The bytes of a row of pixels.
pub open spec fn row_bytes(width: u32) -> int {
    width * 4
}

/// The bytes of a picture, or as many as can be counted.
pub open spec fn picture_bytes(width: u32, height: u32) -> int {
    if row_bytes(width) * height <= usize::MAX {
        row_bytes(width) * height
    } else {
        usize::MAX as int
    }
}

/// The lesser of two numbers.
pub open spec fn lesser(a: int, b: int) -> int {
    if a < b {
        a
    } else {
        b
    }
}

/// The frame has the size of the stream, and whole rows.
pub open spec fn frame_fits(frame: ScreencastFrame, width: u32, height: u32) -> bool {
    frame.width == width && frame.height == height && frame.stride >= row_bytes(width)
}

/// A row of a frame is there, and has room in a buffer of that many bytes.
pub open spec fn row_fits(
    row: int,
    width: u32,
    stride: u32,
    pixels: nat,
    room: int,
) -> bool {
    row * stride + row_bytes(width) <= pixels && row * row_bytes(width) + row_bytes(width) <= room
}

/// The rows before `rows` all fit, and `rows` is all of them or does not.
pub open spec fn is_row_count(
    rows: int,
    width: u32,
    height: u32,
    stride: u32,
    pixels: nat,
    room: int,
) -> bool {
    &&& 0 <= rows <= height
    &&& forall|r: int| 0 <= r < rows ==> row_fits(r, width, stride, pixels, room)
    &&& rows < height ==> !row_fits(rows, width, stride, pixels, room)
}

/// `after` holds the first `rows` rows of a frame, without the gaps between them, and
/// is `before` behind them.
pub open spec fn holds_rows(
    after: Seq<u8>,
    before: Seq<u8>,
    pixels: Seq<u8>,
    stride: u32,
    width: u32,
    rows: int,
) -> bool {
    &&& after.len() == before.len()
    &&& forall|r: int, c: int|
        #![trigger after[r * row_bytes(width) + c]]
        0 <= r < rows && 0 <= c < row_bytes(width) ==> after[r * row_bytes(width) + c] == pixels[r
            * stride + c]
    &&& forall|i: int|
        rows * row_bytes(width) <= i < before.len() ==> #[trigger] after[i] == before[i]
}

/// There is a frame, of another size than the stream.
pub open spec fn size_changed(frame: Option<ScreencastFrame>, width: u32, height: u32) -> bool {
    frame is Some && ((frame->0).width != width || (frame->0).height != height)
}

/// `after` is `before` with as many rows of the frame as fit, of `written` bytes.
pub open spec fn copied(
    after: Seq<u8>,
    before: Seq<u8>,
    frame: ScreencastFrame,
    written: int,
) -> bool {
    exists|rows: int|
        {
            &&& #[trigger] is_row_count(
                rows,
                frame.width,
                frame.height,
                frame.stride,
                frame.pixels@.len(),
                lesser(before.len() as int, picture_bytes(frame.width, frame.height)),
            )
            &&& written == rows * row_bytes(frame.width)
            &&& holds_rows(after, before, frame.pixels@, frame.stride, frame.width, rows)
        }
}

/// `after` is `before` with its first `room` bytes black, all of them written.
pub open spec fn blackened(after: Seq<u8>, before: Seq<u8>, room: int, written: int) -> bool {
    &&& written == room
    &&& after.len() == before.len()
    &&& forall|i: int| 0 <= i < room ==> #[trigger] after[i] == 0
    &&& forall|i: int| room <= i < before.len() ==> #[trigger] after[i] == before[i]
}

proof fn lemma_rows(a: int, b: int, w: int)
    by (nonlinear_arith)
    requires
        0 <= a < b,
        0 <= w,
    ensures
        a * w + w <= b * w,
        0 <= a * w,
{
}

proof fn lemma_next_row(a: int, w: int)
    by (nonlinear_arith)
    ensures
        (a + 1) * w == a * w + w,
{
}

proof fn lemma_product_fits(row: int, stride: int)
    by (nonlinear_arith)
    requires
        0 <= row <= 0xffff_ffff,
        0 <= stride <= 0x4_0000_0000,
    ensures
        0 <= row * stride <= 0x4_0000_0000 * 0xffff_ffff,
{
}

fn copy_rows(
    destination: &mut Vec<u8>,
    pixels: &Vec<u8>,
    stride: u32,
    width: u32,
    height: u32,
    room: usize,
) -> (written: usize)
    requires
        row_bytes(width) <= stride,
        row_bytes(width) <= usize::MAX,
        room <= old(destination)@.len(),
    ensures
        exists|rows: int|
            {
                &&& #[trigger] is_row_count(
                    rows,
                    width,
                    height,
                    stride,
                    pixels@.len(),
                    room as int,
                )
                &&& written == rows * row_bytes(width)
                &&& holds_rows(
                    final(destination)@,
                    old(destination)@,
                    pixels@,
                    stride,
                    width,
                    rows,
                )
            },
{
    let ghost before = destination@;
    let ghost w = row_bytes(width);
    let line: u128 = width as u128 * 4;
    let available: u128 = pixels.len() as u128;
    let mut row: u32 = 0;
    let mut written: usize = 0;
    let mut full: bool = false;
    assert(0 * w == 0) by (nonlinear_arith);
    while row < height && !full
        invariant
            w == row_bytes(width),
            line == w,
            w <= stride,
            w <= usize::MAX,
            available == pixels@.len(),
            available <= usize::MAX,
            room <= before.len(),
            row <= height,
            written == row * w,
            forall|r: int|
                0 <= r < row ==> row_fits(r, width, stride, pixels@.len(), room as int),
            full ==> row < height && !row_fits(
                row as int,
                width,
                stride,
                pixels@.len(),
                room as int,
            ),
            holds_rows(destination@, before, pixels@, stride, width, row as int),
        decreases height - row, if full { 0int } else { 1int },
    {
        proof {
            lemma_product_fits(row as int, stride as int);
            lemma_product_fits(row as int, w);
        }
        let source: u128 = row as u128 * stride as u128;
        let target: u128 = row as u128 * line;
        if source + line > available || target + line > room as u128 {
            full = true;
        } else {
            let start: usize = source as usize;
            let ghost so_far = destination@;
            let mut c: usize = 0;
            while c < line as usize
                invariant
                    w == row_bytes(width),
                    line == w,
                    w <= usize::MAX,
                    c <= w,
                    room <= before.len(),
                    written == row * w,
                    written + w <= room,
                    start == row * stride,
                    start + w <= pixels@.len(),
                    pixels@.len() <= usize::MAX,
                    destination@.len() == before.len(),
                    forall|i: int|
                        written <= i < written + c ==> #[trigger] destination@[i] == pixels@[start
                            + (i - written)],
                    forall|i: int|
                        0 <= i < before.len() && !(written <= i < written + c)
                            ==> #[trigger] destination@[i] == so_far[i],
                    so_far.len() == before.len(),
                decreases w - c,
            {
                destination.set(written + c, pixels[start + c]);
                c += 1;
            }
            proof {
                lemma_next_row(row as int, w);
                let now = destination@;
                assert forall|r: int, k: int|
                    #![trigger now[r * row_bytes(width) + k]]
                    0 <= r < row + 1 && 0 <= k < row_bytes(width) implies now[r * row_bytes(width)
                    + k] == pixels@[r * stride + k] by {
                    if r < row {
                        lemma_rows(r, row as int, w);
                        assert(now[r * w + k] == so_far[r * w + k]);
                    } else {
                        assert(r == row);
                        assert(now[written + k] == pixels@[start + k]);
                    }
                }
                assert forall|i: int| (row + 1) * w <= i < before.len() implies #[trigger] now[i]
                    == before[i] by {
                    assert(now[i] == so_far[i]);
                }
                assert(row_fits(row as int, width, stride, pixels@.len(), room as int));
            }
            written = written + line as usize;
            row += 1;
        }
    }
    assert(is_row_count(row as int, width, height, stride, pixels@.len(), room as int));
    written
}

fn fill_zero(destination: &mut Vec<u8>, len: usize)
    requires
        len <= old(destination)@.len(),
    ensures
        final(destination)@.len() == old(destination)@.len(),
        forall|i: int| 0 <= i < len ==> #[trigger] final(destination)@[i] == 0,
        forall|i: int|
            len <= i < old(destination)@.len() ==> #[trigger] final(destination)@[i] == old(
                destination,
            )@[i],
{
    let ghost before = destination@;
    let mut i: usize = 0;
    while i < len
        invariant
            i <= len,
            len <= before.len(),
            destination@.len() == before.len(),
            forall|j: int| 0 <= j < i ==> #[trigger] destination@[j] == 0,
            forall|j: int| i <= j < before.len() ==> #[trigger] destination@[j] == before[j],
        decreases len - i,
    {
        destination.set(i, 0);
        i += 1;
    }
}

/// Writes the latest frame of a stream into a buffer, or black where there is none that
/// fits. Where the frame has another size the stream is over, since its size was
/// settled: its target is closed. Gives how many bytes were written; the rows of the
/// buffer have no gaps.
pub fn process_frame(
    target: &mut FrameTarget,
    width: u32,
    height: u32,
    destination: &mut Vec<u8>,
) -> (written: usize)
    requires
        old(target).wf(),
        row_bytes(width) <= usize::MAX,
    ensures
        final(target).wf(),
        final(target).draw_cursor == old(target).draw_cursor,
        final(target).pending == (old(target).pending && !size_changed(
            old(target).frame,
            width,
            height,
        )),
        final(destination)@.len() == old(destination)@.len(),
        final(target).closed == (old(target).closed || size_changed(
            old(target).frame,
            width,
            height,
        )),
        final(target).frame == if final(target).closed {
            None
        } else {
            old(target).frame
        },
        old(target).frame is Some && frame_fits(old(target).frame->0, width, height) ==> copied(
            final(destination)@,
            old(destination)@,
            old(target).frame->0,
            written as int,
        ),
        !(old(target).frame is Some && frame_fits(old(target).frame->0, width, height))
            ==> blackened(
            final(destination)@,
            old(destination)@,
            lesser(old(destination)@.len() as int, picture_bytes(width, height)),
            written as int,
        ),
{
    let ghost before = destination@;
    let line: usize = width as usize * 4;
    let total: usize = match line.checked_mul(height as usize) {
        Some(total) => total,
        None => usize::MAX,
    };
    assert(total == picture_bytes(width, height));
    let room: usize = if destination.len() < total {
        destination.len()
    } else {
        total
    };
    let mut mismatch: bool = false;
    let mut written: usize = 0;
    let mut taken: bool = false;
    if let Some(frame) = &target.frame {
        if frame.width != width || frame.height != height {
            mismatch = true;
        } else if frame.stride as u64 >= width as u64 * 4 {
            taken = true;
            written = copy_rows(destination, &frame.pixels, frame.stride, width, height, room);
            assert(room == lesser(
                before.len() as int,
                picture_bytes(frame.width, frame.height),
            ));
            assert(copied(destination@, before, *frame, written as int));
        }
    }
    if mismatch {
        target.close();
    }
    if !taken {
        fill_zero(destination, room);
        written = room;
    }
    written
}

/// The number of a stream that has none yet.
pub const ID_ANY: u32 = 0xffff_ffff;

/// What became of a stream.
pub enum StreamState {
    /// It runs, or is paused.
    Running,
    /// It failed, for this reason.
    Failed(String),
    /// It is on its way.
    Other,
}

/// What a worker says of a stream whose state changed: its number, once it runs and
/// has one, or why it failed.
pub fn state_report(state: StreamState, node: u32) -> (r: Option<Result<u32, String>>)
    ensures
        r == match state {
            StreamState::Running => if node == ID_ANY {
                None
            } else {
                Some(Ok::<u32, String>(node))
            },
            StreamState::Failed(reason) => Some(Err::<u32, String>(reason)),
            StreamState::Other => None,
        },
{
    match state {
        StreamState::Running => if node != ID_ANY {
            Some(Ok(node))
        } else {
            None
        },
        StreamState::Failed(reason) => Some(Err(reason)),
        StreamState::Other => None,
    }
}

/// What starting a worker comes to.
pub struct StartResult {
    pub result: Result<u32, String>,
    /// The worker is told to end.
    pub stop: bool,
    /// The end of the worker is waited for.
    pub join: bool,
}

/// What starting a worker comes to, given what it said of its stream, where it spoke
/// in time. A worker that did not may be stuck: it is told to end, but not waited for.
pub fn start_result(said: Option<Result<u32, String>>) -> (r: StartResult)
    ensures
        r.stop == !(said is Some && said->0 is Ok),
        r.join == (said is Some && said->0 is Err),
        match said {
            Some(answer) => r.result == answer,
            None => r.result is Err && (r.result->Err_0)@ == "timed out creating PipeWire stream"@,
        },
{
    match said {
        Some(Ok(node)) => StartResult { result: Ok(node), stop: false, join: false },
        Some(Err(reason)) => StartResult { result: Err(reason), stop: true, join: true },
        None => StartResult {
            result: Err("timed out creating PipeWire stream".to_owned()),
            stop: true,
            join: false,
        },
    }
}

/// The bytes from one row to the next in a buffer that another party laid out: those
/// that it reports, or those of a row without gaps where it reports none.
pub fn plane_stride(reported: i32, width: u32) -> (r: u32)
    requires
        row_bytes(width) <= u32::MAX,
    ensures
        r == if reported > 0 {
            reported as int
        } else {
            row_bytes(width)
        },
{
    if reported > 0 {
        reported as u32
    } else {
        width * 4
    }
}

/// What a worker does next.
#[derive(Clone, Copy, Debug, PartialEq, Eq, Structural)]
pub enum WorkerStep {
    /// It serves its stream.
    Serve,
    /// It ends.
    Stop,
    /// Its stream was never known: it says so and ends.
    GiveUp,
}

/// What a worker does before it serves its stream once more: it ends where its target
/// is closed, or where it was told to, or nobody is left to tell it.
pub fn before_serving(closed: bool, told_to_stop: bool) -> (r: WorkerStep)
    ensures
        r == if closed || told_to_stop {
            WorkerStep::Stop
        } else {
            WorkerStep::Serve
        },
{
    if closed || told_to_stop {
        WorkerStep::Stop
    } else {
        WorkerStep::Serve
    }
}

/// What a worker does when it served its stream for so many milliseconds.
pub fn after_serving(elapsed: u64, known: bool) -> (r: WorkerStep)
    ensures
        r == if elapsed >= START_TIMEOUT && !known {
            WorkerStep::GiveUp
        } else {
            WorkerStep::Serve
        },
{
    if elapsed >= START_TIMEOUT && !known {
        WorkerStep::GiveUp
    } else {
        WorkerStep::Serve
    }
}

/// No more is written than there is room for, and nothing is read behind the end of a
/// frame.
pub proof fn law_rows_stay_in_bounds(
    rows: int,
    width: u32,
    height: u32,
    stride: u32,
    pixels: nat,
    room: int,
    r: int,
)
    requires
        is_row_count(rows, width, height, stride, pixels, room),
        room >= 0,
        0 <= r < rows,
    ensures
        rows * row_bytes(width) <= room,
        0 <= r * stride,
        r * stride + row_bytes(width) <= pixels,
{
    assert(row_fits(rows - 1, width, stride, pixels, room));
    assert(row_fits(r, width, stride, pixels, room));
    lemma_next_row(rows - 1, row_bytes(width));
    assert(0 <= r * stride) by (nonlinear_arith)
        requires
            0 <= r,
            0 <= stride,
    ;
}

/// A frame whose rows are all there is copied whole into a buffer that has room for it.
pub proof fn law_whole_frames_are_copied(
    rows: int,
    width: u32,
    height: u32,
    stride: u32,
    pixels: nat,
    room: int,
)
    requires
        is_row_count(rows, width, height, stride, pixels, room),
        stride >= row_bytes(width),
        height * stride <= pixels,
        height * row_bytes(width) <= room,
    ensures
        rows == height,
{
    if rows < height {
        lemma_rows(rows, height as int, stride as int);
        lemma_rows(rows, height as int, row_bytes(width));
        assert(row_fits(rows, width, stride, pixels, room));
    }
}

} // verus!
