//! What holds of how screens and windows are picked and shared.

use vstd::prelude::*;
use vstd::string::*;

use crate::cast_frames::{
    blackened, copied, frame_fits, holds_rows, is_row_count, picture_bytes, row_bytes, size_changed,
};
use crate::cast_registry::{not_session, owned_by, paths_of, ReservationView};
use crate::cast_session::{
    announced, cleanup_text, latest_output_size, latest_window_size, output_size, prepared, refusal,
    source_size, stream_at, stream_request, window_size, with_workers, without_dead, BusErrorKind,
    CastView, CleanupStep, Started, StartView, StreamRequest, StreamView,
};
use crate::portal::{
    begun, cancelled, closed, completed, has_path, is_over, paths_left, EntryView, Portal,
    PortalStreamState, SessionEntry,
};
use crate::screencast::{
    as_signed, extent_of, first_named, snapshot_of, snapshots_of, window_snapshots, OutputMode,
    OutputSnapshot, ScreencastFrame, ShareableWindow, SourceView, WindowSnapshot,
};
use crate::source_picker::{
    all_choices, background, channel, covered, first_shown, inked, ink, monitor_choice,
    monitor_choices, moved, nothing_to_pick, panel_key, panel_size, row_color, row_top, shown_count,
    virtual_choice, visible_rows, window_choice, window_choices, PanelKey, PanelRect, PickableWindow,
    PlacedGlyph, Rgba,
};
use crate::text::signed_decimal;

verus! {

/// An output is offered by its name and its size, which is at least a pixel each way.
pub proof fn law_outputs_are_offered_as_they_are(name: Seq<char>, mode: (i32, i32))
    ensures
        ({
            let c = monitor_choice(name, mode);
            let v = virtual_choice(name, mode);
            let size = signed_decimal(mode.0 as int) + "×"@ + signed_decimal(mode.1 as int);
            &&& c.source == SourceView::Output(name) && v.source == SourceView::Output(name)
            &&& c.source_type == 1 && v.source_type == 4
            &&& mode.0 >= 1 ==> c.width == mode.0 && v.width == mode.0
            &&& mode.1 >= 1 ==> c.height == mode.1 && v.height == mode.1
            &&& mode.0 < 1 ==> c.width == 1 && v.width == 1
            &&& mode.1 < 1 ==> c.height == 1 && v.height == 1
            &&& c.label == "Monitor — "@ + name + " ("@ + size + ")"@
            &&& v.label == "Virtual display — "@ + size
        }),
{
    let size = signed_decimal(mode.0 as int) + "×"@ + signed_decimal(mode.1 as int);
    assert(monitor_choice(name, mode).label =~= "Monitor — "@ + name + " ("@ + size + ")"@);
    assert(virtual_choice(name, mode).label =~= "Virtual display — "@ + size);
}

/// A window is offered by its number and its title, as large as it is within what can be
/// counted.
pub proof fn law_windows_are_offered_as_they_are(w: PickableWindow)
    ensures
        ({
            let c = window_choice(w);
            &&& c.source == SourceView::Window(w.number)
            &&& c.source_type == 2
            &&& 1 <= w.width <= u32::MAX ==> c.width == w.width
            &&& 1 <= w.height <= u32::MAX ==> c.height == w.height
            &&& c.width >= 1 && c.height >= 1
            &&& c.label == "Window — "@ + w.title@
        }),
{
}

/// Outputs are offered in order where they have a mode, and windows where they are mapped
/// and on an output.
pub proof fn law_what_can_be_seen_is_offered(
    outputs: Seq<OutputMode>,
    o: OutputMode,
    windows: Seq<PickableWindow>,
    w: PickableWindow,
)
    ensures
        monitor_choices(Seq::empty()).len() == 0,
        window_choices(Seq::empty()).len() == 0,
        o.mode is Some ==> monitor_choices(outputs.push(o)) == monitor_choices(outputs).push(
            monitor_choice(o.name@, o.mode->0),
        ),
        o.mode is None ==> monitor_choices(outputs.push(o)) == monitor_choices(outputs),
        w.mapped && w.on_output ==> window_choices(windows.push(w)) == window_choices(windows).push(
            window_choice(w),
        ),
        !w.mapped || !w.on_output ==> window_choices(windows.push(w)) == window_choices(windows),
{
    assert(outputs.push(o).drop_last() =~= outputs);
    assert(windows.push(w).drop_last() =~= windows);
}

/// The kinds of sources that were asked for are offered, and no others: outputs first, then
/// windows, then the virtual display.
pub proof fn law_the_asked_kinds_are_offered(
    kinds: u32,
    outputs: Seq<OutputMode>,
    windows: Seq<PickableWindow>,
    name: Seq<char>,
    mode: (i32, i32),
)
    ensures
        ({
            let all = all_choices(kinds, outputs, windows, name, mode);
            let a = if kinds & 1 != 0 {
                monitor_choices(outputs)
            } else {
                Seq::empty()
            };
            let b = if kinds & 2 != 0 {
                window_choices(windows)
            } else {
                Seq::empty()
            };
            &&& all.len() == a.len() + b.len() + (if kinds & 4 != 0 {
                1int
            } else {
                0
            })
            &&& all.take(a.len() as int) == a
            &&& all.subrange(a.len() as int, (a.len() + b.len()) as int) == b
            &&& kinds & 4 != 0 ==> all.last() == virtual_choice(name, mode)
        }),
{
    let all = all_choices(kinds, outputs, windows, name, mode);
    let a = if kinds & 1 != 0 {
        monitor_choices(outputs)
    } else {
        Seq::empty()
    };
    let b = if kinds & 2 != 0 {
        window_choices(windows)
    } else {
        Seq::empty()
    };
    assert(all.take(a.len() as int) =~= a);
    assert(all.subrange(a.len() as int, (a.len() + b.len()) as int) =~= b);
}

/// There is nothing to pick while the session is locked, without an output to show the
/// picker on, and without a choice.
pub proof fn law_nothing_is_picked_while_locked(
    locked: bool,
    ui: Option<OutputMode>,
    kinds: u32,
    outputs: Seq<OutputMode>,
    windows: Seq<PickableWindow>,
)
    ensures
        ({
            let none = nothing_to_pick(locked, ui, kinds, outputs, windows);
            &&& locked ==> none
            &&& ui is None ==> none
            &&& ui is Some && (ui->0).mode is None ==> none
            &&& !locked && ui is Some && (ui->0).mode is Some ==> (none <==> all_choices(
                kinds,
                outputs,
                windows,
                (ui->0).name@,
                (ui->0).mode->0,
            ).len() == 0)
        }),
{
}

/// The panel is seven hundred and twenty pixels wide and has a row for its title and one
/// for each choice, but is no larger than the output.
pub proof fn law_the_panel_stays_on_the_output(output: (i32, i32), count: int)
    requires
        output.0 >= 1,
        output.1 >= 1,
        count >= 0,
    ensures
        ({
            let size = panel_size(output, count);
            &&& size.0 <= output.0 && size.1 <= output.1
            &&& size.0 <= 720
            &&& output.0 >= 720 ==> size.0 == 720
            &&& output.1 >= 98 + 54 * count ==> size.1 == 98 + 54 * count
            &&& output.0 < 720 ==> size.0 == output.0
            &&& output.1 < 98 + 54 * count ==> size.1 == output.1
        }),
{
}

/// A panel of its full height shows every choice, whichever is selected.
pub proof fn law_a_full_panel_shows_every_choice(output: (i32, i32), count: int, selected: int)
    requires
        output.0 >= 1,
        output.1 >= 98 + 54 * count,
        0 <= selected < count,
    ensures
        ({
            let height = panel_size(output, count).1;
            &&& visible_rows(height) == count
            &&& first_shown(height, selected) == 0
            &&& shown_count(height, count, selected) == count
        }),
{
}

/// The rows that are shown lie below each other inside the panel, and another would not fit.
pub proof fn law_shown_rows_fit_the_panel(height: int, row: int)
    requires
        height >= 44 + 108,
        0 <= row < visible_rows(height),
    ensures
        row_top(row) >= 22 + 54,
        row_top(row) + 48 <= height - 22,
        row_top(row + 1) == row_top(row) + 54,
        row_top(visible_rows(height)) + 54 > height - 22,
{
}

/// A step goes to the next choice, or to the first behind the last, and back.
pub proof fn law_steps_go_around(selected: int, count: int)
    requires
        0 <= selected < count,
    ensures
        selected + 1 < count ==> moved(selected, 1, count) == selected + 1,
        selected + 1 == count ==> moved(selected, 1, count) == 0,
        selected > 0 ==> moved(selected, -1, count) == selected - 1,
        selected == 0 ==> moved(selected, -1, count) == count - 1,
        moved(selected, 0, count) == selected,
{
    vstd::arithmetic::div_mod::lemma_small_mod(selected as nat, count as nat);
    if selected + 1 < count {
        vstd::arithmetic::div_mod::lemma_small_mod((selected + 1) as nat, count as nat);
    } else {
        vstd::arithmetic::div_mod::lemma_mod_self_0(count);
    }
    if selected > 0 {
        vstd::arithmetic::div_mod::lemma_small_mod((selected - 1) as nat, count as nat);
    } else {
        vstd::arithmetic::div_mod::lemma_mod_multiples_vanish(-1, count - 1, count);
        vstd::arithmetic::div_mod::lemma_small_mod((count - 1) as nat, count as nat);
    }
}

/// Up and left go back, down, right and tab go on, return and enter accept, and escape
/// cancels; nothing else means anything.
pub proof fn law_keys_mean_what_they_say(sym: u32)
    ensures
        panel_key(sym) == PanelKey::Back <==> sym == 0xff52 || sym == 0xff51,
        panel_key(sym) == PanelKey::Forward <==> sym == 0xff54 || sym == 0xff53 || sym == 0xff09,
        panel_key(sym) == PanelKey::Accept <==> sym == 0xff0d || sym == 0xff8d,
        panel_key(sym) == PanelKey::Cancel <==> sym == 0xff1b,
{
}

/// The selected row stands out, and all rows stand out from the panel, which alone lets
/// something through.
pub proof fn law_the_selected_row_stands_out()
    ensures
        row_color(true) != row_color(false),
        row_color(true) != background() && row_color(false) != background(),
        row_color(true).a == 255 && row_color(false).a == 255 && background().a == 245,
        (row_color(true).r, row_color(true).g, row_color(true).b) == (38u8, 122u8, 150u8),
        (row_color(false).r, row_color(false).g, row_color(false).b) == (35u8, 39u8, 48u8),
        (background().r, background().g, background().b) == (15u8, 18u8, 24u8),
{
}

/// A pixel is four bytes: blue, green, red, alpha.
pub proof fn law_pixels_are_blue_green_red_alpha(color: Rgba)
    ensures
        channel(color, 0) == color.b,
        channel(color, 1) == color.g,
        channel(color, 2) == color.r,
        channel(color, 3) == color.a,
{
}

/// Filling a rectangle covers exactly its pixels that are on the panel.
pub proof fn law_filling_covers_the_rectangle(
    x: int,
    y: int,
    c: int,
    width: int,
    height: int,
    rect: PanelRect,
)
    requires
        0 <= x < width,
        0 <= y < height,
        0 <= c < 4,
    ensures
        covered((y * width + x) * 4 + c, width, height, rect) <==> rect.x <= x < rect.x + rect.w
            && rect.y <= y < rect.y + rect.h,
{
    let p = y * width + x;
    let i = p * 4 + c;
    vstd::arithmetic::div_mod::lemma_fundamental_div_mod_converse(i, 4, p, c);
    vstd::arithmetic::mul::lemma_mul_is_commutative(y, width);
    vstd::arithmetic::div_mod::lemma_fundamental_div_mod_converse(p, width, y, x);
    assert(i / 4 == p && p / width == y && p % width == x);
}

/// A dot of a glyph is inked where it shows and lies on the panel, at the pixel that it
/// falls on.
pub proof fn law_glyphs_ink_the_pixels_they_fall_on(
    glyph: PlacedGlyph,
    column: int,
    row: int,
    width: int,
    height: int,
)
    requires
        0 <= column < glyph.columns,
        0 <= row,
        row * glyph.columns + column < glyph.bitmap@.len(),
    ensures
        ({
            let k = row * glyph.columns + column;
            let x = glyph.x + column;
            let y = glyph.y + row;
            let on = 0 <= x < width && 0 <= y < height;
            &&& glyph.bitmap@[k] != 0 && on ==> inked(glyph, k, width, height) == Some(
                (y * width + x) * 4,
            )
            &&& glyph.bitmap@[k] == 0 || !on ==> inked(glyph, k, width, height) is None
        }),
{
    let k = row * glyph.columns + column;
    vstd::arithmetic::mul::lemma_mul_is_commutative(row, glyph.columns as int);
    vstd::arithmetic::div_mod::lemma_fundamental_div_mod_converse(
        k,
        glyph.columns as int,
        row,
        column,
    );
    assert(k / (glyph.columns as int) == row && k % (glyph.columns as int) == column);
}

/// The dots of a glyph are inked in order, each as dark as it is.
pub proof fn law_dots_are_inked_in_order(glyph: PlacedGlyph, n: int, width: int, height: int)
    requires
        n >= 0,
    ensures
        ink(glyph, 0, width, height).len() == 0,
        inked(glyph, n, width, height) is Some ==> ink(glyph, n + 1, width, height) == ink(
            glyph,
            n,
            width,
            height,
        ).push((inked(glyph, n, width, height)->0, glyph.bitmap@[n])),
        inked(glyph, n, width, height) is None ==> ink(glyph, n + 1, width, height) == ink(
            glyph,
            n,
            width,
            height,
        ),
{
}

/// An output is known by its name and its size where both sides are there.
pub proof fn law_outputs_with_a_size_are_known(outputs: Seq<OutputMode>, o: OutputMode)
    ensures
        ({
            let whole = o.mode is Some && (o.mode->0).0 > 0 && (o.mode->0).1 > 0;
            &&& whole <==> snapshot_of(o) is Some
            &&& whole ==> {
                let s = snapshot_of(o)->0;
                &&& s.name == o.name@ && s.width == (o.mode->0).0 && s.height == (o.mode->0).1
                &&& snapshots_of(outputs.push(o)) == snapshots_of(outputs).push(s)
            }
            &&& !whole ==> snapshots_of(outputs.push(o)) == snapshots_of(outputs)
            &&& snapshots_of(Seq::empty()).len() == 0
        }),
{
    assert(outputs.push(o).drop_last() =~= outputs);
}

/// A window is known by its number where it is mapped and on an output, with its size
/// brought into range.
pub proof fn law_windows_on_outputs_are_known(windows: Seq<ShareableWindow>, w: ShareableWindow)
    ensures
        ({
            let there = w.mapped && w.on_output && w.number is Some;
            let all = window_snapshots(windows.push(w));
            &&& there ==> all.len() == window_snapshots(windows).len() + 1 && all.drop_last()
                == window_snapshots(windows) && all.last().id == w.number->0 && (1 <= w.width
                <= u32::MAX ==> all.last().width == w.width) && (1 <= w.height <= u32::MAX
                ==> all.last().height == w.height)
            &&& !there ==> all == window_snapshots(windows)
            &&& window_snapshots(Seq::empty()).len() == 0
        }),
{
    assert(windows.push(w).drop_last() =~= windows);
    let rest = window_snapshots(windows);
    let all = window_snapshots(windows.push(w));
    if w.mapped && w.on_output && w.number is Some {
        assert(all.drop_last() =~= rest);
    }
}

/// A size is brought into what can be counted, at its nearer end.
pub proof fn law_sizes_are_brought_into_range(n: int)
    ensures
        1 <= n <= u32::MAX ==> extent_of(n) == n,
        n < 1 ==> extent_of(n) == 1,
        n > u32::MAX ==> extent_of(n) == u32::MAX,
{
}

/// The first of the names that is the one looked for is found.
pub proof fn law_the_first_name_is_found(names: Seq<Seq<char>>, name: Seq<char>)
    ensures
        0 <= first_named(names, name) <= names.len(),
        first_named(names, name) < names.len() ==> names[first_named(names, name)] == name,
        forall|j: int| 0 <= j < first_named(names, name) ==> #[trigger] names[j] != name,
    decreases names.len(),
{
    if names.len() > 0 && names[0] != name {
        let rest = names.skip(1);
        law_the_first_name_is_found(rest, name);
        let i = first_named(names, name);
        if i < names.len() {
            assert(rest[i - 1] == names[i]);
        }
        assert forall|j: int| 0 <= j < i implies #[trigger] names[j] != name by {
            if j > 0 {
                assert(rest[j - 1] == names[j]);
            }
        }
    }
}

/// Bytes that are counted without a sign are the same bits with one.
pub proof fn law_signs_keep_the_bits(n: int)
    requires
        0 <= n <= u32::MAX,
    ensures
        n < 0x8000_0000 ==> as_signed(n) == n,
        n >= 0x8000_0000 ==> as_signed(n) + 0x1_0000_0000 == n,
{
}

/// A picture has four bytes for each pixel, as far as they can be counted.
pub proof fn law_pictures_have_four_bytes_for_each_pixel(width: u32, height: u32)
    ensures
        row_bytes(width) == 4 * width,
        row_bytes(width) * height <= usize::MAX ==> picture_bytes(width, height) == row_bytes(width)
            * height,
        row_bytes(width) * height > usize::MAX ==> picture_bytes(width, height) == usize::MAX,
{
}

/// A frame is copied where it has the size of the stream and its rows are long enough, and
/// ends the stream where its size differs.
pub proof fn law_frames_must_have_the_size(frame: ScreencastFrame, width: u32, height: u32)
    ensures
        frame_fits(frame, width, height) <==> frame.width == width && frame.height == height
            && frame.stride >= 4 * width,
        size_changed(Some(frame), width, height) <==> frame.width != width || frame.height != height,
        !size_changed(None, width, height),
{
}

/// A copied frame holds its rows one behind the other without gaps, and nothing behind
/// them changes.
pub proof fn law_rows_are_copied_without_gaps(
    after: Seq<u8>,
    before: Seq<u8>,
    pixels: Seq<u8>,
    stride: u32,
    width: u32,
    rows: int,
    r: int,
    c: int,
    i: int,
)
    requires
        holds_rows(after, before, pixels, stride, width, rows),
        0 <= r < rows,
        0 <= c < 4 * width,
    ensures
        after.len() == before.len(),
        after[r * (4 * width) + c] == pixels[r * stride + c],
        rows * (4 * width) <= i < before.len() ==> after[i] == before[i],
{
    assert(row_bytes(width) == 4 * width);
    assert(r * row_bytes(width) + c == r * (4 * width) + c);
    assert(after[r * row_bytes(width) + c] == pixels[r * stride + c]);
    assert(rows * row_bytes(width) == rows * (4 * width));
}

/// Rows are copied as long as both the picture and the room hold the next one whole.
pub proof fn law_rows_are_copied_as_far_as_they_go(
    rows: int,
    width: u32,
    height: u32,
    stride: u32,
    pixels: nat,
    room: int,
    r: int,
)
    requires
        is_row_count(rows, width, height, stride, pixels, room),
    ensures
        0 <= rows <= height,
        0 <= r < rows ==> r * stride + 4 * width <= pixels && (r + 1) * (4 * width) <= room,
        rows < height ==> rows * stride + 4 * width > pixels || (rows + 1) * (4 * width) > room,
{
    assert(row_bytes(width) == 4 * width);
    assert((r + 1) * (4 * width) == r * (4 * width) + 4 * width) by (nonlinear_arith);
    assert((rows + 1) * (4 * width) == rows * (4 * width) + 4 * width) by (nonlinear_arith);
    if 0 <= r < rows {
        assert(crate::cast_frames::row_fits(r, width, stride, pixels, room));
    }
}

/// What is said to be written are whole rows, and without a frame that fits it is all
/// black.
pub proof fn law_what_is_written_is_rows_or_black(
    after: Seq<u8>,
    before: Seq<u8>,
    frame: ScreencastFrame,
    room: int,
    written: int,
    i: int,
)
    ensures
        copied(after, before, frame, written) ==> exists|rows: int|
            0 <= rows <= frame.height && written == rows * row_bytes(frame.width) && #[trigger]
            holds_rows(after, before, frame.pixels@, frame.stride, frame.width, rows),
        blackened(after, before, room, written) && 0 <= i < written ==> after[i] == 0,
        blackened(after, before, room, written) && written <= i < before.len() ==> after[i]
            == before[i],
        blackened(after, before, room, written) ==> written == room && after.len() == before.len(),
{
    if copied(after, before, frame, written) {
        let rows = choose|rows: int|
            {
                &&& #[trigger] is_row_count(
                    rows,
                    frame.width,
                    frame.height,
                    frame.stride,
                    frame.pixels@.len(),
                    crate::cast_frames::lesser(
                        before.len() as int,
                        picture_bytes(frame.width, frame.height),
                    ),
                )
                &&& written == rows * row_bytes(frame.width)
                &&& holds_rows(after, before, frame.pixels@, frame.stride, frame.width, rows)
            };
        assert(holds_rows(after, before, frame.pixels@, frame.stride, frame.width, rows));
    }
}

/// The sessions of a client are counted and listed one by one.
pub proof fn law_sessions_are_counted_by_owner(
    entries: Seq<ReservationView>,
    owner: Seq<char>,
    path: Seq<char>,
    other: Seq<char>,
)
    requires
        other != owner,
    ensures
        owned_by(Seq::empty(), owner) == 0,
        owned_by(entries.push((owner, path)), owner) == owned_by(entries, owner) + 1,
        owned_by(entries.push((other, path)), owner) == owned_by(entries, owner),
        paths_of(Seq::empty(), owner).len() == 0,
        paths_of(entries.push((owner, path)), owner) == paths_of(entries, owner).push(path),
        paths_of(entries.push((other, path)), owner) == paths_of(entries, owner),
        !not_session(owner, path)((owner, path)),
        not_session(owner, path)((other, path)),
{
    assert(entries.push((owner, path)).drop_last() =~= entries);
    assert(entries.push((other, path)).drop_last() =~= entries);
}

/// Only the client that a session belongs to may use it, and only while it is open.
pub proof fn law_only_the_owner_uses_a_session(session: CastView, sender: Option<String>)
    ensures
        ({
            let r = refusal(session, sender);
            &&& sender is None ==> r == Some(
                (BusErrorKind::Failed, "no sender on screencast DBus call"@),
            )
            &&& sender is Some && (sender->0)@ != session.owner ==> r == Some(
                (
                    BusErrorKind::AccessDenied,
                    "screencast session belongs to another DBus client"@,
                ),
            )
            &&& sender is Some && (sender->0)@ == session.owner && session.closed ==> r == Some(
                (BusErrorKind::Failed, "session is closed"@),
            )
            &&& sender is Some && (sender->0)@ == session.owner && !session.closed ==> r is None
        }),
{
}

/// A stream is as large as the first output or window of its name or number.
pub proof fn law_a_stream_has_the_size_of_its_source(
    outputs: Seq<OutputSnapshot>,
    windows: Seq<WindowSnapshot>,
    name: Seq<char>,
    id: u64,
    i: int,
)
    ensures
        0 <= i < outputs.len() && outputs[i].name@ == name && (forall|j: int|
            0 <= j < i ==> (#[trigger] outputs[j]).name@ != name) ==> output_size(outputs, name)
            == Some((outputs[i].width, outputs[i].height)),
        (forall|j: int| 0 <= j < outputs.len() ==> (#[trigger] outputs[j]).name@ != name)
            ==> output_size(outputs, name) is None,
        0 <= i < windows.len() && windows[i].id == id && (forall|j: int|
            0 <= j < i ==> (#[trigger] windows[j]).id != id) ==> window_size(windows, id) == Some(
            (windows[i].width, windows[i].height),
        ),
        (forall|j: int| 0 <= j < windows.len() ==> (#[trigger] windows[j]).id != id)
            ==> window_size(windows, id) is None,
{
    if 0 <= i < outputs.len() && outputs[i].name@ == name && (forall|j: int|
        0 <= j < i ==> (#[trigger] outputs[j]).name@ != name) {
        lemma_output_size(outputs, name, i);
    }
    if forall|j: int| 0 <= j < outputs.len() ==> (#[trigger] outputs[j]).name@ != name {
        lemma_no_output_size(outputs, name);
    }
    if 0 <= i < windows.len() && windows[i].id == id && (forall|j: int|
        0 <= j < i ==> (#[trigger] windows[j]).id != id) {
        lemma_window_size(windows, id, i);
    }
    if forall|j: int| 0 <= j < windows.len() ==> (#[trigger] windows[j]).id != id {
        lemma_no_window_size(windows, id);
    }
}

proof fn lemma_output_size(outputs: Seq<OutputSnapshot>, name: Seq<char>, i: int)
    requires
        0 <= i < outputs.len(),
        outputs[i].name@ == name,
        forall|j: int| 0 <= j < i ==> (#[trigger] outputs[j]).name@ != name,
    ensures
        output_size(outputs, name) == Some((outputs[i].width, outputs[i].height)),
    decreases outputs.len(),
{
    if i > 0 {
        assert(outputs[0].name@ != name);
        let rest = outputs.skip(1);
        assert(rest[i - 1] == outputs[i]);
        assert forall|j: int| 0 <= j < i - 1 implies (#[trigger] rest[j]).name@ != name by {
            assert(rest[j] == outputs[j + 1]);
        }
        lemma_output_size(rest, name, i - 1);
    }
}

proof fn lemma_no_output_size(outputs: Seq<OutputSnapshot>, name: Seq<char>)
    requires
        forall|j: int| 0 <= j < outputs.len() ==> (#[trigger] outputs[j]).name@ != name,
    ensures
        output_size(outputs, name) is None,
    decreases outputs.len(),
{
    if outputs.len() > 0 {
        assert(outputs[0].name@ != name);
        let rest = outputs.skip(1);
        assert forall|j: int| 0 <= j < rest.len() implies (#[trigger] rest[j]).name@ != name by {
            assert(rest[j] == outputs[j + 1]);
        }
        lemma_no_output_size(rest, name);
    }
}

proof fn lemma_window_size(windows: Seq<WindowSnapshot>, id: u64, i: int)
    requires
        0 <= i < windows.len(),
        windows[i].id == id,
        forall|j: int| 0 <= j < i ==> (#[trigger] windows[j]).id != id,
    ensures
        window_size(windows, id) == Some((windows[i].width, windows[i].height)),
    decreases windows.len(),
{
    if i > 0 {
        assert(windows[0].id != id);
        let rest = windows.skip(1);
        assert(rest[i - 1] == windows[i]);
        assert forall|j: int| 0 <= j < i - 1 implies (#[trigger] rest[j]).id != id by {
            assert(rest[j] == windows[j + 1]);
        }
        lemma_window_size(rest, id, i - 1);
    }
}

proof fn lemma_no_window_size(windows: Seq<WindowSnapshot>, id: u64)
    requires
        forall|j: int| 0 <= j < windows.len() ==> (#[trigger] windows[j]).id != id,
    ensures
        window_size(windows, id) is None,
    decreases windows.len(),
{
    if windows.len() > 0 {
        assert(windows[0].id != id);
        let rest = windows.skip(1);
        assert forall|j: int| 0 <= j < rest.len() implies (#[trigger] rest[j]).id != id by {
            assert(rest[j] == windows[j + 1]);
        }
        lemma_no_window_size(rest, id);
    }
}

/// When a stream starts, the last word on the size of its source counts.
pub proof fn law_the_last_word_on_a_size_counts(
    outputs: Seq<OutputSnapshot>,
    o: OutputSnapshot,
    windows: Seq<WindowSnapshot>,
    w: WindowSnapshot,
    name: Seq<char>,
    id: u64,
)
    ensures
        o.name@ == name ==> source_size(SourceView::Output(name), outputs.push(o), windows) == Some(
            (o.width, o.height),
        ),
        o.name@ != name ==> latest_output_size(outputs.push(o), name) == latest_output_size(
            outputs,
            name,
        ),
        w.id == id ==> source_size(SourceView::Window(id), outputs, windows.push(w)) == Some(
            (w.width, w.height),
        ),
        w.id != id ==> latest_window_size(windows.push(w), id) == latest_window_size(windows, id),
        source_size(SourceView::Output(name), Seq::empty(), windows) is None,
        source_size(SourceView::Window(id), outputs, Seq::empty()) is None,
{
    assert(outputs.push(o).drop_last() =~= outputs);
    assert(windows.push(w).drop_last() =~= windows);
}

/// A stream of an output shows the cursor unless it was asked not to; a stream of a window
/// shows it only where it was asked to. What is not there cannot be streamed.
pub proof fn law_streams_are_of_what_was_asked_for(
    connector: String,
    id: u64,
    cursor: Option<u32>,
    outputs: Seq<OutputSnapshot>,
    windows: Seq<WindowSnapshot>,
)
    ensures
        ({
            let r = stream_request(StreamRequest::Monitor { connector }, cursor, outputs, windows);
            let size = output_size(outputs, connector@);
            &&& size is None ==> r == Err::<(SourceView, u32, u32, u32), Seq<char>>(
                "unknown output connector: "@ + connector@,
            )
            &&& size is Some ==> r is Ok && r->Ok_0.0 == SourceView::Output(connector@)
                && r->Ok_0.1 == (size->0).0 && r->Ok_0.2 == (size->0).1 && (r->Ok_0.3 == 0 <==> cursor
                == Some(0u32)) && r->Ok_0.3 <= 1
        }),
        ({
            let r = stream_request(StreamRequest::Window { id: Some(id) }, cursor, outputs, windows);
            let size = window_size(windows, id);
            &&& size is None ==> r == Err::<(SourceView, u32, u32, u32), Seq<char>>(
                "unknown window-id"@,
            )
            &&& size is Some ==> r is Ok && r->Ok_0.0 == SourceView::Window(id) && r->Ok_0.1 == (
            size->0).0 && r->Ok_0.2 == (size->0).1 && (cursor is None ==> r->Ok_0.3 == 0) && (cursor
                is Some ==> r->Ok_0.3 == cursor->0)
        }),
        stream_request(StreamRequest::Window { id: None }, cursor, outputs, windows) == Err::<
            (SourceView, u32, u32, u32),
            Seq<char>,
        >("missing window-id"@),
{
}

/// A stream whose worker is gone has none; nothing else of it changes.
pub proof fn law_dead_workers_are_dropped(s: StreamView)
    ensures
        without_dead(s, true) == s,
        without_dead(s, false).pipewire is None,
        without_dead(s, false).path == s.path && without_dead(s, false).source == s.source
            && without_dead(s, false).width == s.width && without_dead(s, false).height == s.height
            && without_dead(s, false).cursor_mode == s.cursor_mode,
{
}

/// Every stream without a worker is started, as large as its source is now; the first whose
/// source is gone ends it, and nothing behind that is started.
pub proof fn law_streams_without_a_worker_are_started(
    streams: Seq<StreamView>,
    s: StreamView,
    outputs: Seq<OutputSnapshot>,
    windows: Seq<WindowSnapshot>,
)
    ensures
        ({
            let before = prepared(streams, outputs, windows);
            let after = prepared(streams.push(s), outputs, windows);
            let size = source_size(s.source, outputs, windows);
            &&& prepared(Seq::empty(), outputs, windows).complete
            &&& prepared(Seq::empty(), outputs, windows).specs.len() == 0
            &&& prepared(Seq::empty(), outputs, windows).streams.len() == 0
            &&& !before.complete || s.pipewire is Some ==> after.specs == before.specs
                && after.streams == before.streams.push(s) && after.complete == before.complete
            &&& before.complete && s.pipewire is None && size is None ==> !after.complete
                && after.specs == before.specs && after.streams == before.streams.push(s)
            &&& before.complete && s.pipewire is None && size is Some ==> {
                &&& after.complete
                &&& after.specs == before.specs.push(
                    StartView {
                        path: s.path,
                        source: s.source,
                        width: (size->0).0,
                        height: (size->0).1,
                        draw_cursor: s.cursor_mode != 0,
                    },
                )
                &&& after.streams.len() == before.streams.len() + 1
                &&& after.streams.last().path == s.path && after.streams.last().width == (
                size->0).0 && after.streams.last().height == (size->0).1
            }
        }),
{
    assert(streams.push(s).drop_last() =~= streams);
}

/// The stream of a path is the first that has it.
pub proof fn law_the_stream_of_a_path_is_found(streams: Seq<StreamView>, path: Seq<char>)
    ensures
        stream_at(streams, path) <= streams.len(),
        stream_at(streams, path) < streams.len() ==> streams[stream_at(streams, path) as int].path
            == path,
        forall|j: int| 0 <= j < stream_at(streams, path) ==> (#[trigger] streams[j]).path != path,
    decreases streams.len(),
{
    if streams.len() > 0 && streams[0].path != path {
        let rest = streams.skip(1);
        law_the_stream_of_a_path_is_found(rest, path);
        let i = stream_at(streams, path) as int;
        if i < streams.len() {
            assert(rest[i - 1] == streams[i]);
        }
        assert forall|j: int| 0 <= j < i implies (#[trigger] streams[j]).path != path by {
            if j > 0 {
                assert(rest[j - 1] == streams[j]);
            }
        }
    }
}

/// Each worker that was started goes to the stream of its path, and is announced with its
/// node; one without a stream goes nowhere.
pub proof fn law_workers_go_to_their_streams(
    streams: Seq<StreamView>,
    started: Seq<Started>,
    s: Started,
)
    ensures
        ({
            let before = with_workers(streams, started);
            let after = with_workers(streams, started.push(s));
            let i = stream_at(before, s.path@) as int;
            let told = announced(streams, started);
            &&& with_workers(streams, Seq::empty()) == streams
            &&& announced(streams, Seq::empty()).len() == 0
            &&& i < before.len() ==> after.len() == before.len() && after[i].pipewire == Some(
                s.handle,
            ) && after[i].path == before[i].path && after[i].source == before[i].source
            &&& i >= before.len() ==> after == before
            &&& forall|j: int| 0 <= j < before.len() && j != i ==> #[trigger] after[j] == before[j]
            &&& stream_at(streams, s.path@) < streams.len() ==> announced(streams, started.push(s))
                == told.push((s.path@, s.node))
            &&& stream_at(streams, s.path@) >= streams.len() ==> announced(streams, started.push(s))
                == told
        }),
{
    assert(started.push(s).drop_last() =~= started);
    law_the_stream_of_a_path_is_found(with_workers(streams, started), s.path@);
}

/// What goes wrong at the end is told with what it was about and why.
pub proof fn law_endings_that_fail_are_told(path: Seq<char>, reason: Seq<char>)
    ensures
        cleanup_text(CleanupStep::SignalStream, path, reason) == "could not signal "@ + path
            + " closed: "@ + reason,
        cleanup_text(CleanupStep::StreamPath, path, reason) == "invalid stream path "@ + path
            + ": "@ + reason,
        cleanup_text(CleanupStep::RemoveStream, path, reason) == "could not remove "@ + path + ": "@
            + reason,
        cleanup_text(CleanupStep::SignalSession, path, reason)
            == "could not signal session closed: "@ + reason,
{
}

/// A stream starts only where none is, becomes active only while it starts, and goes back
/// only while it starts; a closed session stays closed.
pub proof fn law_streams_start_once(e: EntryView, worker: u64)
    ensures
        e.stream is Idle ==> begun(e).stream == PortalStreamState::Starting,
        !(e.stream is Idle) ==> begun(e) == e,
        e.stream is Starting ==> completed(e, worker).stream == PortalStreamState::Active(worker)
            && cancelled(e).stream == PortalStreamState::Idle,
        !(e.stream is Starting) ==> completed(e, worker) == e && cancelled(e) == e,
        closed(e).stream == PortalStreamState::Closed,
        begun(e).owner == e.owner && completed(e, worker).owner == e.owner && cancelled(e).owner
            == e.owner && closed(e).owner == e.owner,
        begun(e).registered == e.registered && closed(e).registered == e.registered,
        begun(e).source_types == e.source_types && closed(e).source_types == e.source_types,
        begun(e).draw_cursor == e.draw_cursor && closed(e).draw_cursor == e.draw_cursor,
{
}

/// A session may be used under its path, by the client it belongs to, once it is
/// registered.
pub proof fn law_sessions_are_used_by_their_owner(portal: Portal, path: Seq<char>, sender: Seq<char>)
    ensures
        !portal.sessions.by_path@.contains_key(path) ==> portal.authorized(path, sender) is None,
        portal.sessions.by_path@.contains_key(path) ==> {
            let n = portal.sessions.by_path@[path];
            let e = portal.entries@[n];
            &&& e.owner@ == sender && e.registered ==> portal.authorized(path, sender) == Some(n)
            &&& e.owner@ != sender || !e.registered ==> portal.authorized(path, sender) is None
        },
{
}

/// A session is over once it is closed and no path leads to it.
pub proof fn law_sessions_end_without_a_path(portal: Portal, session: u64, path: Seq<char>)
    ensures
        portal.sessions.by_path@.contains_key(path) && portal.sessions.by_path@[path] == session
            ==> has_path(portal.sessions.by_path@, session) && !is_over(portal, session),
        is_over(portal, session) <==> portal.entries@.contains_key(session)
            && portal.entries@[session].stream is Closed && !has_path(
            portal.sessions.by_path@,
            session,
        ),
{
}

/// When a client goes, its paths go; those of all others stay.
pub proof fn law_paths_go_with_their_owner(
    by_path: Map<Seq<char>, u64>,
    entries: Map<u64, SessionEntry>,
    owner: Seq<char>,
    path: Seq<char>,
)
    requires
        by_path.contains_key(path),
    ensures
        entries[by_path[path]].owner@ == owner ==> !paths_left(by_path, entries, owner).contains_key(
            path,
        ),
        entries[by_path[path]].owner@ != owner ==> paths_left(by_path, entries, owner).contains_key(
            path,
        ) && paths_left(by_path, entries, owner)[path] == by_path[path],
{
}

} // verus!
