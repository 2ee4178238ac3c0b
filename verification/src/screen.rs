//! Geometry and labels of the terminal front end's screen: where clips,
//! the playhead and the help popup go, and the text of track rows.

use vstd::prelude::*;

use crate::text::{push_char, push_chars};
use vstd::string::StringSliceAdditionalSpecFns;
use vstd::utf8::{encode_utf8, is_char_boundary};
use crate::track::{AudioClip, Track};

verus! {

broadcast use vstd::string::group_string_axioms;

/// A rectangle of terminal cells.
#[derive(Clone, Copy, Debug, PartialEq, Eq, Structural)]
pub struct Area {
    pub x: u16,
    pub y: u16,
    pub width: u16,
    pub height: u16,
}

/// Width of the help popup in columns.
pub const HELP_WIDTH: u16 = 52;

/// Height of the help popup in rows.
pub const HELP_HEIGHT: u16 = 22;

/// Rows given to each track in the timeline.
pub const TRACK_ROWS: u16 = 2;

pub open spec fn sat_sub16(a: u16, b: u16) -> u16 {
    if a >= b { (a - b) as u16 } else { 0 }
}

pub open spec fn min16(a: u16, b: u16) -> u16 {
    if a <= b { a } else { b }
}

/// The help popup, centred in `area` and clipped to it.
pub open spec fn spec_help_popup(area: Area) -> Area {
    Area {
        x: (area.x + sat_sub16(area.width, HELP_WIDTH) / 2) as u16,
        y: (area.y + sat_sub16(area.height, HELP_HEIGHT) / 2) as u16,
        width: min16(HELP_WIDTH, area.width),
        height: min16(HELP_HEIGHT, area.height),
    }
}

pub fn help_popup(area: Area) -> (r: Area)
    requires
        area.x + sat_sub16(area.width, HELP_WIDTH) / 2 <= u16::MAX,
        area.y + sat_sub16(area.height, HELP_HEIGHT) / 2 <= u16::MAX,
    ensures
        r == spec_help_popup(area),
{
    let x = area.x + area.width.saturating_sub(HELP_WIDTH) / 2;
    let y = area.y + area.height.saturating_sub(HELP_HEIGHT) / 2;
    let width = if HELP_WIDTH <= area.width { HELP_WIDTH } else { area.width };
    let height = if HELP_HEIGHT <= area.height { HELP_HEIGHT } else { area.height };
    Area { x, y, width, height }
}

/// The rows of track `index` in the clip area, two rows per track, clipped
/// at the bottom; `None` from the first track that falls below the area.
pub open spec fn spec_track_rows(area: Area, index: u16) -> Option<Area> {
    let row_y = area.y + index * TRACK_ROWS;
    if row_y >= area.y + area.height {
        None
    } else {
        Some(Area { x: area.x, y: row_y as u16, width: area.width, height: min16(TRACK_ROWS, (area.y + area.height - row_y) as u16) })
    }
}

pub fn track_rows(area: Area, index: u16) -> (r: Option<Area>)
    requires
        area.y + index * TRACK_ROWS <= u16::MAX,
        area.y + area.height <= u16::MAX,
    ensures
        r == spec_track_rows(area, index),
{
    let row_y = area.y + index * TRACK_ROWS;
    let bottom = area.y + area.height;
    if row_y >= bottom {
        return None;
    }
    let left = bottom - row_y;
    let height = if TRACK_ROWS <= left { TRACK_ROWS } else { left };
    Some(Area { x: area.x, y: row_y, width: area.width, height })
}

/// The columns a clip occupies in a timeline of `width` columns that starts
/// at `offset` and shows `spc` samples per column: the first column and the
/// number of visible columns. A clip lasts at least one column; a clip
/// scrolled in from the left loses the columns that are hidden; `None` when
/// nothing of the clip is visible.
pub open spec fn spec_clip_columns(c: AudioClip, offset: u64, spc: u64, width: u16) -> Option<(u16, u16)> {
    let start = c.timeline_start;
    if start < offset && c.spec_end() <= offset {
        None
    } else {
        let start_col: u16 = if start >= offset { ((start - offset) / spc as int) as u16 } else { 0 };
        if start_col >= width {
            None
        } else {
            let len_cols: u16 = if c.spec_effective_length() / spc as nat >= 1 { (c.spec_effective_length() / spc as nat) as u16 } else { 1 };
            let vis_start: u16 = if start < offset {
                sat_sub16(len_cols, (((offset - start) / spc as int) as u16))
            } else {
                len_cols
            };
            let vis = min16(vis_start, (width - start_col) as u16);
            if vis == 0 { None } else { Some((start_col, vis)) }
        }
    }
}

pub fn clip_columns(c: &AudioClip, offset: u64, spc: u64, width: u16) -> (r: Option<(u16, u16)>)
    requires
        spc > 0,
        c.timeline_start < offset ==> c.end_fits(),
    ensures
        r == spec_clip_columns(*c, offset, spc, width),
{
    let start = c.timeline_start;
    let start_col: u16 = if start >= offset {
        ((start - offset) / spc) as u16
    } else if c.timeline_end() > offset {
        0
    } else {
        return None;
    };
    if start_col >= width {
        return None;
    }
    let len = c.effective_length() / spc;
    let len_cols: u16 = if len >= 1 { len as u16 } else { 1 };
    let vis_start: u16 = if start < offset {
        let hidden = (offset - start) / spc;
        len_cols.saturating_sub(hidden as u16)
    } else {
        len_cols
    };
    let room = width - start_col;
    let vis = if vis_start <= room { vis_start } else { room };
    if vis == 0 {
        None
    } else {
        Some((start_col, vis))
    }
}

/// The timeline column of the playhead, if it is visible.
pub open spec fn spec_playhead_column(playhead: u64, offset: u64, spc: u64, width: u16) -> Option<u16> {
    if playhead < offset {
        None
    } else {
        let col = ((playhead - offset) / spc as int) as u16;
        if col >= width { None } else { Some(col) }
    }
}

pub fn playhead_column(playhead: u64, offset: u64, spc: u64, width: u16) -> (r: Option<u16>)
    requires
        spc > 0,
    ensures
        r == spec_playhead_column(playhead, offset, spc, width),
{
    if playhead < offset {
        return None;
    }
    let col = ((playhead - offset) / spc) as u16;
    if col >= width {
        None
    } else {
        Some(col)
    }
}

/// The flags column of a track row: `M` when muted, `S` when soloed, `●`
/// when armed, a space for each flag that is not set.
pub open spec fn spec_track_flags(t: Track) -> Seq<char> {
    seq![if t.muted { 'M' } else { ' ' }, if t.soloed { 'S' } else { ' ' }, if t.arm { '●' } else { ' ' }]
}

pub fn track_flags(t: &Track) -> (r: String)
    ensures
        r@ == spec_track_flags(*t),
{
    let mut flags = String::new();
    if t.muted { push_char(&mut flags, 'M'); } else { push_char(&mut flags, ' '); }
    if t.soloed { push_char(&mut flags, 'S'); } else { push_char(&mut flags, ' '); }
    if t.arm { push_char(&mut flags, '●'); } else { push_char(&mut flags, ' '); }
    proof {
        assert(flags@ =~= spec_track_flags(*t));
    }
    flags
}

/// Which flag colours a track row's flags column: muted before soloed
/// before armed.
#[derive(Clone, Copy, Debug, PartialEq, Eq, Structural)]
pub enum FlagTone {
    Muted,
    Soloed,
    Armed,
    Plain,
}

pub fn flag_tone(t: &Track) -> (r: FlagTone)
    ensures
        r == (if t.muted { FlagTone::Muted } else if t.soloed { FlagTone::Soloed } else if t.arm {
            FlagTone::Armed
        } else {
            FlagTone::Plain
        }),
{
    if t.muted {
        FlagTone::Muted
    } else if t.soloed {
        FlagTone::Soloed
    } else if t.arm {
        FlagTone::Armed
    } else {
        FlagTone::Plain
    }
}

/// Floor division by a positive number brackets the dividend.
proof fn lemma_div_brackets(x: int, d: int)
    requires
        x >= 0,
        d > 0,
    ensures
        0 <= x / d,
        (x / d) * d <= x < (x / d) * d + d,
{
    vstd::arithmetic::div_mod::lemma_fundamental_div_mod(x, d);
    assert((x / d) * d == d * (x / d)) by (nonlinear_arith);
    assert(0 <= x / d) by (nonlinear_arith)
        requires
            x >= 0,
            d > 0,
    ;
}

/// The help popup lies inside the area it is drawn over, is as large as
/// the help text up to the size of the area, and is centred: the margin on
/// its right (below it) is the one on its left (above it), or one more.
pub proof fn lemma_help_popup_centred(area: Area)
    requires
        area.x + area.width <= u16::MAX,
        area.y + area.height <= u16::MAX,
    ensures
        ({
            let p = spec_help_popup(area);
            &&& p.width <= HELP_WIDTH && p.width <= area.width
            &&& (p.width == HELP_WIDTH || p.width == area.width)
            &&& p.height <= HELP_HEIGHT && p.height <= area.height
            &&& (p.height == HELP_HEIGHT || p.height == area.height)
            &&& area.x <= p.x && p.x + p.width <= area.x + area.width
            &&& area.y <= p.y && p.y + p.height <= area.y + area.height
            &&& p.x - area.x <= (area.x + area.width) - (p.x + p.width) <= p.x - area.x + 1
            &&& p.y - area.y <= (area.y + area.height) - (p.y + p.height) <= p.y - area.y + 1
        }),
{
}

/// Track rows tile the clip area from the top: track `i` gets the two rows
/// starting `2 * i` rows down, cut short only by the bottom of the area,
/// and has rows exactly when those start inside the area; rows of
/// different tracks never overlap, and a track lower down has rows only if
/// every track above it has.
pub proof fn lemma_track_rows_tile(area: Area, i: u16, j: u16)
    requires
        area.y + area.height <= u16::MAX,
        area.y + i * TRACK_ROWS <= u16::MAX,
        area.y + j * TRACK_ROWS <= u16::MAX,
        i < j,
    ensures
        spec_track_rows(area, i) is Some <==> 2 * i < area.height,
        spec_track_rows(area, i) matches Some(r) ==> {
            &&& r.x == area.x && r.width == area.width
            &&& r.y == area.y + 2 * i
            &&& 1 <= r.height <= 2
            &&& r.y + r.height <= area.y + area.height
            &&& (r.height == 2 || r.y + r.height == area.y + area.height)
        },
        spec_track_rows(area, j) is Some ==> spec_track_rows(area, i) is Some,
        spec_track_rows(area, i) is Some && spec_track_rows(area, j) is Some
            ==> spec_track_rows(area, i).unwrap().y + spec_track_rows(area, i).unwrap().height <= spec_track_rows(area, j).unwrap().y,
{
}

/// The playhead's column is the one whose samples hold it: it is shown
/// exactly when it lies in the `width` columns from `offset`, in column
/// `col` when `offset + col * spc <= playhead < offset + (col + 1) * spc`.
/// (Stated for playheads fewer than 65536 columns past the view start, the
/// most a column number counts.)
pub proof fn lemma_playhead_column(playhead: u64, offset: u64, spc: u64, width: u16)
    requires
        spc > 0,
        playhead < offset + 65536 * spc,
    ensures
        spec_playhead_column(playhead, offset, spc, width) is Some
            <==> offset <= playhead < offset + width * spc,
        spec_playhead_column(playhead, offset, spc, width) matches Some(col) ==> {
            &&& col < width
            &&& offset + col * spc <= playhead < offset + (col + 1) * spc
        },
{
    if playhead >= offset {
        let x = playhead - offset;
        let q = x / spc as int;
        lemma_div_brackets(x, spc as int);
        assert(q < 65536) by (nonlinear_arith)
            requires
                q * spc <= x,
                x < 65536 * spc,
                spc > 0,
        ;
        assert(q < width <==> x < width * spc) by (nonlinear_arith)
            requires
                q * spc <= x < q * spc + spc,
                spc > 0,
                q >= 0,
        ;
        assert((q + 1) * spc == q * spc + spc) by (nonlinear_arith);
    }
}

/// Where a clip shows on the timeline of `width` columns from `offset`, at
/// `spc` samples a column: a clip that starts inside the view always shows,
/// from the column holding its start; one that starts at or past the view's
/// end does not, nor one that ended before the view starts. What shows lies
/// inside the view, at least one column, and no wider than the clip (a clip
/// shorter than a column gets one); a clip starting in the view shows whole,
/// as many columns as whole columns of its length, unless the view's right
/// edge cuts it; one scrolled in from the left starts at the first column.
/// (Stated where start, view and length are under 65536 columns apart, the
/// most a column number counts.)
pub proof fn lemma_clip_columns(c: AudioClip, offset: u64, spc: u64, width: u16)
    requires
        spc > 0,
        c.end_fits(),
        c.timeline_start < offset + 65536 * spc,
        offset < c.timeline_start + 65536 * spc,
        c.spec_effective_length() < 65536 * spc,
    ensures
        c.timeline_start < offset && c.spec_end() <= offset ==> spec_clip_columns(c, offset, spc, width) is None,
        c.timeline_start >= offset + width * spc ==> spec_clip_columns(c, offset, spc, width) is None,
        offset <= c.timeline_start < offset + width * spc ==> spec_clip_columns(c, offset, spc, width) is Some,
        spec_clip_columns(c, offset, spc, width) matches Some(cv) ==> {
            let col = cv.0;
            let vis = cv.1;
            let len = c.spec_effective_length();
            &&& 1 <= vis && col + vis <= width
            &&& vis == 1 || vis * spc <= len
            &&& c.timeline_start >= offset ==> offset + col * spc <= c.timeline_start < offset + (col + 1) * spc
            &&& c.timeline_start >= offset ==> (vis == width - col || vis * spc <= len < (vis + 1) * spc
                || (vis == 1 && len < spc))
            &&& c.timeline_start < offset ==> col == 0
        },
{
    let ts = c.timeline_start;
    let len = c.spec_effective_length() as int;
    let l = len / spc as int;
    lemma_div_brackets(len, spc as int);
    assert(l < 65536) by (nonlinear_arith)
        requires
            l * spc <= len,
            len < 65536 * spc,
            spc > 0,
    ;
    assert((l + 1) * spc == l * spc + spc) by (nonlinear_arith);
    if ts >= offset {
        let x = ts - offset;
        let q = x / spc as int;
        lemma_div_brackets(x, spc as int);
        assert(q < 65536) by (nonlinear_arith)
            requires
                q * spc <= x,
                x < 65536 * spc,
                spc > 0,
        ;
        assert(q < width <==> x < width * spc) by (nonlinear_arith)
            requires
                q * spc <= x < q * spc + spc,
                spc > 0,
                q >= 0,
        ;
        assert((q + 1) * spc == q * spc + spc) by (nonlinear_arith);
    } else {
        let h = (offset - ts) / spc as int;
        lemma_div_brackets(offset - ts, spc as int);
        assert(h < 65536) by (nonlinear_arith)
            requires
                h * spc <= offset - ts,
                offset - ts < 65536 * spc,
                spc > 0,
        ;
    }
    if spec_clip_columns(c, offset, spc, width) is Some {
        let vis = spec_clip_columns(c, offset, spc, width).unwrap().1;
        if vis != 1 && l >= 1 {
            assert(vis <= l);
            assert(vis * spc <= l * spc) by (nonlinear_arith)
                requires
                    vis <= l,
                    spc > 0,
            ;
        }
    }
}

/// The flags column reads, in order, `M` exactly when the track is muted,
/// `S` exactly when it is soloed and `●` exactly when it is armed, with a
/// space for a flag that is not set.
pub proof fn lemma_track_flags(t: Track)
    ensures
        spec_track_flags(t).len() == 3,
        spec_track_flags(t)[0] == 'M' <==> t.muted,
        spec_track_flags(t)[1] == 'S' <==> t.soloed,
        spec_track_flags(t)[2] == '●' <==> t.arm,
        !t.muted ==> spec_track_flags(t)[0] == ' ',
        !t.soloed ==> spec_track_flags(t)[1] == ' ',
        !t.arm ==> spec_track_flags(t)[2] == ' ',
{
}

/// The first `n` bytes of `s`, which must end on a character boundary.
fn byte_prefix(s: &str, n: usize) -> (r: String)
    requires
        n <= s.spec_bytes().len(),
        is_char_boundary(s.spec_bytes(), n as int),
    ensures
        encode_utf8(r@) == s.spec_bytes().subrange(0, n as int),
{
    let (head, _tail) = s.split_at(n);
    let mut out = String::new();
    push_chars(&mut out, head);
    out
}

/// The label drawn inside a clip `vis_cols` columns wide: none for a clip
/// of four columns or fewer, else the name cut to two columns less than the
/// clip (counted in bytes of its UTF-8 encoding).
pub fn clip_label(name: &str, vis_cols: u16) -> (r: String)
    requires
        vis_cols > 4 && name.spec_bytes().len() > vis_cols - 2 ==> is_char_boundary(name.spec_bytes(), vis_cols - 2),
    ensures
        vis_cols <= 4 ==> r@.len() == 0,
        vis_cols > 4 && name.spec_bytes().len() <= vis_cols - 2 ==> r@ == name@,
        vis_cols > 4 && name.spec_bytes().len() > vis_cols - 2
            ==> encode_utf8(r@) == name.spec_bytes().subrange(0, vis_cols - 2),
{
    if vis_cols > 4 {
        let max_len = (vis_cols as usize) - 2;
        if name.as_bytes().len() > max_len {
            byte_prefix(name, max_len)
        } else {
            let mut out = String::new();
            push_chars(&mut out, name);
            out
        }
    } else {
        String::new()
    }
}

/// Width, in bytes of its UTF-8 encoding, past which a track name is cut.
pub const TRACK_NAME_WIDTH: usize = 10;

/// The name column of a track row: names longer than ten bytes are cut to
/// nine bytes and marked with `…`.
pub fn track_label(name: &str) -> (r: String)
    requires
        name.spec_bytes().len() > TRACK_NAME_WIDTH ==> is_char_boundary(name.spec_bytes(), 9),
    ensures
        name.spec_bytes().len() <= TRACK_NAME_WIDTH ==> r@ == name@,
        name.spec_bytes().len() > TRACK_NAME_WIDTH ==> r@.len() >= 1 && r@.last() == '…'
            && encode_utf8(r@.drop_last()) == name.spec_bytes().subrange(0, 9),
{
    if name.as_bytes().len() > TRACK_NAME_WIDTH {
        let mut out = byte_prefix(name, 9);
        let ghost head = out@;
        push_char(&mut out, '…');
        proof {
            assert(out@.drop_last() =~= head);
        }
        out
    } else {
        let mut out = String::new();
        push_chars(&mut out, name);
        out
    }
}

} // verus!
