//! The pager: what each key does, and how a screenful of bytes is laid out
//! as hex-dump lines. Terminal output is returned as `ScreenOp`s and the
//! file is read and positioned by the caller; the decisions are here.

use vstd::prelude::*;
use vstd::string::*;
use crate::number::{address_text, byte_hex, display_i32, format_address, format_i32, push_byte_hex};
use crate::options::Options;
use crate::terminal::Size;
use crate::text::{push_char, push_str};

verus! {

/// The width taken by the address column and its separators: the eight
/// characters of `0x` and six hex digits, and two spaces, which is the
/// column that `printline` writes.
pub const ANZADD: i32 = 10;

/// A key, as far as the pager tells keys apart.
#[derive(Debug, Clone, Copy)]
pub enum Key {
    Char(char),
    Ctrl(char),
    Up,
    Down,
    Left,
    Right,
    PageUp,
    PageDown,
    End,
    Home,
    Other,
}

/// One thing to do on the terminal.
#[derive(Debug)]
pub enum ScreenOp {
    ClearScreen,
    ClearToEol,
    Highlight,
    Normal,
    Text(String),
}

/// A terminal operation as a plain value.
pub enum Op {
    ClearScreen,
    ClearToEol,
    Highlight,
    Normal,
    Text(Seq<char>),
}

impl View for ScreenOp {
    type V = Op;

    open spec fn view(&self) -> Op {
        match self {
            ScreenOp::ClearScreen => Op::ClearScreen,
            ScreenOp::ClearToEol => Op::ClearToEol,
            ScreenOp::Highlight => Op::Highlight,
            ScreenOp::Normal => Op::Normal,
            ScreenOp::Text(s) => Op::Text(s@),
        }
    }
}

/// The operations of `v` as plain values.
pub open spec fn ops_view(v: Seq<ScreenOp>) -> Seq<Op> {
    v.map_values(|o: ScreenOp| o@)
}

fn emit(out: &mut Vec<ScreenOp>, op: ScreenOp)
    ensures
        ops_view(final(out)@) == ops_view(old(out)@).push(op@),
{
    let ghost before = out@;
    out.push(op);
    assert(ops_view(out@) =~= ops_view(before).push(op@));
}

fn emit_text(out: &mut Vec<ScreenOp>, s: &str)
    ensures
        ops_view(final(out)@) == ops_view(old(out)@).push(Op::Text(s@)),
{
    emit(out, ScreenOp::Text(s.to_string()));
}

/// What the caller does after a key besides the screen operations.
#[derive(Debug)]
pub struct KeyAction {
    /// Position the file at this byte offset.
    pub seek: Option<u64>,
    /// Show the usage text and leave.
    pub help: bool,
}

/// Where printing a screenful stands after one line.
#[derive(Debug, PartialEq, Eq)]
pub enum PrintStep {
    /// Go on; this many lines are still to print.
    More(i32),
    /// Printing is over.
    Done,
    /// The screen ended before a full screen from the start: the caller
    /// reports "file does not exist".
    NotFound,
}

/// The state of the pager.
pub struct BMore {
    pub flags: Options,
    pub name: String,
    pub maxx: i32,
    pub maxy: i32,
    pub mymaxx: i32,
    pub mymaxy: i32,
    pub out_len: i32,
    pub bytepos: i32,
    pub screen_home: i32,
    pub should_quit: bool,
    pub prompt: i32,
    pub to_print: i32,
    pub do_header: bool,
    pub corr: i32,
    pub dup_print_flag: bool,
    pub precount: i32,
    pub z_line: i32,
    pub d_line: i32,
    pub r_line: i32,
}

/// `x` fits in an `i32`.
pub open spec fn fits(x: int) -> bool {
    i32::MIN <= x <= i32::MAX
}

/// `n` spaces.
pub open spec fn spaces(n: int) -> Seq<char> {
    Seq::new(if n > 0 { n as nat } else { 0 }, |i: int| ' ')
}

/// How a byte shows in the text column: printable ASCII as itself; with
/// `-r`, bytes 160 to 254 as the ASCII character 128 below; all else `.`.
pub open spec fn render_byte(c: u8, r_flag: bool) -> char {
    if 32 <= c <= 126 {
        c as char
    } else if r_flag && 160 <= c <= 254 {
        (c - 128) as char
    } else {
        '.'
    }
}

/// The text column for `buf`.
pub open spec fn rendered(buf: Seq<u8>, r_flag: bool) -> Seq<char> {
    Seq::new(buf.len(), |i: int| render_byte(buf[i], r_flag))
}

/// The hex column for `buf`: each byte as two digits and a space.
pub open spec fn hex_column(buf: Seq<u8>) -> Seq<char>
    decreases buf.len(),
{
    if buf.len() == 0 {
        Seq::empty()
    } else {
        hex_column(buf.drop_last()) + byte_hex(buf.last()) + seq![' ']
    }
}

/// The line that `printline` writes: the address, two spaces, then without
/// `-a` the hex column padded to `out_len` slots of three spaces and one
/// more space, then the text column, then with `-a` `out_len` spaces, then
/// CR LF.
pub open spec fn line_text(bytepos: i32, buf: Seq<u8>, out_len: i32, ascii: bool, r_flag: bool) -> Seq<char> {
    let hex_part = if ascii {
        Seq::empty()
    } else {
        hex_column(buf) + spaces(3 * (out_len - buf.len())) + seq![' ']
    };
    let tail = if ascii { spaces(out_len as int) } else { Seq::empty() };
    address_text(bytepos) + seq![' ', ' '] + hex_part + rendered(buf, r_flag) + tail + seq!['\r', '\n']
}

/// How far `printline` moves `bytepos`: the bytes shown, and with `-a`
/// also `out_len` for the padding.
pub open spec fn line_advance(buf_len: int, out_len: i32, ascii: bool) -> int {
    buf_len + if ascii && out_len > 0 { out_len as int } else { 0 }
}

/// `max(precount, 1)`.
pub open spec fn at_least_one(p: i32) -> i32 {
    if p < 1 { 1 } else { p }
}

/// The lines that `f` skips.
pub open spec fn forward_count(s: BMore) -> int {
    s.maxy * at_least_one(s.precount)
}

/// How far `b` moves back: `max(precount, 1)` screenfuls of `maxy + 1`
/// lines of `out_len` bytes.
pub open spec fn back_step(s: BMore) -> int {
    at_least_one(s.precount) * ((s.maxy + 1) * s.out_len)
}

/// Every integer step of `key` on `s` stays within `i32`.
pub open spec fn key_fits(s: BMore, key: Key) -> bool {
    match key {
        Key::Char('L') => fits(s.maxy + 1),
        Key::Char('b') => {
            &&& fits(s.maxy + 1)
            &&& fits((s.maxy + 1) * s.out_len)
            &&& fits(back_step(s))
            &&& fits(s.screen_home - back_step(s))
        },
        Key::Char('f') => {
            &&& fits(forward_count(s))
            &&& fits(forward_count(s) + s.maxy)
            &&& fits((forward_count(s) + s.maxy) * s.out_len)
            &&& fits(s.screen_home + (forward_count(s) + s.maxy) * s.out_len)
        },
        Key::Char('s') => {
            &&& fits(at_least_one(s.precount) + s.maxy)
            &&& fits((at_least_one(s.precount) + s.maxy) * s.out_len)
            &&& fits(s.screen_home + (at_least_one(s.precount) + s.maxy) * s.out_len)
        },
        _ => true,
    }
}

/// What a key does: the new state, the operations, the seek and whether
/// to show the usage.
pub struct KeyEffect {
    pub state: BMore,
    pub ops: Seq<Op>,
    pub seek: Option<u64>,
    pub help: bool,
}

/// The effect of moving the screen to `home` (keys `b`, `f`, `s`, `L`).
pub open spec fn moved_to(s: BMore, home: i32) -> BMore {
    BMore { screen_home: home, bytepos: home, ..s }
}

/// The state, operations and seek after `key`:
/// - `q`, Ctrl-Q: clear to end of line, clear the screen, quit;
/// - space: print `precount` lines if set, else a screenful (`maxy`);
/// - Ctrl-Z, `d`: print `precount` lines if set (and remember it), else
///   the last such count;
/// - `L`: clear, go back to the top of the screen and reprint it;
/// - `b`: go back `max(precount, 1)` screenfuls (never before the start)
///   and reprint a screenful;
/// - `f`: skip `maxy * max(precount, 1)` lines past the screen;
/// - `s`: skip `max(precount, 1)` lines past the screen;
/// - `?`, `h`: show the usage and leave;
/// - any other key: nothing.
pub open spec fn key_effect(s: BMore, key: Key) -> KeyEffect {
    let none = KeyEffect { state: s, ops: Seq::empty(), seek: None, help: false };
    match key {
        Key::Ctrl('Q') | Key::Char('q') => KeyEffect {
            state: BMore { should_quit: true, ..s },
            ops: seq![Op::ClearToEol, Op::ClearScreen],
            ..none
        },
        Key::Char(' ') => KeyEffect {
            state: BMore {
                dup_print_flag: true,
                to_print: if s.precount > 0 { s.precount } else { s.maxy },
                ..s
            },
            ..none
        },
        Key::Ctrl('z') => {
            let z = if s.precount > 0 { s.precount } else { s.z_line };
            KeyEffect { state: BMore { dup_print_flag: true, z_line: z, to_print: z, ..s }, ..none }
        },
        Key::Char('d') => {
            let d = if s.precount > 0 { s.precount } else { s.d_line };
            KeyEffect { state: BMore { d_line: d, to_print: d, ..s }, ..none }
        },
        Key::Char('L') => KeyEffect {
            state: BMore { to_print: (s.maxy + 1) as i32, ..moved_to(s, s.screen_home) },
            ops: seq![Op::ClearScreen],
            seek: Some(s.screen_home as u64),
            help: false,
        },
        Key::Char('b') => {
            let p = at_least_one(s.precount);
            let back = s.screen_home - back_step(s);
            let home: i32 = if back < 0 { 0 } else { back as i32 };
            KeyEffect {
                state: BMore { precount: p, to_print: (s.maxy + 1) as i32, ..moved_to(s, home) },
                ops: seq![
                    Op::Text("...back "@ + display_i32(p) + " page"@),
                    Op::Text(if p > 1 { "s\r\n"@ } else { "\r\n"@ }),
                ],
                seek: Some(home as u64),
                help: false,
            }
        },
        Key::Char('f') => {
            let p = at_least_one(s.precount);
            let count = forward_count(s) as i32;
            let home = (s.screen_home + (count + s.maxy) * s.out_len) as i32;
            KeyEffect {
                state: BMore { precount: p, ..moved_to(s, home) },
                ops: seq![
                    Op::Text("\r"@),
                    Op::ClearToEol,
                    Op::Text("\n...skipping "@ + display_i32(count) + " line"@),
                    Op::Text(if count > 0 { "s\r\n\r\n"@ } else { "\r\n\r\n"@ }),
                ],
                seek: Some(home as u64),
                help: false,
            }
        },
        Key::Char('s') => {
            let p = at_least_one(s.precount);
            let home = (s.screen_home + (p + s.maxy) * s.out_len) as i32;
            KeyEffect {
                state: BMore { precount: p, ..moved_to(s, home) },
                ops: seq![
                    Op::Text("\r"@),
                    Op::ClearToEol,
                    Op::Text("\n...skipping "@ + display_i32(p) + " line"@),
                    Op::Text(if p > 0 { "s\r\n\r\n"@ } else { "\r\n\r\n"@ }),
                ],
                seek: Some(home as u64),
                help: false,
            }
        },
        Key::Char('?') | Key::Char('h') => KeyEffect { help: true, ..none },
        _ => none,
    }
}

/// The invariant that keeps the screen inside the file: the screen's
/// start and the current position are not negative, nor are the screen's
/// height and line width.
pub open spec fn positions_valid(s: BMore) -> bool {
    &&& s.screen_home >= 0
    &&& s.bytepos >= 0
    &&& s.maxy >= 0
    &&& s.out_len >= 0
}

/// The `out_len` that a screen `maxx` columns wide gives: what is left
/// after the address column and one separator, in bytes that fit and
/// rounded down to a multiple of four. With `-a` a byte takes one column,
/// so `((maxx - ANZADD - 1) / 4) * 4`; else it takes four (three in the hex
/// column, one in the text column), so `((maxx - ANZADD - 1) / 16) * 4`;
/// the divisions round towards zero.
pub open spec fn line_width(maxx: i32, ascii: bool) -> int {
    let a = maxx - ANZADD - 1;
    if ascii {
        (if a >= 0 { a / 4 } else { -((-a) / 4) }) * 4
    } else {
        (if a >= 0 { a / 16 } else { -((-a) / 16) }) * 4
    }
}

proof fn lemma_nonneg_product(a: int, b: int)
    requires
        a >= 0,
        b >= 0,
    ensures
        a * b >= 0,
{
    assert(a * b >= 0) by (nonlinear_arith)
        requires
            a >= 0,
            b >= 0,
    ;
}

/// The start of a printout of `lns` lines: the screen is cleared with
/// `-c`; a header with the file's name is written when due, and then two
/// lines fewer are printed if more than `maxy - 2` were asked for. Gives
/// the state, what is written, and the lines left to print.
pub open spec fn print_begin(s: BMore, lns: i32) -> (BMore, Seq<Op>, i32) {
    let corr = if s.do_header { 2 } else { s.corr };
    let header = if s.do_header {
        seq![Op::ClearToEol, Op::Text("::::::::::::::\r\n"@ + s.name@ + "\r\n::::::::::::::\r\n"@)]
    } else {
        Seq::empty()
    };
    let clear = if s.flags.c_flag { seq![Op::ClearScreen] } else { Seq::empty() };
    (
        BMore { do_header: false, corr: 0, ..s },
        clear + header,
        (if corr > 0 && lns > s.maxy - 2 { lns - corr } else { lns as int }) as i32,
    )
}

/// Printing the lines `chunks`, one after another, from state `s` with
/// `lns` lines to print, each step within `i32` and asking for more: the
/// state, what was written, and the lines still to print. `None` when a
/// step would leave `i32` or ends the printout.
pub open spec fn print_lines(s: BMore, chunks: Seq<Seq<u8>>, lns: i32) -> Option<(BMore, Seq<Op>, i32)>
    decreases chunks.len(),
{
    if chunks.len() == 0 {
        Some((s, Seq::empty(), lns))
    } else {
        match print_lines(s, chunks.drop_last(), lns) {
            Some((t, ops, l)) => if !step_fits(t, chunks.last().len() as int, l) {
                None
            } else {
                match print_step(t, chunks.last(), l) {
                    (u, more, PrintStep::More(m)) => Some((u, ops + more, m)),
                    _ => None,
                }
            },
            None => None,
        }
    }
}

/// How a whole printout ended: all lines printed, the screen ended before
/// a full screen from the file's start, or the next line's position would
/// not fit in `i32` (where the program stops with an overflow).
#[derive(Debug, PartialEq, Eq, Structural)]
pub enum PrintEnd {
    Done,
    NotFound,
    Overflow,
}

/// From the state `s0` after the start of a printout, with `l0` lines to
/// print: the lines `chunks` were printed, each asking for more, and then
/// - on a failed read (the last of the reads `rs`) printing stopped there;
/// - on the line `last` that would leave `i32`, printing stopped before it;
/// - else `last` was printed, ending the printout as `r` says.
/// Wherever nothing failed, the bytes printed are the bytes that `rs`
/// delivered, and `rs` splits into `runs`, one for each line: each line
/// holds what its run read when `out_len` bytes were asked for
/// (`chunk_read`), so a line is short only where its reads met the end of
/// the input.
pub open spec fn run_shows(
    s0: BMore,
    l0: i32,
    chunks: Seq<Seq<u8>>,
    last: Seq<u8>,
    runs: Seq<Seq<crate::reader::ReadOutcome>>,
    rs: Seq<crate::reader::ReadOutcome>,
    r: std::io::Result<PrintEnd>,
    fin: BMore,
    ops: Seq<Op>,
) -> bool {
    let want: int = if s0.out_len > 0 { s0.out_len as int } else { 0 };
    &&& r is Ok ==> {
        &&& runs.len() == chunks.len() + 1
        &&& rs == runs.flatten()
        &&& forall|i: int| 0 <= i < chunks.len() ==> crate::reader::chunk_read(#[trigger] runs[i], want, chunks[i])
        &&& crate::reader::chunk_read(runs.last(), want, last)
    }
    &&& match print_lines(s0, chunks, l0) {
        None => false,
        Some((t, printed, l)) => match r {
            Err(e) => fin == t && ops == printed && rs.len() > 0 && (rs.last() matches crate::reader::ReadOutcome::Failed(
                f,
            ) && f == e),
            Ok(PrintEnd::Overflow) => {
                &&& fin == t
                &&& ops == printed
                &&& !step_fits(t, last.len() as int, l)
                &&& crate::reader::delivered_bytes(rs) == chunks.flatten() + last
            },
            Ok(end) => {
                let (u, more, res) = print_step(t, last, l);
                &&& step_fits(t, last.len() as int, l)
                &&& fin == u
                &&& ops == printed + more
                &&& (res is Done && end is Done || res is NotFound && end is NotFound)
                &&& crate::reader::delivered_bytes(rs) == chunks.flatten() + last
            },
        },
    }
}

/// What a printout of `lns` lines from state `s` does, where `rs` are the
/// reads it made, `r` its result, `fin` the state it leaves and `ops` what
/// it writes: the start of `print_begin`, then the lines of `run_shows`.
pub open spec fn printed_as(
    s: BMore,
    lns: i32,
    rs: Seq<crate::reader::ReadOutcome>,
    r: std::io::Result<PrintEnd>,
    fin: BMore,
    ops: Seq<Op>,
) -> bool {
    let (s0, ops0, l0) = print_begin(s, lns);
    &&& ops.len() >= ops0.len()
    &&& ops.take(ops0.len() as int) == ops0
    &&& exists|chunks: Seq<Seq<u8>>, last: Seq<u8>, runs: Seq<Seq<crate::reader::ReadOutcome>>| #[trigger] run_shows(
        s0,
        l0,
        chunks,
        last,
        runs,
        rs,
        r,
        fin,
        ops.skip(ops0.len() as int),
    )
}

/// What was written before a printout, what its start wrote, and the rest.
proof fn lemma_split_ops(all: Seq<Op>, out_in: Seq<Op>, ops0: Seq<Op>, o0: Seq<Op>)
    requires
        o0 == out_in + ops0,
        all.len() >= o0.len(),
        all.take(o0.len() as int) == o0,
    ensures
        all.len() >= out_in.len(),
        all.take(out_in.len() as int) == out_in,
        all.skip(out_in.len() as int).len() >= ops0.len(),
        all.skip(out_in.len() as int).take(ops0.len() as int) == ops0,
        all.skip(out_in.len() as int).skip(ops0.len() as int) == all.skip(o0.len() as int),
{
    assert(all =~= o0 + all.skip(o0.len() as int));
    assert(all.take(out_in.len() as int) =~= out_in);
    assert(all.skip(out_in.len() as int).take(ops0.len() as int) =~= ops0);
    assert(all.skip(out_in.len() as int).skip(ops0.len() as int) =~= all.skip(o0.len() as int));
}

/// Every integer step of `printout_begin` stays within `i32`.
pub open spec fn begin_fits(s: BMore, lns: i32) -> bool {
    let corr = if s.do_header { 2 } else { s.corr };
    corr > 0 ==> fits(s.maxy - 2) && (lns > s.maxy - 2 ==> fits(lns - corr))
}

/// Every integer step of `printout_step` stays within `i32`.
pub open spec fn step_fits(s: BMore, buf_len: int, lns: i32) -> bool {
    buf_len == 0 || {
        let pos = s.bytepos + line_advance(buf_len, s.out_len, s.flags.ascii);
        &&& buf_len <= i32::MAX
        &&& fits(pos)
        &&& fits(lns - 1)
        &&& lns - 1 == 0 ==> fits(s.maxy + 1) && fits((s.maxy + 1) * s.out_len) && fits(pos - (s.maxy + 1) * s.out_len)
    }
}

/// One line of a printout: no bytes end it; otherwise their line is
/// written and `bytepos` moves past it; when it was the last line asked
/// for, the screen's start becomes a screenful (`maxy + 1` lines) before
/// `bytepos`, and if that is before the file's start the screen starts at
/// zero and the caller reports that the file does not exist.
pub open spec fn print_step(s: BMore, buf: Seq<u8>, lns: i32) -> (BMore, Seq<Op>, PrintStep) {
    if buf.len() == 0 {
        (s, Seq::empty(), PrintStep::Done)
    } else {
        let pos = (s.bytepos + line_advance(buf.len() as int, s.out_len, s.flags.ascii)) as i32;
        let ops = seq![Op::Text(line_text(s.bytepos, buf, s.out_len, s.flags.ascii, s.flags.r_flag))];
        let moved = BMore { bytepos: pos, ..s };
        if lns - 1 != 0 {
            (moved, ops, PrintStep::More((lns - 1) as i32))
        } else {
            let home = pos - (s.maxy + 1) * s.out_len;
            if home < 0 {
                (BMore { screen_home: 0, ..moved }, ops, PrintStep::NotFound)
            } else {
                (BMore { screen_home: home as i32, ..moved }, ops, PrintStep::Done)
            }
        }
    }
}

/// How `byte` shows in the text column.
pub fn render(c: u8, r_flag: bool) -> (ch: char)
    ensures
        ch == render_byte(c, r_flag),
{
    if 32 <= c && c <= 126 {
        c as char
    } else if r_flag && (c & 0x80 != 0) && 160 <= c && c <= 254 {
        assert((c & 0x7F) == c - 128) by (bit_vector)
            requires
                160 <= c <= 254,
        ;
        (c & 0x7F) as char
    } else {
        assert(160 <= c <= 254 ==> (c & 0x80) != 0) by (bit_vector);
        '.'
    }
}

impl BMore {
    /// A pager on the given options, before it knows the screen. The sizes
    /// set on the command line (`-lines` for the line width, `+linenum`
    /// for the screen height) are taken from the options.
    pub fn new(flags: Options) -> (b: BMore)
        ensures
            b.flags == flags,
            b.name@ == Seq::<char>::empty(),
            b.maxx == 80 && b.maxy == 25,
            b.mymaxx == flags.mymaxx as i32 && b.mymaxy == flags.mymaxy as i32,
            b.out_len == 0 && b.bytepos == 0 && b.screen_home == 0,
            !b.should_quit && !b.do_header && !b.dup_print_flag,
            b.prompt == 0 && b.to_print == 0 && b.corr == 0 && b.precount == 0,
            b.z_line == 0 && b.d_line == 0 && b.r_line == 0,
    {
        let mymaxx = flags.mymaxx as i32;
        let mymaxy = flags.mymaxy as i32;
        BMore {
            flags,
            name: String::new(),
            maxx: 80,
            maxy: 25,
            mymaxx,
            mymaxy,
            out_len: 0,
            bytepos: 0,
            screen_home: 0,
            should_quit: false,
            prompt: 0,
            to_print: 0,
            do_header: false,
            corr: 0,
            dup_print_flag: false,
            precount: 0,
            z_line: 0,
            d_line: 0,
            r_line: 0,
        }
    }

    /// Takes the screen size; set sizes (`mymaxy`, `mymaxx`) win.
    pub fn set_size(&mut self, size: &Size)
        ensures
            final(self).maxx == size.width as i32,
            final(self).maxy == if old(self).mymaxy > 0 { old(self).mymaxy } else { size.height as i32 },
            final(self).out_len == if old(self).mymaxx > 0 { old(self).mymaxx } else { old(self).out_len },
            *final(self) == (BMore {
                maxx: final(self).maxx,
                maxy: final(self).maxy,
                out_len: final(self).out_len,
                ..*old(self)
            }),
    {
        self.maxx = size.width as i32;
        self.maxy = size.height as i32;
        if self.mymaxy > 0 {
            self.maxy = self.mymaxy;
        }
        if self.mymaxx > 0 {
            self.out_len = self.mymaxx;
        }
    }

    /// Chooses the file to show: the last one named, which is taken off the
    /// list and becomes the pager's `name`; a header is due when more than
    /// one file was named. `None` when no file is left.
    pub fn open_file(&mut self) -> (r: Option<String>)
        ensures
            final(self).do_header == (old(self).do_header || old(self).flags.files.len() > 1),
            old(self).flags.files.len() == 0 ==> r is None && final(self).flags.files@ == old(self).flags.files@
                && final(self).name == old(self).name,
            old(self).flags.files.len() > 0 ==> {
                &&& r matches Some(f) && f == old(self).flags.files@.last()
                &&& final(self).name == old(self).flags.files@.last()
                &&& final(self).flags.files@ == old(self).flags.files@.drop_last()
            },
            *final(self) == (BMore {
                do_header: final(self).do_header,
                name: final(self).name,
                flags: Options { files: final(self).flags.files, ..old(self).flags },
                ..*old(self)
            }),
    {
        if self.flags.files.len() > 1 {
            self.do_header = true;
        }
        match self.flags.files.pop() {
            Some(file_name) => {
                self.name = file_name.clone();
                Some(file_name)
            },
            None => None,
        }
    }

    /// Writes the message `s` highlighted, and drops the prompt.
    pub fn emsg(&mut self, s: &str, out: &mut Vec<ScreenOp>)
        ensures
            ops_view(final(out)@) == ops_view(old(out)@) + seq![
                Op::ClearToEol,
                Op::Highlight,
                Op::Text(s@),
                Op::Normal,
            ],
            *final(self) == (BMore { prompt: 0, ..*old(self) }),
    {
        emit(out, ScreenOp::ClearToEol);
        emit(out, ScreenOp::Highlight);
        emit_text(out, s);
        emit(out, ScreenOp::Normal);
        self.prompt = 0;
    }

    /// The search at start-up: with no pattern it reports
    /// "No previous regular expression"; a pattern is not searched for.
    pub fn bmsearch(&mut self, out: &mut Vec<ScreenOp>)
        ensures
            old(self).flags.ssearch@.len() == 0 ==> {
                &&& ops_view(final(out)@) == ops_view(old(out)@) + seq![
                    Op::ClearToEol,
                    Op::Highlight,
                    Op::Text("No previous regular expression"@),
                    Op::Normal,
                ]
                &&& *final(self) == (BMore { prompt: 0, ..*old(self) })
            },
            old(self).flags.ssearch@.len() > 0 ==> final(out)@ == old(out)@ && *final(self) == *old(self),
    {
        if self.flags.ssearch.as_str().is_empty() {
            self.emsg("No previous regular expression", out);
        }
    }

    /// The start of a run, once the screen size is known and a file is
    /// open: back to the file's start, the scroll sizes from the screen
    /// height, the line width from the screen width, and the start-up
    /// search when asked for.
    pub fn begin(&mut self, out: &mut Vec<ScreenOp>)
        requires
            fits(line_width(old(self).maxx, old(self).flags.ascii)),
            fits(old(self).maxx - ANZADD - 1),
        ensures
            ({
                let maxy = if old(self).mymaxy > 0 { old(self).mymaxy } else { old(self).maxy };
                let out_len = if old(self).mymaxx > 0 {
                    old(self).mymaxx
                } else {
                    line_width(old(self).maxx, old(self).flags.ascii) as i32
                };
                let started = BMore {
                    bytepos: 0,
                    screen_home: 0,
                    maxy,
                    z_line: maxy,
                    d_line: (if maxy >= 0 { maxy / 2 } else { -((-maxy) / 2) }) as i32,
                    r_line: 1,
                    out_len,
                    ..*old(self)
                };
                &&& old(self).flags.init_search && started.flags.ssearch@.len() == 0 ==> {
                    &&& *final(self) == (BMore { prompt: 0, ..started })
                    &&& ops_view(final(out)@) == ops_view(old(out)@) + seq![
                        Op::ClearToEol,
                        Op::Highlight,
                        Op::Text("No previous regular expression"@),
                        Op::Normal,
                    ]
                }
                &&& !(old(self).flags.init_search && started.flags.ssearch@.len() == 0) ==> {
                    &&& *final(self) == started
                    &&& final(out)@ == old(out)@
                }
            }),
            old(self).maxy >= 0 && old(self).mymaxy >= 0 && old(self).mymaxx >= 0
                && line_width(old(self).maxx, old(self).flags.ascii) >= 0
                ==> positions_valid(*final(self)),
    {
        self.bytepos = 0;
        self.screen_home = 0;
        if self.mymaxy > 0 {
            self.maxy = self.mymaxy;
        }
        self.z_line = self.maxy;
        self.d_line = self.maxy / 2;
        self.r_line = 1;
        self.screen_home = self.bytepos;
        if self.flags.ascii {
            self.out_len = ((self.maxx - ANZADD - 1) / 4) * 4;
        } else {
            self.out_len = ((self.maxx - ANZADD - 1) / 16) * 4;
        }
        if self.mymaxx > 0 {
            self.out_len = self.mymaxx;
        }
        if self.flags.init_search {
            self.bmsearch(out);
        }
    }

    /// Whether `begin` stays within `i32` arithmetic.
    pub fn can_begin(&self) -> (b: bool)
        ensures
            b == (fits(line_width(self.maxx, self.flags.ascii)) && fits(self.maxx - ANZADD - 1)),
    {
        let maxx = self.maxx as i64;
        if maxx - 11 < i32::MIN as i64 {
            return false;
        }
        true
    }

    /// The top of each turn: nothing to print yet, and the `--More--`
    /// prompt once a turn has passed (with `-d`, also the key help).
    pub fn prompt_turn(&mut self, out: &mut Vec<ScreenOp>)
        ensures
            *final(self) == (BMore { to_print: 0, dup_print_flag: false, ..*old(self) }),
            old(self).prompt <= 0 ==> final(out)@ == old(out)@,
            old(self).prompt > 0 && !old(self).flags.d_flag ==> ops_view(final(out)@) == ops_view(old(out)@)
                + seq![Op::Highlight, Op::Text("--More--"@), Op::Normal],
            old(self).prompt > 0 && old(self).flags.d_flag ==> ops_view(final(out)@) == ops_view(old(out)@)
                + seq![
                    Op::Highlight,
                    Op::Text("--More--"@),
                    Op::Text("[Press space to continue, 'q' to quit]"@),
                    Op::Normal,
                ],
    {
        self.to_print = 0;
        self.dup_print_flag = false;
        if self.prompt > 0 {
            emit(out, ScreenOp::Highlight);
            emit_text(out, "--More--");
            if self.flags.d_flag {
                emit_text(out, "[Press space to continue, 'q' to quit]");
            }
            emit(out, ScreenOp::Normal);
        }
    }

    /// The end of each turn: the prompt is due from now on, and the
    /// cursor goes back to the line's start.
    pub fn end_turn(&mut self, out: &mut Vec<ScreenOp>)
        ensures
            *final(self) == (BMore { prompt: 1, ..*old(self) }),
            ops_view(final(out)@) == ops_view(old(out)@).push(Op::Text("\r"@)),
    {
        self.prompt = 1;
        emit_text(out, "\r");
    }

    /// Whether `key` can be handled within `i32` arithmetic.
    pub fn can_process(&self, key: &Key) -> (b: bool)
        ensures
            b == key_fits(*self, *key),
    {
        let maxy = self.maxy as i64;
        let out_len = self.out_len as i64;
        let home = self.screen_home as i64;
        let lo = i32::MIN as i64;
        let hi = i32::MAX as i64;
        let p: i64 = if self.precount < 1 { 1 } else { self.precount as i64 };
        match key {
            Key::Char('L') => maxy + 1 <= hi,
            Key::Char('b') => {
                if maxy + 1 > hi {
                    return false;
                }
                assert(-2147483648 * 2147483648 <= (maxy + 1) * out_len <= 2147483648 * 2147483648) by (nonlinear_arith)
                    requires
                        -2147483648 <= maxy + 1 <= 2147483648,
                        -2147483648 <= out_len <= 2147483647,
                {
                }
                let step = (maxy + 1) * out_len;
                if step < lo || step > hi {
                    return false;
                }
                assert(-2147483648 * 2147483647 <= p * step <= 2147483647 * 2147483647) by (nonlinear_arith)
                    requires
                        -2147483648 <= step <= 2147483647,
                        1 <= p <= 2147483647,
                {
                }
                let back = p * step;
                lo <= back && back <= hi && lo <= home - back && home - back <= hi
            },
            Key::Char('f') => {
                assert(-2147483648 * 2147483647 <= maxy * p <= 2147483647 * 2147483647) by (nonlinear_arith)
                    requires
                        -2147483648 <= maxy <= 2147483647,
                        1 <= p <= 2147483647,
                {
                }
                let count = maxy * p;
                if count < lo || count > hi || count + maxy < lo || count + maxy > hi {
                    return false;
                }
                let rows = count + maxy;
                assert(-2147483648 * 2147483648 <= rows * out_len <= 2147483648 * 2147483648) by (nonlinear_arith)
                    requires
                        -2147483648 <= rows <= 2147483647,
                        -2147483648 <= out_len <= 2147483647,
                {
                }
                let step = rows * out_len;
                lo <= step && step <= hi && lo <= home + step && home + step <= hi
            },
            Key::Char('s') => {
                let rows = p + maxy;
                if rows < lo || rows > hi {
                    return false;
                }
                assert(-2147483648 * 2147483648 <= rows * out_len <= 2147483648 * 2147483648) by (nonlinear_arith)
                    requires
                        -2147483648 <= rows <= 2147483647,
                        -2147483648 <= out_len <= 2147483647,
                {
                }
                let step = rows * out_len;
                lo <= step && step <= hi && lo <= home + step && home + step <= hi
            },
            _ => true,
        }
    }

    /// Handles one key; see `key_effect` for each key.
    pub fn process_keypress(&mut self, key: Key, out: &mut Vec<ScreenOp>) -> (a: KeyAction)
        requires
            key_fits(*old(self), key),
        ensures
            *final(self) == key_effect(*old(self), key).state,
            ops_view(final(out)@) == ops_view(old(out)@) + key_effect(*old(self), key).ops,
            a.seek == key_effect(*old(self), key).seek,
            a.help == key_effect(*old(self), key).help,
            positions_valid(*old(self)) ==> positions_valid(*final(self)),
            a.seek matches Some(off) ==> final(self).bytepos == final(self).screen_home
                && off == final(self).screen_home as u64,
    {
        let ghost s = *old(self);
        let ghost before = ops_view(out@);
        match key {
            Key::Ctrl('Q') | Key::Char('q') => {
                emit(out, ScreenOp::ClearToEol);
                emit(out, ScreenOp::ClearScreen);
                self.should_quit = true;
                KeyAction { seek: None, help: false }
            },
            Key::Char(' ') => {
                self.dup_print_flag = true;
                if self.precount > 0 {
                    self.to_print = self.precount;
                } else {
                    self.to_print = self.maxy;
                }
                KeyAction { seek: None, help: false }
            },
            Key::Ctrl('z') => {
                self.dup_print_flag = true;
                if self.precount > 0 {
                    self.z_line = self.precount;
                }
                self.to_print = self.z_line;
                KeyAction { seek: None, help: false }
            },
            Key::Char('d') => {
                if self.precount > 0 {
                    self.d_line = self.precount;
                }
                self.to_print = self.d_line;
                KeyAction { seek: None, help: false }
            },
            Key::Char('L') => {
                emit(out, ScreenOp::ClearScreen);
                self.to_print = self.maxy + 1;
                let off = self.screen_home as u64;
                self.bytepos = self.screen_home;
                KeyAction { seek: Some(off), help: false }
            },
            Key::Char('b') => {
                if self.precount < 1 {
                    self.precount = 1;
                }
                let mut msg = String::new();
                push_str(&mut msg, "...back ");
                let num = format_i32(self.precount);
                push_str(&mut msg, num.as_str());
                push_str(&mut msg, " page");
                emit(out, ScreenOp::Text(msg));
                if self.precount > 1 {
                    emit_text(out, "s\r\n");
                } else {
                    emit_text(out, "\r\n");
                }
                let screenful = (self.maxy + 1) * self.out_len;
                self.screen_home -= self.precount * screenful;
                if self.screen_home < 0 {
                    self.screen_home = 0;
                }
                let off = self.screen_home as u64;
                self.bytepos = self.screen_home;
                self.to_print = self.maxy + 1;
                assert(ops_view(out@) =~= before + key_effect(s, key).ops);
                KeyAction { seek: Some(off), help: false }
            },
            Key::Char('f') => {
                if self.precount < 1 {
                    self.precount = 1;
                }
                let count: i32 = self.maxy * self.precount;
                emit_text(out, "\r");
                emit(out, ScreenOp::ClearToEol);
                let mut msg = String::new();
                push_str(&mut msg, "\n...skipping ");
                let num = format_i32(count);
                push_str(&mut msg, num.as_str());
                push_str(&mut msg, " line");
                emit(out, ScreenOp::Text(msg));
                if count > 0 {
                    emit_text(out, "s\r\n\r\n");
                } else {
                    emit_text(out, "\r\n\r\n");
                }
                proof {
                    if positions_valid(s) {
                        lemma_nonneg_product(s.maxy as int, at_least_one(s.precount) as int);
                        lemma_nonneg_product(count + s.maxy, s.out_len as int);
                    }
                }
                self.screen_home += (count + self.maxy) * self.out_len;
                let off = self.screen_home as u64;
                self.bytepos = self.screen_home;
                assert(ops_view(out@) =~= before + key_effect(s, key).ops);
                KeyAction { seek: Some(off), help: false }
            },
            Key::Char('s') => {
                if self.precount < 1 {
                    self.precount = 1;
                }
                let count: i32 = self.precount;
                emit_text(out, "\r");
                emit(out, ScreenOp::ClearToEol);
                let mut msg = String::new();
                push_str(&mut msg, "\n...skipping ");
                let num = format_i32(count);
                push_str(&mut msg, num.as_str());
                push_str(&mut msg, " line");
                emit(out, ScreenOp::Text(msg));
                if count > 0 {
                    emit_text(out, "s\r\n\r\n");
                } else {
                    emit_text(out, "\r\n\r\n");
                }
                proof {
                    if positions_valid(s) {
                        lemma_nonneg_product(count + s.maxy, s.out_len as int);
                    }
                }
                self.screen_home += (count + self.maxy) * self.out_len;
                let off = self.screen_home as u64;
                self.bytepos = self.screen_home;
                assert(ops_view(out@) =~= before + key_effect(s, key).ops);
                KeyAction { seek: Some(off), help: false }
            },
            Key::Char('?') | Key::Char('h') => {
                KeyAction { seek: None, help: true }
            },
            _ => {
                KeyAction { seek: None, help: false }
            },
        }
    }

    /// Lays out one hex-dump line for `buf` (see `line_text`) and moves
    /// `bytepos` past it (see `line_advance`).
    pub fn printline(&mut self, buf: &Vec<u8>, _num: i32) -> (line: String)
        requires
            buf.len() <= i32::MAX,
            fits(old(self).bytepos + line_advance(buf.len() as int, old(self).out_len, old(self).flags.ascii)),
        ensures
            line@ == line_text(old(self).bytepos, buf@, old(self).out_len, old(self).flags.ascii, old(self).flags.r_flag),
            *final(self) == (BMore {
                bytepos: (old(self).bytepos + line_advance(buf.len() as int, old(self).out_len, old(self).flags.ascii)) as i32,
                ..*old(self)
            }),
    {
        let ghost s = *old(self);
        let mut line = format_address(self.bytepos);
        push_str(&mut line, "  ");
        proof { reveal_strlit("  "); }
        let ghost head = line@;
        assert(head == address_text(s.bytepos) + seq![' ', ' ']);
        let mut print_pos: i32 = 0;
        if !self.flags.ascii {
            let mut i: usize = 0;
            while i < buf.len()
                invariant
                    i <= buf.len() <= i32::MAX,
                    print_pos == i,
                    line@ == head + hex_column(buf@.take(i as int)),
                decreases buf.len() - i,
            {
                push_byte_hex(&mut line, buf[i]);
                push_char(&mut line, ' ');
                assert(buf@.take(i as int + 1).drop_last() == buf@.take(i as int));
                assert(buf@.take(i as int + 1).last() == buf@[i as int]);
                print_pos = print_pos + 1;
                i = i + 1;
            }
            assert(buf@.take(buf.len() as int) == buf@);
            let ghost hexed = line@;
            while print_pos < self.out_len
                invariant
                    buf.len() <= print_pos,
                    print_pos <= self.out_len || print_pos == buf.len(),
                    self.out_len == s.out_len,
                    line@ == hexed + spaces(3 * (print_pos - buf.len())),
                decreases self.out_len - print_pos,
            {
                push_str(&mut line, "   ");
                proof { reveal_strlit("   "); }
                assert(spaces(3 * (print_pos + 1 - buf.len())) =~= spaces(3 * (print_pos - buf.len())) + "   "@);
                print_pos = print_pos + 1;
            }
            assert(spaces(3 * (print_pos - buf.len())) == spaces(3 * (s.out_len - buf.len())));
            push_char(&mut line, ' ');
        }
        let ghost before_text = line@;
        let mut j: usize = 0;
        while j < buf.len()
            invariant
                j <= buf.len() <= i32::MAX,
                *self == (BMore { bytepos: (s.bytepos + j) as i32, ..s }),
                fits(s.bytepos + line_advance(buf.len() as int, s.out_len, s.flags.ascii)),
                line@ == before_text + rendered(buf@.take(j as int), s.flags.r_flag),
            decreases buf.len() - j,
        {
            self.bytepos = self.bytepos + 1;
            let ch = render(buf[j], self.flags.r_flag);
            push_char(&mut line, ch);
            assert(rendered(buf@.take(j as int + 1), s.flags.r_flag)
                =~= rendered(buf@.take(j as int), s.flags.r_flag).push(ch));
            j = j + 1;
        }
        assert(buf@.take(buf.len() as int) == buf@);
        let ghost after_text = line@;
        let ghost start_pos = print_pos;
        assert(s.flags.ascii ==> start_pos == 0);
        assert(!s.flags.ascii ==> start_pos >= s.out_len);
        while print_pos < self.out_len
            invariant
                start_pos <= print_pos,
                print_pos <= self.out_len || print_pos == start_pos,
                s.flags.ascii ==> start_pos == 0,
                !s.flags.ascii ==> start_pos >= s.out_len,
                *self == (BMore { bytepos: (s.bytepos + buf.len() + (print_pos - start_pos)) as i32, ..s }),
                fits(s.bytepos + line_advance(buf.len() as int, s.out_len, s.flags.ascii)),
                line@ == after_text + spaces(print_pos - start_pos),
            decreases self.out_len - print_pos,
        {
            self.bytepos = self.bytepos + 1;
            push_char(&mut line, ' ');
            assert(spaces(print_pos + 1 - start_pos) =~= spaces(print_pos - start_pos).push(' '));
            print_pos = print_pos + 1;
        }
        push_str(&mut line, "\r\n");
        proof {
            reveal_strlit("\r\n");
            if s.flags.ascii {
                assert(spaces(print_pos - start_pos) == spaces(s.out_len as int));
            } else {
                assert(spaces(print_pos - start_pos) =~= Seq::<char>::empty());
            }
        }
        assert(line@ =~= line_text(s.bytepos, buf@, s.out_len, s.flags.ascii, s.flags.r_flag));
        line
    }

    /// The start of printing `lns` lines: the screen is cleared with `-c`;
    /// a header with the file's name is written when due, and then two
    /// lines fewer are printed if more than `maxy - 2` were asked for.
    pub fn printout_begin(&mut self, lns: i32, out: &mut Vec<ScreenOp>) -> (l: i32)
        requires
            begin_fits(*old(self), lns),
        ensures
            ({
                let (st, ops, left) = print_begin(*old(self), lns);
                &&& ops_view(final(out)@) == ops_view(old(out)@) + ops
                &&& l == left
                &&& *final(self) == st
            }),
    {
        let ghost before = ops_view(out@);
        let mut lns = lns;
        if self.flags.c_flag {
            emit(out, ScreenOp::ClearScreen);
        }
        let ghost cleared = ops_view(out@);
        if self.do_header {
            emit(out, ScreenOp::ClearToEol);
            let mut header = String::new();
            push_str(&mut header, "::::::::::::::\r\n");
            push_str(&mut header, self.name.as_str());
            push_str(&mut header, "\r\n::::::::::::::\r\n");
            emit(out, ScreenOp::Text(header));
            self.do_header = false;
            self.corr = 2;
        }
        if self.corr > 0 && lns > self.maxy - 2 {
            lns -= self.corr;
        }
        self.corr = 0;
        assert(ops_view(out@) =~= before + (if old(self).flags.c_flag { seq![Op::ClearScreen] } else { Seq::empty() })
            + (if old(self).do_header {
                seq![Op::ClearToEol, Op::Text("::::::::::::::\r\n"@ + old(self).name@ + "\r\n::::::::::::::\r\n"@)]
            } else {
                Seq::empty()
            }));
        lns
    }

    /// Prints the line for the bytes `buffer` that were just read, with
    /// `lns` lines still to print; see `print_step`.
    pub fn printout_step(&mut self, buffer: &Vec<u8>, lns: i32, out: &mut Vec<ScreenOp>) -> (r: PrintStep)
        requires
            step_fits(*old(self), buffer.len() as int, lns),
        ensures
            ({
                let (st, ops, res) = print_step(*old(self), buffer@, lns);
                &&& *final(self) == st
                &&& ops_view(final(out)@) == ops_view(old(out)@) + ops
                &&& r == res
            }),
            positions_valid(*old(self)) ==> positions_valid(*final(self)),
    {
        let ghost s = *old(self);
        if buffer.len() == 0 {
            return PrintStep::Done;
        }
        let line = self.printline(buffer, buffer.len() as i32);
        emit(out, ScreenOp::Text(line));
        let lns = lns - 1;
        if lns == 0 {
            self.screen_home = self.bytepos - (self.maxy + 1) * self.out_len;
            if self.screen_home < 0 {
                self.screen_home = 0;
                return PrintStep::NotFound;
            }
            return PrintStep::Done;
        }
        PrintStep::More(lns)
    }

    /// Prints `lns` lines of the dump, reading each line's bytes from
    /// `reader`: the start of `printout_begin`, then a line read with
    /// `read_chunk` and printed with `printout_step` until a step ends the
    /// printout, a read fails (its error is returned), or the next line's
    /// position would not fit in `i32`. See `printed_as`.
    pub fn printout<R: std::io::Read>(
        &mut self,
        reader: &mut crate::reader::ByteReader<R>,
        lns: i32,
        out: &mut Vec<ScreenOp>,
    ) -> (r: std::io::Result<PrintEnd>)
        requires
            begin_fits(*old(self), lns),
        ensures
            final(reader).reads().len() >= old(reader).reads().len(),
            final(reader).reads().take(old(reader).reads().len() as int) == old(reader).reads(),
            ops_view(final(out)@).len() >= ops_view(old(out)@).len(),
            ops_view(final(out)@).take(ops_view(old(out)@).len() as int) == ops_view(old(out)@),
            printed_as(
                *old(self),
                lns,
                final(reader).reads().skip(old(reader).reads().len() as int),
                r,
                *final(self),
                ops_view(final(out)@).skip(ops_view(old(out)@).len() as int),
            ),
    {
        let ghost s_in = *self;
        let ghost out_in = ops_view(out@);
        let ghost reads_in = reader.reads();
        let ghost b = reads_in.len() as int;
        let l0 = self.printout_begin(lns, out);
        let ghost s0 = *self;
        let ghost o0 = ops_view(out@);
        let ghost ops0 = print_begin(s_in, lns).1;
        let mut left = l0;
        let ghost mut chunks: Seq<Seq<u8>> = Seq::empty();
        let ghost mut runs: Seq<Seq<crate::reader::ReadOutcome>> = Seq::empty();
        let ghost want: int = if s0.out_len > 0 { s0.out_len as int } else { 0 };
        assert(runs.flatten() =~= Seq::<crate::reader::ReadOutcome>::empty());
        assert(ops_view(out@).skip(o0.len() as int) =~= Seq::<Op>::empty());
        assert(reader.reads().skip(b) =~= Seq::<crate::reader::ReadOutcome>::empty());
        assert(reader.reads().take(b) =~= reads_in);
        assert(chunks.flatten() =~= Seq::<u8>::empty());
        loop
            invariant
                b == reads_in.len(),
                reads_in == old(reader).reads(),
                reader.reads().len() >= b,
                reader.reads().take(b) == reads_in,
                s_in == *old(self),
                out_in == ops_view(old(out)@),
                print_begin(s_in, lns) == (s0, ops0, l0),
                o0 == out_in + ops0,
                ops_view(out@).len() >= o0.len(),
                ops_view(out@).take(o0.len() as int) == o0,
                print_lines(s0, chunks, l0) == Some((*self, ops_view(out@).skip(o0.len() as int), left)),
                crate::reader::delivered_bytes(reader.reads().skip(b)) == chunks.flatten(),
                self.out_len == s0.out_len,
                want == if s0.out_len > 0 { s0.out_len as int } else { 0 },
                runs.len() == chunks.len(),
                reader.reads().skip(b) == runs.flatten(),
                forall|i: int| 0 <= i < chunks.len() ==> crate::reader::chunk_read(#[trigger] runs[i], want, chunks[i]),
            decreases left - i32::MIN,
        {
            let ghost before = reader.reads();
            let ghost out_before = ops_view(out@);
            let res = reader.read_chunk(self.out_len);
            proof {
                let now = reader.reads();
                assert(now.take(b) =~= now.take(before.len() as int).take(b));
                assert(now.skip(b) =~= before.skip(b) + now.skip(before.len() as int));
                crate::reader::lemma_delivered_bytes_concat(before.skip(b), now.skip(before.len() as int));
                runs.lemma_flatten_push(now.skip(before.len() as int));
            }
            let ghost run = reader.reads().skip(before.len() as int);
            let chunk = match res {
                Ok(c) => c,
                Err(e) => {
                    let r: std::io::Result<PrintEnd> = Err(e);
                    proof {
                        let rs = reader.reads().skip(b);
                        assert(rs.last() == reader.reads().skip(before.len() as int).last());
                        lemma_split_ops(ops_view(out@), out_in, ops0, o0);
                        let ops_rest = ops_view(out@).skip(out_in.len() as int).skip(ops0.len() as int);
                        assert(run_shows(s0, l0, chunks, Seq::empty(), runs, rs, r, *self, ops_rest));
                        assert(print_begin(s_in, lns).0 == s0 && print_begin(s_in, lns).1 == ops0 && print_begin(s_in, lns).2 == l0);
                        assert(exists|c: Seq<Seq<u8>>, e: Seq<u8>, g: Seq<Seq<crate::reader::ReadOutcome>>| #[trigger] run_shows(s0, l0, c, e, g, rs, r, *self, ops_rest));
                    }
                    return r;
                },
            };
            proof {
                chunks.lemma_flatten_push(chunk@);
                let all = runs.push(run);
                assert(all.last() == run);
                assert forall|i: int| 0 <= i < chunks.len() implies crate::reader::chunk_read(
                    #[trigger] all[i],
                    want,
                    chunks[i],
                ) by {
                    assert(all[i] == runs[i]);
                }
            }
            if !self.can_step(chunk.len(), left) {
                let r: std::io::Result<PrintEnd> = Ok(PrintEnd::Overflow);
                proof {
                    let rs = reader.reads().skip(b);
                    lemma_split_ops(ops_view(out@), out_in, ops0, o0);
                    let ops_rest = ops_view(out@).skip(out_in.len() as int).skip(ops0.len() as int);
                    assert(run_shows(s0, l0, chunks, chunk@, runs.push(run), rs, r, *self, ops_rest));
                    assert(print_begin(s_in, lns).0 == s0 && print_begin(s_in, lns).1 == ops0 && print_begin(s_in, lns).2 == l0);
                    assert(exists|c: Seq<Seq<u8>>, e: Seq<u8>, g: Seq<Seq<crate::reader::ReadOutcome>>| #[trigger] run_shows(s0, l0, c, e, g, rs, r, *self, ops_rest));
                }
                return r;
            }
            let ghost t = *self;
            let ghost l = left;
            let step = self.printout_step(&chunk, left, out);
            proof {
                assert(ops_view(out@).skip(o0.len() as int) =~= out_before.skip(o0.len() as int) + print_step(t, chunk@, l).1);
                assert(ops_view(out@).take(o0.len() as int) =~= o0);
            }
            match step {
                PrintStep::More(m) => {
                    proof {
                        let old_chunks = chunks;
                        let old_runs = runs;
                        chunks = chunks.push(chunk@);
                        runs = runs.push(run);
                        assert(chunks.drop_last() =~= old_chunks);
                        assert forall|i: int| 0 <= i < chunks.len() implies crate::reader::chunk_read(
                            #[trigger] runs[i],
                            want,
                            chunks[i],
                        ) by {
                            if i < old_chunks.len() {
                                assert(runs[i] == old_runs[i] && chunks[i] == old_chunks[i]);
                            }
                        }
                    }
                    left = m;
                },
                PrintStep::Done => {
                    let r: std::io::Result<PrintEnd> = Ok(PrintEnd::Done);
                    proof {
                        let rs = reader.reads().skip(b);
                        lemma_split_ops(ops_view(out@), out_in, ops0, o0);
                        let ops_rest = ops_view(out@).skip(out_in.len() as int).skip(ops0.len() as int);
                        assert(run_shows(s0, l0, chunks, chunk@, runs.push(run), rs, r, *self, ops_rest));
                        assert(print_begin(s_in, lns).0 == s0 && print_begin(s_in, lns).1 == ops0 && print_begin(s_in, lns).2 == l0);
                        assert(exists|c: Seq<Seq<u8>>, e: Seq<u8>, g: Seq<Seq<crate::reader::ReadOutcome>>| #[trigger] run_shows(s0, l0, c, e, g, rs, r, *self, ops_rest));
                    }
                    return r;
                },
                PrintStep::NotFound => {
                    let r: std::io::Result<PrintEnd> = Ok(PrintEnd::NotFound);
                    proof {
                        let rs = reader.reads().skip(b);
                        lemma_split_ops(ops_view(out@), out_in, ops0, o0);
                        let ops_rest = ops_view(out@).skip(out_in.len() as int).skip(ops0.len() as int);
                        assert(run_shows(s0, l0, chunks, chunk@, runs.push(run), rs, r, *self, ops_rest));
                        assert(print_begin(s_in, lns).0 == s0 && print_begin(s_in, lns).1 == ops0 && print_begin(s_in, lns).2 == l0);
                        assert(exists|c: Seq<Seq<u8>>, e: Seq<u8>, g: Seq<Seq<crate::reader::ReadOutcome>>| #[trigger] run_shows(s0, l0, c, e, g, rs, r, *self, ops_rest));
                    }
                    return r;
                },
            }
        }
    }

    /// Whether `printout_begin` for `lns` lines stays within `i32`
    /// arithmetic.
    pub fn can_begin_printout(&self, lns: i32) -> (b: bool)
        ensures
            b == begin_fits(*self, lns),
    {
        let corr: i64 = if self.do_header { 2 } else { self.corr as i64 };
        if corr <= 0 {
            return true;
        }
        let limit = self.maxy as i64 - 2;
        if limit < i32::MIN as i64 {
            return false;
        }
        lns as i64 <= limit || lns as i64 - corr >= i32::MIN as i64
    }

    /// Whether `printout_step` on `buf_len` bytes with `lns` lines to go
    /// stays within `i32` arithmetic.
    pub fn can_step(&self, buf_len: usize, lns: i32) -> (b: bool)
        ensures
            b == step_fits(*self, buf_len as int, lns),
    {
        if buf_len == 0 {
            return true;
        }
        if buf_len > i32::MAX as usize || lns == i32::MIN {
            return false;
        }
        let adv: i64 = if self.flags.ascii && self.out_len > 0 {
            buf_len as i64 + self.out_len as i64
        } else {
            buf_len as i64
        };
        let pos = self.bytepos as i64 + adv;
        if pos > i32::MAX as i64 || pos < i32::MIN as i64 {
            return false;
        }
        if lns - 1 != 0 {
            return true;
        }
        let maxy = self.maxy as i64;
        if maxy + 1 > i32::MAX as i64 {
            return false;
        }
        let out_len = self.out_len as i64;
        assert(-2147483648 * 2147483648 <= (maxy + 1) * out_len <= 2147483648 * 2147483648) by (nonlinear_arith)
            requires
                -2147483648 <= maxy + 1 <= 2147483648,
                -2147483648 <= out_len <= 2147483647,
        {
        }
        let back = (maxy + 1) * out_len;
        i32::MIN as i64 <= back && back <= i32::MAX as i64 && i32::MIN as i64 <= pos - back
            && pos - back <= i32::MAX as i64
    }
}

} // verus!
