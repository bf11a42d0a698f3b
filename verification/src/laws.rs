//! Properties that hold across the library's functions.

use vstd::prelude::*;
use crate::area::{area_parse, parse_result_matches, same_area_result, single_colon_at, AreaParse, ScreenArea};
use crate::error::Error;
use crate::input::{file_input, open_verdict, summary_of, DescriptionModel, KindModel, OpenVerdict};
use crate::number::{
    address_text, all_digits, bounded_number, decimal_digits, decimal_number, digit_char, digits_value,
    hex_digits, is_digit,
};
use crate::options::{options_of, OptionsModel};
use crate::pager::{
    at_least_one, forward_count, hex_column, key_effect, key_fits, line_text, positions_valid,
    begin_fits, print_begin, print_lines, render_byte, print_step, printed_as, rendered, run_shows, spaces, step_fits, BMore, Key,
    PrintEnd,
};
use crate::reader::{chunk_read, delivered_bytes, kept_bytes, lemma_no_end_in_runs, no_end_reported, reports_end, ReadOutcome};
use crate::text::{has_char, lowercased, upper_char, uppercased};
use vstd::seq_lib::lemma_flatten_concat;

verus! {

proof fn lemma_decimal_digits(n: nat)
    ensures
        decimal_digits(n).len() > 0,
        all_digits(decimal_digits(n)),
        digits_value(decimal_digits(n)) == n,
    decreases n,
{
    if n < 10 {
        let s = decimal_digits(n);
        assert(s.drop_last() =~= Seq::<char>::empty());
        assert((digit_char(n as int) as int) == 48 + n);
        assert(crate::number::digit_value(s.last()) == n);
        assert(digits_value(s.drop_last()) == 0);
    } else {
        lemma_decimal_digits(n / 10);
        let s = decimal_digits(n);
        assert(s.drop_last() =~= decimal_digits(n / 10));
        assert((digit_char((n % 10) as int) as int) == 48 + n % 10);
        assert(s.last() == digit_char((n % 10) as int));
        assert(crate::number::digit_value(s.last()) == n % 10);
        assert(digits_value(s) == digits_value(s.drop_last()) * 10 + crate::number::digit_value(s.last()));
        assert(n == (n / 10) * 10 + n % 10);
        assert forall|i: int| 0 <= i < s.len() implies is_digit(#[trigger] s[i]) by {
            if i < s.len() - 1 {
                assert(s[i] == decimal_digits(n / 10)[i]);
            }
        }
    }
}

/// Writing a number in decimal and reading it back gives the number:
/// what `format_i32` writes for a number that is not negative, `str::parse`
/// (see `parse_usize`, `parse_u16`) reads as that number.
pub proof fn lemma_decimal_round_trip(n: nat)
    ensures
        decimal_number(decimal_digits(n)) == Some(n),
{
    lemma_decimal_digits(n);
    assert(decimal_digits(n)[0] != '+') by {
        assert(is_digit(decimal_digits(n)[0]));
    }
}

/// A key never takes the screen before the file's start, nor makes the
/// screen's height or line width negative: the invariant
/// `positions_valid` holds after every key that can be handled.
pub proof fn lemma_keys_keep_positions_valid(s: BMore, key: Key)
    requires
        positions_valid(s),
        key_fits(s, key),
    ensures
        positions_valid(key_effect(s, key).state),
{
    match key {
        Key::Char('f') => {
            let p = at_least_one(s.precount);
            assert(s.maxy * p >= 0) by (nonlinear_arith)
                requires
                    s.maxy >= 0,
                    p >= 1,
            ;
            let rows = forward_count(s) + s.maxy;
            assert(rows * s.out_len >= 0) by (nonlinear_arith)
                requires
                    rows >= 0,
                    s.out_len >= 0,
            ;
        },
        Key::Char('s') => {
            let rows = at_least_one(s.precount) + s.maxy;
            assert(rows * s.out_len >= 0) by (nonlinear_arith)
                requires
                    rows >= 0,
                    s.out_len >= 0,
            ;
        },
        _ => {},
    }
}

/// Printing a line keeps the invariant `positions_valid`.
pub proof fn lemma_printing_keeps_positions_valid(s: BMore, buf: Seq<u8>, lns: i32)
    requires
        positions_valid(s),
        step_fits(s, buf.len() as int, lns),
    ensures
        positions_valid(print_step(s, buf, lns).0),
{
}

/// Once the pager is told to quit, no key makes it go on.
pub proof fn lemma_quit_is_final(s: BMore, key: Key)
    requires
        s.should_quit,
    ensures
        key_effect(s, key).state.should_quit,
{
}

/// Every key that moves in the file moves the screen there too: after the
/// seek, the current position is the screen's start.
pub proof fn lemma_seek_lands_on_screen_start(s: BMore, key: Key)
    ensures
        key_effect(s, key).seek matches Some(off) ==> {
            &&& key_effect(s, key).state.bytepos == key_effect(s, key).state.screen_home
            &&& off == key_effect(s, key).state.screen_home as u64
        },
{
}

/// Going back a screenful never goes before the file's start.
pub proof fn lemma_back_stops_at_start(s: BMore)
    requires
        key_fits(s, Key::Char('b')),
    ensures
        key_effect(s, Key::Char('b')).state.screen_home >= 0,
        key_effect(s, Key::Char('b')).seek matches Some(off) && off as int == key_effect(s, Key::Char('b')).state.screen_home,
{
}

/// An argument that names a file: one that does not start with `-` or `+`.
pub open spec fn is_file_argument(a: Seq<char>) -> bool {
    !(a.len() > 0 && (a[0] == '-' || a[0] == '+'))
}

/// The files that a command line names are its plain arguments, in the
/// order given.
pub proof fn lemma_files_in_order(args: Seq<Seq<char>>)
    ensures
        options_of(args).files == args.filter(|a: Seq<char>| is_file_argument(a)),
    decreases args.len(),
{
    reveal_with_fuel(Seq::<Seq<char>>::filter, 1);
    if args.len() > 0 {
        lemma_files_in_order(args.drop_last());
    }
}

/// The flag that the letter `c` of an option argument sets: `a` for the
/// ASCII view, `c`, `d`, `i` (ignore case) and `r`.
pub open spec fn letter_flag(o: OptionsModel, c: char) -> bool {
    if c == 'a' {
        o.ascii
    } else if c == 'c' {
        o.c_flag
    } else if c == 'd' {
        o.d_flag
    } else if c == 'i' {
        o.ignore_case
    } else {
        o.r_flag
    }
}

/// Each of `-a`, `-c`, `-d`, `-i` and `-r` is set exactly when some option
/// argument (one starting with `-`) holds its letter.
pub proof fn lemma_letter_flags(args: Seq<Seq<char>>, c: char)
    requires
        c == 'a' || c == 'c' || c == 'd' || c == 'i' || c == 'r',
    ensures
        letter_flag(options_of(args), c) <==> exists|i: int| 0 <= i < args.len() && #[trigger] args[i].len() > 0
            && args[i][0] == '-' && has_char(args[i].drop_first(), c),
    decreases args.len(),
{
    if args.len() > 0 {
        lemma_letter_flags(args.drop_last(), c);
        let prev = args.drop_last();
        if letter_flag(options_of(args), c) {
            if !letter_flag(options_of(prev), c) {
                let i = args.len() - 1;
                assert(args[i].len() > 0 && args[i][0] == '-' && has_char(args[i].drop_first(), c));
            } else {
                let i = choose|i: int| 0 <= i < prev.len() && #[trigger] prev[i].len() > 0
                    && prev[i][0] == '-' && has_char(prev[i].drop_first(), c);
                assert(args[i] == prev[i]);
            }
        } else {
            assert forall|i: int| 0 <= i < args.len() && #[trigger] args[i].len() > 0 && args[i][0] == '-'
                implies !has_char(args[i].drop_first(), c) by {
                if i < args.len() - 1 {
                    assert(args[i] == prev[i]);
                }
            }
        }
    }
}

/// A file named on the command line is shown under the name given for it,
/// else under its path, as a `File`, and that name is kept as the name the
/// user gave.
pub proof fn lemma_file_input_naming(path: Seq<char>, size: Option<u64>, name: Option<Seq<char>>)
    ensures
        ({
            let shown = match name {
                Some(n) => n,
                None => path,
            };
            let i = file_input(path, size, name);
            &&& i.kind == KindModel::OrdinaryFile(path)
            &&& i.description.name == shown
            &&& i.description.kind == Some("File"@)
            &&& i.metadata.user_provided_name == Some(shown)
            &&& i.metadata.size == size
            &&& summary_of(i.description) == crate::text::lowercased("File"@) + " '"@ + shown + "'"@
        }),
{
}

/// A summary that was set is the summary given back.
pub proof fn lemma_summary_set_is_read(d: DescriptionModel, s: Seq<char>)
    ensures
        summary_of(DescriptionModel { summary: Some(s), ..d }) == s,
{
}

/// A range that is one number sets both `maxx` and `maxy` to it, and a
/// range `:N` sets only `maxy`.
pub proof fn lemma_single_number_ranges(n: Seq<char>, v: usize)
    requires
        n.len() > 0,
        all_digits(n),
        bounded_number(n, usize::MAX as nat) == Some(v as nat),
    ensures
        area_parse(n) == AreaParse::Area(v, v),
        area_parse(seq![':'] + n) == AreaParse::Area(0, v),
{
    assert(n[0] != ':' && n[0] != '-' && n.last() != ':') by {
        assert(is_digit(n[0]) && is_digit(n[n.len() - 1]));
    }
    assert(crate::area::no_colon(n)) by {
        assert forall|k: int| 0 <= k < n.len() implies n[k] != ':' by {
            assert(is_digit(n[k]));
        }
    }
    let m = seq![':'] + n;
    assert(m.drop_first() =~= n);
    assert(m[1] == n[0]);
    assert(n[0] != '-') by {
        assert(is_digit(n[0]));
    }
}

proof fn lemma_hex_column_len(buf: Seq<u8>)
    ensures
        hex_column(buf).len() == 3 * buf.len(),
    decreases buf.len(),
{
    if buf.len() > 0 {
        lemma_hex_column_len(buf.drop_last());
    }
}

proof fn lemma_hex_digits_bound(n: nat, k: nat)
    requires
        k >= 1,
        n < pow16(k),
    ensures
        hex_digits(n).len() <= k,
    decreases n,
{
    if n >= 16 {
        if k == 1 {
            assert(pow16(1) == 16) by {
                reveal_with_fuel(pow16, 2);
            }
        } else {
            assert(n / 16 < pow16((k - 1) as nat)) by {
                assert(pow16(k) == 16 * pow16((k - 1) as nat));
            }
            lemma_hex_digits_bound(n / 16, (k - 1) as nat);
        }
    }
}

/// `16^k`.
pub open spec fn pow16(k: nat) -> nat
    decreases k,
{
    if k == 0 { 1 } else { 16 * pow16((k - 1) as nat) }
}

/// Without `-a`, every line of a screen is laid out on the same grid: for
/// a position below `0x1000000` and at most `out_len` bytes, the address
/// takes eight characters, the hex column `3 * out_len + 1` after two
/// spaces, and the text column of the bytes starts at `13 + 3 * out_len`.
pub proof fn lemma_hex_lines_line_up(bytepos: i32, buf: Seq<u8>, out_len: i32, r_flag: bool)
    requires
        0 <= bytepos < 0x1000000,
        buf.len() <= out_len,
    ensures
        ({
            let line = line_text(bytepos, buf, out_len, false, r_flag);
            let col = 11 + 3 * out_len;
            &&& line.len() == col + buf.len() + 2
            &&& line.subrange(col, col + buf.len()) == rendered(buf, r_flag)
        }),
{
    assert((bytepos as u32) as nat == bytepos as nat);
    assert(pow16(6) == 0x1000000) by {
        reveal_with_fuel(pow16, 7);
    }
    lemma_hex_digits_bound(bytepos as nat, 6);
    lemma_hex_column_len(buf);
    let a = address_text(bytepos);
    assert(a.len() == 8);
    let line = line_text(bytepos, buf, out_len, false, r_flag);
    let head = a + seq![' ', ' '] + (hex_column(buf) + spaces(3 * (out_len - buf.len())) + seq![' ']);
    assert(head.len() == 11 + 3 * out_len);
    assert(line =~= head + rendered(buf, r_flag) + Seq::<char>::empty() + seq!['\r', '\n']);
    assert(line.subrange(head.len() as int, (head.len() + buf.len()) as int) =~= rendered(buf, r_flag));
}

/// Redrawing twice is redrawing once: `L` on a redrawn screen changes
/// nothing more and seeks to the same place.
pub proof fn lemma_redraw_is_idempotent(s: BMore)
    requires
        key_fits(s, Key::Char('L')),
    ensures
        key_effect(key_effect(s, Key::Char('L')).state, Key::Char('L')).state == key_effect(s, Key::Char('L')).state,
        key_effect(key_effect(s, Key::Char('L')).state, Key::Char('L')).seek == key_effect(s, Key::Char('L')).seek,
{
}

/// Naming an input twice leaves the second name.
pub proof fn lemma_last_name_wins(i: crate::input::InputModel, a: Seq<char>, b: Seq<char>)
    ensures
        crate::input::renamed(crate::input::renamed(i, Some(a)), Some(b)) == crate::input::renamed(i, Some(b)),
{
}

/// A range written `X:Y` in decimal sets `maxx` to `X` and `maxy` to `Y`:
/// what `format_i32` writes for two numbers, joined by `:`, reads back as
/// the area of those numbers.
pub proof fn lemma_range_round_trip(x: usize, y: usize)
    ensures
        area_parse(decimal_digits(x as nat) + seq![':'] + decimal_digits(y as nat)) == AreaParse::Area(x, y),
{
    let dx = decimal_digits(x as nat);
    let dy = decimal_digits(y as nat);
    let s = dx + seq![':'] + dy;
    lemma_decimal_digits(x as nat);
    lemma_decimal_digits(y as nat);
    lemma_decimal_round_trip(x as nat);
    lemma_decimal_round_trip(y as nat);
    let f = dx.len() as int;
    assert(is_digit(dx[0]) && is_digit(dy[dy.len() - 1]));
    assert(s[0] == dx[0]);
    assert(s.last() == dy[dy.len() - 1]);
    assert(s[f] == ':');
    assert(single_colon_at(s, f)) by {
        assert forall|k: int| 0 <= k < s.len() && k != f implies s[k] != ':' by {
            if k < f {
                assert(s[k] == dx[k] && is_digit(dx[k]));
            } else {
                assert(s[k] == dy[k - f - 1] && is_digit(dy[k - f - 1]));
            }
        }
    }
    assert forall|g: int| single_colon_at(s, g) implies g == f by {
        if g != f {
            assert(s[f] != ':');
        }
    }
    assert(s.take(f) =~= dx);
    assert(s.skip(f + 1) =~= dy);
}

/// Reading the same range twice says the same: `ScreenArea::from` and
/// `ScreenArea::parse`, whose results both meet `parse_result_matches`,
/// give the same area, the same message or the same number error.
pub proof fn lemma_range_results_agree(s: Seq<char>, r1: Result<ScreenArea, Error>, r2: Result<ScreenArea, Error>)
    requires
        parse_result_matches(s, r1),
        parse_result_matches(s, r2),
    ensures
        same_area_result(r1, r2),
{
}

/// `transform` of two texts joined is the `transform` of the second
/// followed by that of the first: reversing swaps the parts, and upper
/// case is taken character by character.
pub proof fn lemma_transform_of_joined_texts(a: Seq<char>, b: Seq<char>)
    ensures
        uppercased((a + b).reverse()) == uppercased(b.reverse()) + uppercased(a.reverse()),
{
    let f = |c: char| upper_char(c);
    assert((a + b).reverse() =~= b.reverse() + a.reverse());
    assert((b.reverse() + a.reverse()).map_values(f) =~= b.reverse().map_values(f) + a.reverse().map_values(f));
    lemma_flatten_concat(b.reverse().map_values(f), a.reverse().map_values(f));
}

/// Printing lines one after another moves `bytepos` over their bytes,
/// where a line takes no more room than its bytes (not `-a` with a line
/// width), and leaves the flags and the line width alone.
pub proof fn lemma_lines_advance(s: BMore, chunks: Seq<Seq<u8>>, lns: i32)
    requires
        !(s.flags.ascii && s.out_len > 0),
        print_lines(s, chunks, lns) is Some,
    ensures
        ({
            let t = print_lines(s, chunks, lns)->Some_0.0;
            &&& t.bytepos == s.bytepos + chunks.flatten().len()
            &&& t.flags == s.flags
            &&& t.out_len == s.out_len
        }),
    decreases chunks.len(),
{
    if chunks.len() > 0 {
        lemma_lines_advance(s, chunks.drop_last(), lns);
        chunks.drop_last().lemma_flatten_push(chunks.last());
        assert(chunks.drop_last().push(chunks.last()) =~= chunks);
    } else {
        assert(chunks.flatten() =~= Seq::<u8>::empty());
    }
}

/// A printout that ends (all lines printed, or the screen ended before a
/// full screen from the start) leaves `bytepos` just past the bytes it
/// read: every byte read is printed, once, in the order read. This holds
/// where a line takes no more room than its bytes (not `-a` with a line
/// width, where each line also skips a line's width).
pub proof fn lemma_printout_covers_bytes_read(
    s: BMore,
    lns: i32,
    rs: Seq<ReadOutcome>,
    r: std::io::Result<PrintEnd>,
    fin: BMore,
    ops: Seq<crate::pager::Op>,
)
    requires
        printed_as(s, lns, rs, r, fin, ops),
        r matches Ok(end) && end != PrintEnd::Overflow,
        !(s.flags.ascii && s.out_len > 0),
    ensures
        fin.bytepos == s.bytepos + delivered_bytes(rs).len(),
{
    let (s0, ops0, l0) = print_begin(s, lns);
    let (chunks, last, runs) = choose|chunks: Seq<Seq<u8>>, last: Seq<u8>, runs: Seq<Seq<ReadOutcome>>| #[trigger] run_shows(
        s0,
        l0,
        chunks,
        last,
        runs,
        rs,
        r,
        fin,
        ops.skip(ops0.len() as int),
    );
    lemma_lines_advance(s0, chunks, l0);
}

/// `f` moves the screen forward from where it is: past the screenful on
/// show (`maxy` lines) and `maxy` lines for each count (at least one), of
/// `out_len` bytes each; the position follows, and the file is sought
/// there. How far it moves does not depend on where the screen is.
pub proof fn lemma_forward_moves_from_screen(s: BMore)
    requires
        key_fits(s, Key::Char('f')),
    ensures
        ({
            let e = key_effect(s, Key::Char('f'));
            let k: int = if s.precount < 1 { 1 } else { s.precount as int };
            &&& e.state.screen_home == s.screen_home + (s.maxy * k + s.maxy) * s.out_len
            &&& e.state.bytepos == e.state.screen_home
            &&& e.seek == Some(e.state.screen_home as u64)
        }),
{
}

/// `s` moves the screen forward from where it is by the screenful on show
/// (`maxy` lines) and the count (at least one) of lines of `out_len`
/// bytes.
pub proof fn lemma_skip_moves_from_screen(s: BMore)
    requires
        key_fits(s, Key::Char('s')),
    ensures
        ({
            let e = key_effect(s, Key::Char('s'));
            let k: int = if s.precount < 1 { 1 } else { s.precount as int };
            &&& e.state.screen_home == s.screen_home + (k + s.maxy) * s.out_len
            &&& e.state.bytepos == e.state.screen_home
            &&& e.seek == Some(e.state.screen_home as u64)
        }),
{
}

/// `b` moves the screen back from where it is by the count (at least one)
/// of screenfuls of `maxy + 1` lines of `out_len` bytes, stopping at the
/// file's start.
pub proof fn lemma_back_moves_from_screen(s: BMore)
    requires
        key_fits(s, Key::Char('b')),
    ensures
        ({
            let e = key_effect(s, Key::Char('b'));
            let k: int = if s.precount < 1 { 1 } else { s.precount as int };
            let back = s.screen_home - k * ((s.maxy + 1) * s.out_len);
            &&& e.state.screen_home == if back < 0 { 0 } else { back }
            &&& e.state.bytepos == e.state.screen_home
            &&& e.seek == Some(e.state.screen_home as u64)
        }),
{
}

/// In the text column every printable ASCII byte, the space included,
/// shows as itself, with or without `-r`; with `-r` a byte from 160 to 254
/// shows as the ASCII character 128 below it; any other byte shows as `.`.
pub proof fn lemma_text_column_characters(c: u8, r_flag: bool)
    ensures
        32 <= c <= 126 ==> render_byte(c, r_flag) == c as char,
        r_flag && 160 <= c <= 254 ==> render_byte(c, r_flag) == (c - 128) as char,
        !(32 <= c <= 126) && !(r_flag && 160 <= c <= 254) ==> render_byte(c, r_flag) == '.',
{
}

/// Opening refuses an input only for a reason: a file that is a directory,
/// or an input whose check against standard output found a circle (the
/// check answered `true`); a failed check is passed on. Every other input
/// opens as what it is.
pub proof fn lemma_open_refuses_only_for_a_reason(k: KindModel, is_dir: bool, check: Option<Result<bool, Error>>)
    ensures
        open_verdict(k, is_dir, check) is Refused ==> (k is OrdinaryFile && is_dir) || check == Some(
            Ok::<bool, Error>(true),
        ),
        open_verdict(k, is_dir, check) is CheckFailed ==> check matches Some(Err(_)),
        !(k is OrdinaryFile && is_dir) && !(check matches Some(Err(_))) && check != Some(
            Ok::<bool, Error>(true),
        ) ==> open_verdict(k, is_dir, check) == OpenVerdict::Opened(k),
        k is CustomReader ==> open_verdict(k, is_dir, check) == OpenVerdict::Opened(k),
{
}

/// A description without a summary of its own is summed up by its name
/// (with a kind, the kind in lower case, then the name in quotes); its
/// title has no part in it.
pub proof fn lemma_summary_names_the_input(d: DescriptionModel, t: Option<Seq<char>>)
    ensures
        summary_of(DescriptionModel { title: t, ..d }) == summary_of(d),
        d.summary is None && d.kind is None ==> summary_of(d) == d.name,
        d.summary is None && d.kind is Some ==> summary_of(d) == lowercased(d.kind->0) + " '"@ + d.name
            + "'"@,
{
}

/// Printing lines that all hold bytes writes one operation per line.
pub proof fn lemma_one_op_per_line(s: BMore, chunks: Seq<Seq<u8>>, lns: i32)
    requires
        print_lines(s, chunks, lns) is Some,
        forall|i: int| 0 <= i < chunks.len() ==> #[trigger] chunks[i].len() > 0,
    ensures
        print_lines(s, chunks, lns)->Some_0.1.len() == chunks.len(),
    decreases chunks.len(),
{
    if chunks.len() > 0 {
        let prev = chunks.drop_last();
        assert forall|i: int| 0 <= i < prev.len() implies #[trigger] prev[i].len() > 0 by {
            assert(prev[i] == chunks[i]);
        }
        lemma_one_op_per_line(s, prev, lns);
        assert(chunks.last().len() > 0);
    }
}

/// Lines of `w` bytes each hold `w` bytes per line.
pub proof fn lemma_uniform_lines_length(chunks: Seq<Seq<u8>>, w: int)
    requires
        forall|i: int| 0 <= i < chunks.len() ==> #[trigger] chunks[i].len() == w,
    ensures
        chunks.flatten().len() == chunks.len() * w,
    decreases chunks.len(),
{
    if chunks.len() == 0 {
        assert(chunks.flatten() =~= Seq::<u8>::empty());
    } else {
        let prev = chunks.drop_last();
        assert forall|i: int| 0 <= i < prev.len() implies #[trigger] prev[i].len() == w by {
            assert(prev[i] == chunks[i]);
        }
        lemma_uniform_lines_length(prev, w);
        prev.lemma_flatten_push(chunks.last());
        assert(prev.push(chunks.last()) =~= chunks);
        assert(chunks.len() * w == prev.len() * w + w) by (nonlinear_arith)
            requires
                chunks.len() == prev.len() + 1,
        ;
    }
}

/// A line read while the input did not end holds `want` bytes.
proof fn lemma_full_line(rs: Seq<ReadOutcome>, want: int, v: Seq<u8>)
    requires
        chunk_read(rs, want, v),
        no_end_reported(rs),
    ensures
        v.len() == want,
{
    if rs.len() >= 1 && reports_end(rs.last()) {
        assert(!reports_end(rs[rs.len() - 1]));
    }
    assert(v == kept_bytes(rs));
}

/// Where no read met the end of the input, a printout that ends (all
/// lines printed, or the screen ended before a full screen from the
/// start) prints only full lines: the bytes it read are `out_len` for
/// every line it wrote.
pub proof fn lemma_lines_are_full_until_input_ends(
    s: BMore,
    lns: i32,
    rs: Seq<ReadOutcome>,
    r: std::io::Result<PrintEnd>,
    fin: BMore,
    ops: Seq<crate::pager::Op>,
)
    requires
        printed_as(s, lns, rs, r, fin, ops),
        r matches Ok(end) && end != PrintEnd::Overflow,
        s.out_len > 0,
        no_end_reported(rs),
    ensures
        delivered_bytes(rs).len() == (ops.len() - print_begin(s, lns).1.len()) * s.out_len,
{
    let (s0, ops0, l0) = print_begin(s, lns);
    let (chunks, last, runs) = choose|chunks: Seq<Seq<u8>>, last: Seq<u8>, runs: Seq<Seq<ReadOutcome>>| #[trigger] run_shows(
        s0,
        l0,
        chunks,
        last,
        runs,
        rs,
        r,
        fin,
        ops.skip(ops0.len() as int),
    );
    let w = s.out_len as int;
    assert forall|i: int| 0 <= i < chunks.len() implies #[trigger] chunks[i].len() == w by {
        lemma_no_end_in_runs(runs, i);
        lemma_full_line(runs[i], w, chunks[i]);
    }
    lemma_no_end_in_runs(runs, chunks.len() as int);
    lemma_full_line(runs.last(), w, last);
    lemma_uniform_lines_length(chunks, w);
    lemma_one_op_per_line(s0, chunks, l0);
    assert(ops.skip(ops0.len() as int).len() == ops.len() - ops0.len());
    assert((chunks.len() + 1) * w == chunks.len() * w + w) by (nonlinear_arith);
}

/// The keys that print more: space prints the count given (else a
/// screenful of `maxy` lines); Ctrl-Z and `d` print the count given, which
/// they keep for next time (else the count kept). None of them moves the
/// screen or seeks.
pub proof fn lemma_print_more_keys(s: BMore)
    ensures
        ({
            let e = key_effect(s, Key::Char(' '));
            &&& e.state.to_print == (if s.precount > 0 { s.precount } else { s.maxy })
            &&& e.state.screen_home == s.screen_home && e.state.bytepos == s.bytepos
            &&& e.seek is None && !e.help && e.state.should_quit == s.should_quit
        }),
        ({
            let e = key_effect(s, Key::Ctrl('z'));
            let z = if s.precount > 0 { s.precount } else { s.z_line };
            &&& e.state.to_print == z && e.state.z_line == z
            &&& e.state.screen_home == s.screen_home && e.state.bytepos == s.bytepos
            &&& e.seek is None && !e.help && e.state.should_quit == s.should_quit
        }),
        ({
            let e = key_effect(s, Key::Char('d'));
            let d = if s.precount > 0 { s.precount } else { s.d_line };
            &&& e.state.to_print == d && e.state.d_line == d
            &&& e.state.screen_home == s.screen_home && e.state.bytepos == s.bytepos
            &&& e.seek is None && !e.help && e.state.should_quit == s.should_quit
        }),
{
}

/// `L` and `b` reprint a whole screen (`maxy + 1` lines); `L` from where
/// the screen already is.
pub proof fn lemma_reprinting_keys(s: BMore)
    requires
        key_fits(s, Key::Char('L')),
        key_fits(s, Key::Char('b')),
    ensures
        key_effect(s, Key::Char('L')).state.to_print == s.maxy + 1,
        key_effect(s, Key::Char('L')).state.screen_home == s.screen_home,
        key_effect(s, Key::Char('L')).state.bytepos == s.screen_home,
        key_effect(s, Key::Char('L')).seek == Some(s.screen_home as u64),
        key_effect(s, Key::Char('b')).state.to_print == s.maxy + 1,
{
}

/// Only `q` and Ctrl-Q quit, only `?` and `h` ask for the usage, and a key
/// that the pager does not know changes nothing.
pub proof fn lemma_quit_help_and_other_keys(s: BMore, key: Key)
    requires
        !s.should_quit,
    ensures
        key_effect(s, key).state.should_quit <==> (key == Key::Char('q') || key == Key::Ctrl('Q')),
        key_effect(s, key).help <==> (key == Key::Char('?') || key == Key::Char('h')),
        !(key is Char) && !(key == Key::Ctrl('Q')) && !(key == Key::Ctrl('z')) ==> key_effect(s, key).state == s
            && key_effect(s, key).ops.len() == 0 && key_effect(s, key).seek is None,
{
}

/// Printing lines that each ask for more counts the lines down, one per
/// line, and leaves the screen's height and line width alone.
pub proof fn lemma_lines_count_down(s: BMore, chunks: Seq<Seq<u8>>, lns: i32)
    requires
        print_lines(s, chunks, lns) is Some,
    ensures
        ({
            let (t, ops, left) = print_lines(s, chunks, lns)->Some_0;
            &&& left == lns - chunks.len()
            &&& t.maxy == s.maxy
            &&& t.out_len == s.out_len
        }),
    decreases chunks.len(),
{
    if chunks.len() > 0 {
        lemma_lines_count_down(s, chunks.drop_last(), lns);
    }
}

/// Where no read met the end of the input, a printout that ends prints
/// exactly the lines asked for (two fewer when a header is written and
/// more than `maxy - 2` were asked for, or when a header was just written
/// by an earlier printout), and then the screen starts a screenful
/// (`maxy + 1` lines) before the position reached; when that is before the
/// file's start the screen starts at zero and the printout reports that.
pub proof fn lemma_printout_prints_lines_asked(
    s: BMore,
    lns: i32,
    rs: Seq<ReadOutcome>,
    r: std::io::Result<PrintEnd>,
    fin: BMore,
    ops: Seq<crate::pager::Op>,
)
    requires
        begin_fits(s, lns),
        printed_as(s, lns, rs, r, fin, ops),
        r matches Ok(end) && end != PrintEnd::Overflow,
        s.out_len > 0,
        no_end_reported(rs),
    ensures
        ({
            let corr = if s.do_header { 2 } else { s.corr };
            let asked = if corr > 0 && lns > s.maxy - 2 { lns - corr } else { lns as int };
            let header_ops = print_begin(s, lns).1.len();
            let home = fin.bytepos - (s.maxy + 1) * s.out_len;
            &&& ops.len() - header_ops == asked
            &&& fin.screen_home == if home < 0 { 0 } else { home }
            &&& (r == Ok::<PrintEnd, std::io::Error>(PrintEnd::NotFound)) <==> home < 0
        }),
{
    let (s0, ops0, l0) = print_begin(s, lns);
    let (chunks, last, runs) = choose|chunks: Seq<Seq<u8>>, last: Seq<u8>, runs: Seq<Seq<ReadOutcome>>| #[trigger] run_shows(
        s0,
        l0,
        chunks,
        last,
        runs,
        rs,
        r,
        fin,
        ops.skip(ops0.len() as int),
    );
    let w = s.out_len as int;
    assert forall|i: int| 0 <= i < chunks.len() implies #[trigger] chunks[i].len() > 0 by {
        lemma_no_end_in_runs(runs, i);
        lemma_full_line(runs[i], w, chunks[i]);
    }
    lemma_no_end_in_runs(runs, chunks.len() as int);
    lemma_full_line(runs.last(), w, last);
    lemma_one_op_per_line(s0, chunks, l0);
    lemma_lines_count_down(s0, chunks, l0);
    assert(ops.skip(ops0.len() as int).len() == ops.len() - ops0.len());
}

} // verus!
