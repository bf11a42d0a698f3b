use rmore::reader::ByteReader;
use rmore::transform::transform;
use rmore::area::ScreenArea;
use rmore::input::{new_file_input, Input, InputDescription};
use rmore::number::{format_i32, parse_u16, parse_usize};
use rmore::options::Options;
use rmore::pager::{BMore, Key};

#[test]
fn decimal_round_trip_example() {
    for n in [0, 7, 10, 65535, 123456789, i32::MAX] {
        let s = format_i32(n);
        assert_eq!(parse_usize(&s).ok(), Some(n as usize));
    }
    assert_eq!(parse_u16(&format_i32(65535)).ok(), Some(65535));
}

fn valid(b: &BMore) -> bool {
    b.screen_home >= 0 && b.bytepos >= 0 && b.maxy >= 0 && b.out_len >= 0
}

#[test]
fn keys_keep_positions_valid_example() {
    let mut b = BMore::new(Options::default());
    b.maxy = 3;
    b.out_len = 8;
    let mut out = Vec::new();
    for k in ['f', 'b', 'b', 's', 'L', 'b', ' ', 'd'] {
        assert!(b.can_process(&Key::Char(k)));
        b.process_keypress(Key::Char(k), &mut out);
        assert!(valid(&b));
    }
    let mut lns = 2;
    loop {
        match b.printout_step(&vec![1, 2, 3], lns, &mut out) {
            rmore::pager::PrintStep::More(l) => lns = l,
            _ => break,
        }
        assert!(valid(&b));
    }
    assert!(valid(&b));
}

#[test]
fn quit_is_final_example() {
    let mut b = BMore::new(Options::default());
    let mut out = Vec::new();
    b.process_keypress(Key::Char('q'), &mut out);
    for k in [Key::Char(' '), Key::Char('b'), Key::Char('f'), Key::Up, Key::Char('L')] {
        b.process_keypress(k, &mut out);
        assert!(b.should_quit);
    }
}

#[test]
fn seek_lands_on_screen_start_example() {
    let mut b = BMore::new(Options::default());
    b.maxy = 2;
    b.out_len = 16;
    b.screen_home = 64;
    b.bytepos = 500;
    let mut out = Vec::new();
    for k in ['L', 'f', 's', 'b'] {
        let a = b.process_keypress(Key::Char(k), &mut out);
        assert_eq!(a.seek, Some(b.screen_home as u64));
        assert_eq!(b.bytepos, b.screen_home);
    }
}

#[test]
fn back_stops_at_start_example() {
    let mut b = BMore::new(Options::default());
    b.out_len = 16;
    b.screen_home = 1;
    let mut out = Vec::new();
    b.process_keypress(Key::Char('b'), &mut out);
    assert_eq!(b.screen_home, 0);
}

#[test]
fn files_in_order_example() {
    let args: Vec<String> = ["p", "z", "-a", "y", "+3", "x", "+/q"].iter().map(|s| s.to_string()).collect();
    let o = Options::from_args(&args);
    assert_eq!(o.files, vec!["z".to_string(), "y".to_string(), "x".to_string()]);
}

#[test]
fn ascii_flag_example() {
    let a: Vec<String> = ["p", "-xa"].iter().map(|s| s.to_string()).collect();
    assert!(Options::from_args(&a).ascii);
    let b: Vec<String> = ["p", "+a", "a", "+/a"].iter().map(|s| s.to_string()).collect();
    assert!(!Options::from_args(&b).ascii);
}

#[test]
fn letter_flags_example() {
    let a: Vec<String> = ["p", "-zd", "c", "-ri"].iter().map(|s| s.to_string()).collect();
    let o = Options::from_args(&a);
    assert!(o.d_flag && o.r_flag && o.ignore_case);
    assert!(!o.c_flag && !o.ascii);
    let b: Vec<String> = ["p", "+cdir", "cdir", "+/cdir"].iter().map(|s| s.to_string()).collect();
    let q = Options::from_args(&b);
    assert!(!q.c_flag && !q.d_flag && !q.ignore_case && !q.r_flag);
}

#[test]
fn file_input_naming_example() {
    let i: Input<()> = new_file_input("dir/f", None, Some(4));
    assert_eq!(i.description().name, "dir/f");
    assert_eq!(i.description().kind().unwrap(), "File");
    assert_eq!(i.metadata.user_provided_name, Some("dir/f".to_string()));
    assert_eq!(i.metadata.size, Some(4));
}

#[test]
fn summary_set_is_read_example() {
    let mut d = InputDescription::new("n");
    d.set_kind(Some("K".to_string()));
    d.set_summary(Some("all".to_string()));
    assert_eq!(d.summary(), "all");
}

#[test]
fn single_number_ranges_example() {
    assert_eq!(format!("{:?}", ScreenArea::parse("42").ok().unwrap()), "ScreenArea { maxx: 42, maxy: 42 }");
    assert_eq!(format!("{:?}", ScreenArea::parse(":42").ok().unwrap()), "ScreenArea { maxx: 0, maxy: 42 }");
}

#[test]
fn hex_lines_line_up_example() {
    let mut b = BMore::new(Options::default());
    b.out_len = 8;
    let full = b.printline(&vec![0x61; 8], 8);
    let short = b.printline(&vec![0x62; 3], 3);
    let col = 11 + 3 * 8;
    assert_eq!(&full[col..col + 8], "aaaaaaaa");
    assert_eq!(&short[col..col + 3], "bbb");
    assert_eq!(full.len(), col + 8 + 2);
    assert_eq!(short.len(), col + 3 + 2);
}

#[test]
fn redraw_is_idempotent_example() {
    let mut b = BMore::new(Options::default());
    b.screen_home = 32;
    b.bytepos = 90;
    let mut out = Vec::new();
    let first = b.process_keypress(Key::Char('L'), &mut out);
    let (home, pos, print) = (b.screen_home, b.bytepos, b.to_print);
    let second = b.process_keypress(Key::Char('L'), &mut out);
    assert_eq!(first.seek, second.seek);
    assert_eq!((b.screen_home, b.bytepos, b.to_print), (home, pos, print));
}

#[test]
fn last_name_wins_example() {
    let i: Input<()> = Input::stdin();
    let i = i.with_name(Some("a")).with_name(Some("b"));
    assert_eq!(i.description().name, "b");
    assert_eq!(i.metadata.user_provided_name, Some("b".to_string()));
}

#[test]
fn transform_of_joined_texts_example() {
    for (a, b) in [("ab", "cd"), ("straße", "ǆx"), ("", "ﬁ1"), ("σς", "")] {
        let joined = format!("{}{}", a, b);
        assert_eq!(transform(&joined), format!("{}{}", transform(b), transform(a)));
    }
}

#[test]
fn printout_covers_bytes_read_example() {
    for (len, lns) in [(0usize, 3), (5, 1), (13, 2), (13, 9), (16, 4)] {
        let mut b = BMore::new(Options::default());
        b.maxy = 1;
        b.out_len = 4;
        b.bytepos = 100;
        let mut reader = ByteReader::new(std::io::Cursor::new(vec![9u8; len]));
        let mut out = Vec::new();
        b.printout(&mut reader, lns, &mut out).unwrap();
        let read = std::cmp::min(len, 4 * lns as usize);
        assert_eq!(b.bytepos as usize, 100 + read);
    }
}
