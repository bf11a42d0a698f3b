use rmore::pager::PrintEnd;
use rmore::reader::ByteReader;
use rmore::options::Options;
use rmore::pager::{BMore, Key, PrintStep, ScreenOp};
use rmore::terminal::Size;

fn texts(ops: &[ScreenOp]) -> Vec<String> {
    ops.iter()
        .map(|o| match o {
            ScreenOp::ClearScreen => "<clear>".to_string(),
            ScreenOp::ClearToEol => "<eol>".to_string(),
            ScreenOp::Highlight => "<hi>".to_string(),
            ScreenOp::Normal => "<normal>".to_string(),
            ScreenOp::Text(s) => s.clone(),
        })
        .collect()
}

fn pager(ascii: bool) -> BMore {
    let mut o = Options::default();
    o.ascii = ascii;
    BMore::new(o)
}

#[test]
fn new_pager_defaults() {
    let b = pager(false);
    assert_eq!((b.maxx, b.maxy, b.out_len, b.bytepos, b.prompt), (80, 25, 0, 0, 0));
    assert!(!b.should_quit);
}

#[test]
fn command_line_sizes_reach_the_pager() {
    let o = Options::from_args(&vec!["bmore".to_string(), "-8".to_string(), "+5".to_string()]);
    let mut b = BMore::new(o);
    assert_eq!((b.mymaxx, b.mymaxy), (8, 5));
    b.set_size(&Size::from_terminal(80, 26));
    assert_eq!((b.maxx, b.maxy, b.out_len), (80, 5, 8));
    let mut out = Vec::new();
    b.begin(&mut out);
    assert_eq!((b.maxy, b.out_len, b.z_line, b.d_line), (5, 8, 5, 2));
}

#[test]
fn size_and_start() {
    let mut b = pager(false);
    b.set_size(&Size::from_terminal(80, 26));
    assert_eq!((b.maxx, b.maxy), (80, 24));
    let mut out = Vec::new();
    b.begin(&mut out);
    assert_eq!(b.out_len, 16);
    assert_eq!((b.z_line, b.d_line, b.r_line), (24, 12, 1));
    assert!(out.is_empty());
    let mut a = pager(true);
    a.set_size(&Size::from_terminal(20, 10));
    a.begin(&mut out);
    assert_eq!(a.out_len, 8);
    let mut w = pager(true);
    w.set_size(&Size::from_terminal(80, 26));
    w.begin(&mut out);
    assert_eq!(w.out_len, 68);
}

#[test]
fn start_up_search_without_pattern() {
    let mut o = Options::default();
    o.init_search = true;
    let mut b = BMore::new(o);
    b.prompt = 1;
    let mut out = Vec::new();
    b.begin(&mut out);
    assert_eq!(texts(&out), vec!["<eol>", "<hi>", "No previous regular expression", "<normal>"]);
    assert_eq!(b.prompt, 0);
}

#[test]
fn prompt_and_turns() {
    let mut b = pager(false);
    let mut out = Vec::new();
    b.to_print = 5;
    b.prompt_turn(&mut out);
    assert!(out.is_empty());
    assert_eq!(b.to_print, 0);
    b.end_turn(&mut out);
    assert_eq!(b.prompt, 1);
    assert_eq!(texts(&out), vec!["\r"]);
    out.clear();
    b.flags.d_flag = true;
    b.prompt_turn(&mut out);
    assert_eq!(
        texts(&out),
        vec!["<hi>", "--More--", "[Press space to continue, 'q' to quit]", "<normal>"]
    );
}

#[test]
fn quit_keys() {
    let mut b = pager(false);
    let mut out = Vec::new();
    let a = b.process_keypress(Key::Char('q'), &mut out);
    assert!(b.should_quit);
    assert_eq!(texts(&out), vec!["<eol>", "<clear>"]);
    assert_eq!(a.seek, None);
    let mut c = pager(false);
    c.process_keypress(Key::Ctrl('Q'), &mut out);
    assert!(c.should_quit);
}

#[test]
fn space_and_scroll_keys() {
    let mut b = pager(false);
    let mut out = Vec::new();
    b.process_keypress(Key::Char(' '), &mut out);
    assert_eq!(b.to_print, 25);
    assert!(b.dup_print_flag);
    b.precount = 3;
    b.process_keypress(Key::Ctrl('z'), &mut out);
    assert_eq!((b.z_line, b.to_print), (3, 3));
    b.precount = 0;
    b.d_line = 7;
    b.process_keypress(Key::Char('d'), &mut out);
    assert_eq!(b.to_print, 7);
    assert!(out.is_empty());
}

#[test]
fn redraw_goes_to_screen_start() {
    let mut b = pager(false);
    b.screen_home = 48;
    b.bytepos = 200;
    let mut out = Vec::new();
    let a = b.process_keypress(Key::Char('L'), &mut out);
    assert_eq!(a.seek, Some(48));
    assert_eq!((b.bytepos, b.to_print), (48, 26));
    assert_eq!(texts(&out), vec!["<clear>"]);
}

#[test]
fn back_a_page() {
    let mut b = pager(false);
    b.maxy = 1;
    b.out_len = 16;
    b.screen_home = 100;
    let mut out = Vec::new();
    let a = b.process_keypress(Key::Char('b'), &mut out);
    assert_eq!(a.seek, Some(68));
    assert_eq!((b.screen_home, b.bytepos, b.precount, b.to_print), (68, 68, 1, 2));
    assert_eq!(texts(&out), vec!["...back 1 page", "\r\n"]);
}

#[test]
fn back_several_pages() {
    let mut b = pager(false);
    b.maxy = 10;
    b.out_len = 4;
    b.screen_home = 1000;
    b.precount = 2;
    let mut out = Vec::new();
    let a = b.process_keypress(Key::Char('b'), &mut out);
    assert_eq!(a.seek, Some(912));
    assert_eq!((b.screen_home, b.bytepos, b.precount, b.to_print), (912, 912, 2, 11));
    assert_eq!(texts(&out), vec!["...back 2 page", "s\r\n"]);
}

#[test]
fn back_never_before_start() {
    let mut b = pager(false);
    b.out_len = 16;
    b.screen_home = 10;
    b.precount = 2;
    let mut out = Vec::new();
    let a = b.process_keypress(Key::Char('b'), &mut out);
    assert_eq!(a.seek, Some(0));
    assert_eq!(b.screen_home, 0);
    assert_eq!(texts(&out), vec!["...back 2 page", "s\r\n"]);
}

#[test]
fn forward_keys() {
    let mut b = pager(false);
    b.maxy = 2;
    b.out_len = 4;
    let mut out = Vec::new();
    let a = b.process_keypress(Key::Char('f'), &mut out);
    assert_eq!(a.seek, Some(16));
    assert_eq!(texts(&out), vec!["\r", "<eol>", "\n...skipping 2 line", "s\r\n\r\n"]);
    out.clear();
    let a = b.process_keypress(Key::Char('s'), &mut out);
    assert_eq!(a.seek, Some(28));
    assert_eq!(b.bytepos, 28);
    assert_eq!(texts(&out), vec!["\r", "<eol>", "\n...skipping 1 line", "s\r\n\r\n"]);
}

#[test]
fn help_and_other_keys() {
    let mut b = pager(false);
    let mut out = Vec::new();
    assert!(b.process_keypress(Key::Char('?'), &mut out).help);
    assert!(b.process_keypress(Key::Char('h'), &mut out).help);
    let a = b.process_keypress(Key::Up, &mut out);
    assert!(!a.help && a.seek.is_none());
    assert!(out.is_empty());
}

#[test]
fn overflowing_keys_are_detected() {
    let mut b = pager(false);
    b.maxy = i32::MAX;
    assert!(!b.can_process(&Key::Char('L')));
    assert!(b.can_process(&Key::Char('q')));
    b.maxy = 10;
    b.out_len = 16;
    b.screen_home = i32::MAX - 10;
    assert!(!b.can_process(&Key::Char('f')));
    assert!(b.can_process(&Key::Char('b')));
}

#[test]
fn hex_line_layout() {
    let mut b = pager(false);
    b.out_len = 4;
    let line = b.printline(&vec![0x41, 0x00, 0xa1], 3);
    assert_eq!(line, "0x000000  41 00 a1     A..\r\n");
    assert_eq!(b.bytepos, 3);
    b.flags.r_flag = true;
    let line = b.printline(&vec![0xa1, 0x7e], 2);
    assert_eq!(line, "0x000003  a1 7e        !~\r\n");
    assert_eq!(b.bytepos, 5);
}

#[test]
fn ascii_line_layout() {
    let mut b = pager(true);
    b.out_len = 4;
    let line = b.printline(&vec![0x41, 0x42], 2);
    assert_eq!(line, "0x000000  AB    \r\n");
    assert_eq!(b.bytepos, 6);
}

#[test]
fn printout_with_header() {
    let mut b = pager(false);
    b.maxy = 10;
    b.do_header = true;
    b.name = "f.bin".to_string();
    b.flags.c_flag = true;
    let mut out = Vec::new();
    let l = b.printout_begin(11, &mut out);
    assert_eq!(l, 9);
    assert_eq!(texts(&out), vec!["<clear>", "<eol>", "::::::::::::::\r\nf.bin\r\n::::::::::::::\r\n"]);
    assert!(!b.do_header);
    assert_eq!(b.corr, 0);
}

#[test]
fn printout_steps() {
    let mut b = pager(false);
    b.maxy = 1;
    b.out_len = 2;
    let mut out = Vec::new();
    assert_eq!(b.printout_step(&vec![1, 2], 2, &mut out), PrintStep::More(1));
    assert_eq!(b.printout_step(&vec![3, 4], 1, &mut out), PrintStep::Done);
    assert_eq!(b.screen_home, 0);
    assert_eq!(b.printout_step(&vec![5], 1, &mut out), PrintStep::Done);
    assert_eq!(b.bytepos, 5);
    assert_eq!(b.screen_home, 1);
    assert_eq!(b.printout_step(&vec![], 1, &mut out), PrintStep::Done);
    assert_eq!(out.len(), 3);
    assert!(b.can_step(1, 1));
    assert!(!b.can_step(1, i32::MIN));
}

#[test]
fn printout_before_start_is_not_found() {
    let mut b = pager(false);
    b.maxy = 5;
    b.out_len = 4;
    let mut out = Vec::new();
    assert_eq!(b.printout_step(&vec![1], 1, &mut out), PrintStep::NotFound);
    assert_eq!(b.screen_home, 0);
}

#[test]
fn choosing_files() {
    let mut o = Options::default();
    o.files = vec!["a".to_string(), "b".to_string()];
    let mut b = BMore::new(o);
    assert_eq!(b.open_file(), Some("b".to_string()));
    assert!(b.do_header);
    assert_eq!(b.name, "b");
    assert_eq!(b.open_file(), Some("a".to_string()));
    assert_eq!(b.open_file(), None);
}

#[test]
fn emsg_drops_the_prompt() {
    let mut b = pager(false);
    b.prompt = 1;
    let mut out = Vec::new();
    b.emsg("oops", &mut out);
    assert_eq!(b.prompt, 0);
    assert_eq!(texts(&out), vec!["<eol>", "<hi>", "oops", "<normal>"]);
    b.flags.ssearch = "x".to_string();
    out.clear();
    b.bmsearch(&mut out);
    assert!(out.is_empty());
}

#[test]
fn terminal_size_keeps_two_rows() {
    let s = Size::from_terminal(80, 1);
    assert_eq!((s.width, s.height), (80, 0));
}

#[test]
fn start_fits_in_i32() {
    let mut b = pager(true);
    assert!(b.can_begin());
    b.maxx = i32::MAX;
    assert!(b.can_begin());
    b.maxx = i32::MIN + 10;
    assert!(!b.can_begin());
    b.maxx = i32::MIN + 11;
    assert!(b.can_begin());
    let mut c = pager(false);
    c.maxx = i32::MIN;
    assert!(!c.can_begin());
    c.maxx = i32::MAX;
    assert!(c.can_begin());
    assert!(c.can_begin_printout(5));
    c.do_header = true;
    c.maxy = i32::MIN;
    assert!(!c.can_begin_printout(5));
}

fn hex_pager(maxy: i32, out_len: i32) -> BMore {
    let mut b = pager(false);
    b.maxy = maxy;
    b.out_len = out_len;
    b
}

#[test]
fn printout_prints_lines_read() {
    let data: Vec<u8> = (0u8..10).collect();
    let mut b = hex_pager(1, 4);
    let mut reader = ByteReader::new(std::io::Cursor::new(data.clone()));
    let mut out = Vec::new();
    let r = b.printout(&mut reader, 2, &mut out).unwrap();
    assert_eq!(r, PrintEnd::Done);
    assert_eq!((b.bytepos, b.screen_home), (8, 0));
    let mut expect = hex_pager(1, 4);
    let l1 = expect.printline(&data[0..4].to_vec(), 4);
    let l2 = expect.printline(&data[4..8].to_vec(), 4);
    assert_eq!(texts(&out), vec![l1, l2]);

    let mut c = hex_pager(1, 4);
    let mut reader = ByteReader::new(std::io::Cursor::new(data.clone()));
    let mut out = Vec::new();
    assert_eq!(c.printout(&mut reader, 9, &mut out).unwrap(), PrintEnd::Done);
    assert_eq!(c.bytepos, 10);
    assert_eq!(out.len(), 3);
}

#[test]
fn printout_before_a_full_screen() {
    let mut b = hex_pager(3, 4);
    b.screen_home = 40;
    let mut reader = ByteReader::new(std::io::Cursor::new(vec![7u8; 10]));
    let mut out = Vec::new();
    assert_eq!(b.printout(&mut reader, 2, &mut out).unwrap(), PrintEnd::NotFound);
    assert_eq!((b.bytepos, b.screen_home), (8, 0));
}

#[test]
fn printout_with_header_and_clear() {
    let mut b = hex_pager(10, 4);
    b.flags.c_flag = true;
    b.do_header = true;
    b.name = "f".to_string();
    let mut reader = ByteReader::new(std::io::Cursor::new(vec![1u8, 2]));
    let mut out = Vec::new();
    assert_eq!(b.printout(&mut reader, 20, &mut out).unwrap(), PrintEnd::Done);
    let t = texts(&out);
    assert_eq!(&t[0..3], &["<clear>", "<eol>", "::::::::::::::\r\nf\r\n::::::::::::::\r\n"]);
    assert_eq!(t.len(), 4);
    assert!(!b.do_header);
    assert_eq!(b.bytepos, 2);
}

#[test]
fn printout_stops_before_overflow() {
    let mut b = hex_pager(1, 4);
    b.bytepos = i32::MAX - 2;
    let mut reader = ByteReader::new(std::io::Cursor::new(vec![0u8; 8]));
    let mut out = Vec::new();
    assert_eq!(b.printout(&mut reader, 3, &mut out).unwrap(), PrintEnd::Overflow);
    assert!(out.is_empty());
    assert_eq!(b.bytepos, i32::MAX - 2);
}

struct Failing;

impl std::io::Read for Failing {
    fn read(&mut self, _buf: &mut [u8]) -> std::io::Result<usize> {
        Err(std::io::Error::new(std::io::ErrorKind::Other, "broken disk"))
    }
}

#[test]
fn printout_passes_read_errors_on() {
    let mut b = hex_pager(1, 4);
    let mut reader = ByteReader::new(Failing);
    let mut out = Vec::new();
    let e = b.printout(&mut reader, 3, &mut out).unwrap_err();
    assert_eq!(e.to_string(), "broken disk");
    assert!(out.is_empty());
}
