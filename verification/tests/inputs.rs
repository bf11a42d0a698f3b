use rmore::error::Error;
use rmore::input::{
    collect_inputs, kind_and_name, named, new_file_input, new_stdin_input, Input, InputDescription,
    InputKind, OpenedInput, OpenedInputKind,
};
use rmore::reader::InputReader;

type In = Input<()>;

#[test]
fn description_getters_and_setters() {
    let mut d = InputDescription::new("data.bin");
    assert_eq!(d.title(), "data.bin");
    assert_eq!(d.kind(), None);
    assert_eq!(d.summary(), "data.bin");
    d.set_kind(Some("File".to_string()));
    assert_eq!(d.kind().unwrap(), "File");
    assert_eq!(d.summary(), "file 'data.bin'");
    d.set_title(Some("T".to_string()));
    assert_eq!(d.title(), "T");
    d.set_summary(Some("S".to_string()));
    assert_eq!(d.summary(), "S");
}

#[test]
fn kinds_describe_themselves() {
    assert_eq!(InputKind::<()>::StdIn.description().name, "STDIN");
    assert_eq!(InputKind::CustomReader(()).description().name, "READER");
    assert_eq!(InputKind::<()>::OrdinaryFile("a/b".to_string()).description().name, "a/b");
    assert_eq!(kind_and_name("file", "x"), "file 'x'");
}

#[test]
fn inputs_and_names() {
    let f: In = Input::ordinary_file("a.txt", Some(12));
    assert_eq!(f.description().name, "a.txt");
    assert_eq!(f.metadata.size, Some(12));
    assert!(!f.is_stdin());
    let s: In = Input::stdin();
    assert!(s.is_stdin());
    let r = Input::from_reader(7u8);
    assert!(matches!(r.kind, InputKind::CustomReader(7)));
    let named_input = s.with_name(Some("shown"));
    assert_eq!(named_input.description().name, "shown");
    assert_eq!(named_input.metadata.user_provided_name, Some("shown".to_string()));
    let unnamed: In = Input::stdin().with_name(None);
    assert_eq!(unnamed.description().name, "STDIN");
    let mut m: In = Input::stdin();
    m.description_mut().set_title(Some("t".to_string()));
    assert_eq!(m.description().title(), "t");
}

#[test]
fn named_file_and_stdin_inputs() {
    let f: In = new_file_input("a.txt", None, None);
    assert_eq!(f.description().name, "a.txt");
    assert_eq!(f.description().summary(), "file 'a.txt'");
    let g: In = new_file_input("a.txt", Some("other"), None);
    assert_eq!(g.description().name, "other");
    assert_eq!(g.metadata.user_provided_name, Some("other".to_string()));
    let s: In = new_stdin_input(None);
    assert_eq!(s.description().summary(), "STDIN");
    let t: In = new_stdin_input(Some("in"));
    assert_eq!(t.description().summary(), "file 'in'");
    let u: In = named(Input::stdin(), None);
    assert_eq!(u.description().kind(), None);
}

#[test]
fn inputs_from_the_command_line() {
    let none: Vec<In> = collect_inputs(None, None).ok().unwrap();
    assert_eq!(none.len(), 1);
    assert!(none[0].is_stdin());
    let first: Vec<In> = collect_inputs(Some(vec!["n".to_string()]), None).ok().unwrap();
    assert_eq!(first[0].description().name, "n");
    let files = vec![("a".to_string(), Some(3)), ("-".to_string(), None)];
    let v: Vec<In> = collect_inputs(None, Some(files.clone())).ok().unwrap();
    assert_eq!(v.len(), 2);
    assert!(!v[0].is_stdin());
    assert!(v[1].is_stdin());
    assert_eq!(v[1].description().name, "STDIN");
    let w: Vec<In> = collect_inputs(Some(vec!["x".to_string(), "y".to_string()]), Some(files.clone())).ok().unwrap();
    assert_eq!(w[0].description().name, "x");
    assert_eq!(w[1].description().name, "y");
    match collect_inputs::<()>(Some(vec!["x".to_string()]), Some(files)) {
        Err(Error::Msg(m)) => assert_eq!(m, "Must be one file name per input type."),
        _ => panic!("expected an error"),
    }
}

fn refusal<R>(i: &Input<R>, is_dir: bool, check: Option<Result<bool, Error>>) -> String {
    match i.open_kind(is_dir, check) {
        Ok(OpenedInputKind::StdIn) => "stdin".to_string(),
        Ok(OpenedInputKind::OrdinaryFile(p)) => format!("file {}", p),
        Ok(OpenedInputKind::CustomReader) => "reader".to_string(),
        Err(Error::Msg(m)) => m,
        Err(_) => "check failed".to_string(),
    }
}

#[test]
fn opening_decisions() {
    let s: In = Input::stdin();
    assert_eq!(refusal(&s, false, None), "stdin");
    assert_eq!(refusal(&s, false, Some(Ok(false))), "stdin");
    assert_eq!(
        refusal(&s, false, Some(Ok(true))),
        "IO circle detected. The input from stdin is also an output. Aborting to avoid infinite loop."
    );
    assert_eq!(refusal(&s, false, Some(Err(Error::Msg("id".to_string())))), "id");
    let f: In = Input::ordinary_file("d", None);
    assert_eq!(refusal(&f, true, Some(Ok(true))), "'d' is a directory.");
    assert_eq!(
        refusal(&f, false, Some(Ok(true))),
        "IO circle detected. The input from 'd' is also an output. Aborting to avoid infinite loop."
    );
    assert_eq!(refusal(&f, false, None), "file d");
    assert_eq!(refusal(&Input::from_reader(()), true, Some(Ok(true))), "reader");
}

#[test]
fn opened_input_path() {
    let reader = InputReader::new(std::io::Cursor::new(Vec::<u8>::new()));
    let mut o = OpenedInput {
        kind: OpenedInputKind::OrdinaryFile("p".to_string()),
        metadata: Default::default(),
        reader,
        description: InputDescription::new("p"),
    };
    assert_eq!(o.path().unwrap(), "p");
    o.metadata.user_provided_name = Some("given".to_string());
    assert_eq!(o.path().unwrap(), "given");
    o.metadata.user_provided_name = None;
    o.kind = OpenedInputKind::StdIn;
    assert_eq!(o.path(), None);
}

fn open_result(i: In, source: Result<std::io::Cursor<Vec<u8>>, String>, is_dir: bool, check: Option<Result<bool, Error>>) -> String {
    match i.open(source, is_dir, check) {
        Ok(o) => format!(
            "{:?} {} {:?} {:?} {:?}",
            o.kind,
            o.description.name,
            o.metadata.user_provided_name,
            o.metadata.size,
            o.reader.first_line
        ),
        Err(Error::Msg(m)) => format!("msg: {}", m),
        Err(e) => format!("other: {:?}", e),
    }
}

#[test]
fn opening_a_file_keeps_its_description() {
    let i: In = new_file_input("f.txt", Some("shown"), Some(9));
    let data = std::io::Cursor::new(b"line\nrest".to_vec());
    assert_eq!(
        open_result(i, Ok(data), false, None),
        "OrdinaryFile(\"f.txt\") shown Some(\"shown\") Some(9) [108, 105, 110, 101, 10]"
    );
}

#[test]
fn a_file_that_cannot_be_opened() {
    let i: In = Input::ordinary_file("missing.bin", None);
    assert_eq!(
        open_result(i, Err("No such file or directory (os error 2)".to_string()), false, None),
        "msg: 'missing.bin': No such file or directory (os error 2)"
    );
    let s: In = Input::stdin();
    assert_eq!(open_result(s, Err("gone".to_string()), false, None), "msg: gone");
}

#[test]
fn opening_refusals() {
    let data = || std::io::Cursor::new(Vec::new());
    let d: In = Input::ordinary_file("dir", None);
    assert_eq!(open_result(d, Ok(data()), true, None), "msg: 'dir' is a directory.");
    let f: In = Input::ordinary_file("out.txt", None);
    assert_eq!(
        open_result(f, Ok(data()), false, Some(Ok(true))),
        "msg: IO circle detected. The input from 'out.txt' is also an output. Aborting to avoid infinite loop."
    );
    let s: In = Input::stdin();
    assert_eq!(
        open_result(s, Ok(data()), false, Some(Ok(true))),
        "msg: IO circle detected. The input from stdin is also an output. Aborting to avoid infinite loop."
    );
    let s: In = Input::stdin();
    assert_eq!(
        open_result(s, Ok(data()), false, Some(Err(Error::Msg("check".to_string())))),
        "msg: check"
    );
    let s: In = Input::stdin();
    assert_eq!(open_result(s, Ok(data()), false, Some(Ok(false))), "StdIn STDIN None None []");
    let r: In = Input::from_reader(());
    assert_eq!(
        open_result(r, Ok(std::io::Cursor::new(vec![0xff, 0xfe, b'a', b'\n', 0, b'b', 0])), true, None),
        "CustomReader READER None None [255, 254, 97, 10, 0]"
    );
}
