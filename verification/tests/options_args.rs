use rmore::options::{u16_or_default, Options};

fn args(v: &[&str]) -> Vec<String> {
    v.iter().map(|s| s.to_string()).collect()
}

#[test]
fn flags_patterns_sizes_and_files() {
    let o = Options::from_args(&args(&["bmore", "-ar", "+/foo", "+20", "file1", "-5", "file2"]));
    assert!(o.ascii);
    assert!(o.r_flag);
    assert!(!o.c_flag && !o.d_flag && !o.ignore_case);
    assert!(o.init_search);
    assert_eq!(o.ssearch, "foo");
    assert_eq!(o.mymaxy, 20);
    assert_eq!(o.mymaxx, 5);
    assert_eq!(o.files, vec!["file1".to_string(), "file2".to_string()]);
}

#[test]
fn later_dash_argument_overrides_width() {
    let o = Options::from_args(&args(&["bmore", "-12", "-cdi"]));
    assert_eq!(o.mymaxx, 0);
    assert!(o.c_flag && o.d_flag && o.ignore_case);
}

#[test]
fn sizes_are_trimmed() {
    let o = Options::from_args(&args(&["bmore", "- 7 ", "+ 9"]));
    assert_eq!(o.mymaxx, 7);
    assert_eq!(o.mymaxy, 9);
}

#[test]
fn unicode_white_space_is_trimmed() {
    let o = Options::from_args(&args(&["bmore", "-\u{2003}\t40\u{a0}", "+\u{3000}9\u{85}"]));
    assert_eq!(o.mymaxx, 40);
    assert_eq!(o.mymaxy, 9);
    let p = Options::from_args(&args(&["bmore", "-\u{200b}8"]));
    assert_eq!(p.mymaxx, 0);
}

#[test]
fn only_the_program_name() {
    let o = Options::from_args(&args(&["bmore"]));
    assert!(o.files.is_empty());
    assert!(!o.init_search);
    assert_eq!(o.mymaxx, 0);
}

#[test]
fn numbers_or_zero() {
    assert_eq!(u16_or_default("300"), 300);
    assert_eq!(u16_or_default("70000"), 0);
    assert_eq!(u16_or_default("a"), 0);
}

#[test]
fn apply_one_argument() {
    let mut o = Options::default();
    o.apply("+/");
    assert!(o.init_search);
    assert_eq!(o.ssearch, "");
    o.apply("-");
    assert_eq!(o.mymaxx, 0);
}
