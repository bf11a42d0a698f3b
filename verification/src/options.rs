//! The command line of the pager: `bmore [-acdir] [-lines] [+linenum | +/pattern] name1 name2 ...`.

use vstd::prelude::*;
use vstd::string::*;
use crate::number::{bounded_number, parse_u16};
use crate::text::{contains_char, has_char, trim, trimmed};

verus! {

/// The flags and file names read from the command line.
#[derive(Debug)]
pub struct Options {
    pub ascii: bool,
    pub c_flag: bool,
    pub d_flag: bool,
    pub ignore_case: bool,
    pub r_flag: bool,
    pub init_search: bool,
    pub ssearch: String,
    pub files: Vec<String>,
    pub mymaxx: u16,
    pub mymaxy: u16,
}

/// The options as plain values.
pub struct OptionsModel {
    pub ascii: bool,
    pub c_flag: bool,
    pub d_flag: bool,
    pub ignore_case: bool,
    pub r_flag: bool,
    pub init_search: bool,
    pub ssearch: Seq<char>,
    pub files: Seq<Seq<char>>,
    pub mymaxx: u16,
    pub mymaxy: u16,
}

impl View for Options {
    type V = OptionsModel;

    open spec fn view(&self) -> OptionsModel {
        OptionsModel {
            ascii: self.ascii,
            c_flag: self.c_flag,
            d_flag: self.d_flag,
            ignore_case: self.ignore_case,
            r_flag: self.r_flag,
            init_search: self.init_search,
            ssearch: self.ssearch@,
            files: self.files@.map_values(|f: String| f@),
            mymaxx: self.mymaxx,
            mymaxy: self.mymaxy,
        }
    }
}

/// No flag set, no pattern, no file, no size.
pub open spec fn default_options() -> OptionsModel {
    OptionsModel {
        ascii: false,
        c_flag: false,
        d_flag: false,
        ignore_case: false,
        r_flag: false,
        init_search: false,
        ssearch: Seq::empty(),
        files: Seq::empty(),
        mymaxx: 0,
        mymaxy: 0,
    }
}

impl Default for Options {
    fn default() -> (o: Self)
        ensures
            o@ == default_options(),
    {
        let o = Options {
            ascii: false,
            c_flag: false,
            d_flag: false,
            ignore_case: false,
            r_flag: false,
            init_search: false,
            ssearch: String::new(),
            files: Vec::new(),
            mymaxx: 0,
            mymaxy: 0,
        };
        assert(o@.files =~= Seq::<Seq<char>>::empty());
        o
    }
}

/// The number `t` spells where it fits in a `u16`, else zero.
pub open spec fn u16_or_zero(t: Seq<char>) -> u16 {
    match bounded_number(t, u16::MAX as nat) {
        Some(n) => n as u16,
        None => 0,
    }
}

/// What one argument does to the options read so far:
/// - `-…`: the rest sets `mymaxx` (zero unless it is a number once trimmed),
///   and each of the letters `a c d i r` in it sets its flag;
/// - `+/…`: starts a search for the rest;
/// - `+…`: the rest sets `mymaxy` as `-…` sets `mymaxx`;
/// - anything else is a file name, kept in order.
pub open spec fn apply_arg(o: OptionsModel, a: Seq<char>) -> OptionsModel {
    if a.len() > 0 && a[0] == '-' {
        let d = a.drop_first();
        OptionsModel {
            mymaxx: u16_or_zero(trimmed(d)),
            ascii: o.ascii || has_char(d, 'a'),
            c_flag: o.c_flag || has_char(d, 'c'),
            d_flag: o.d_flag || has_char(d, 'd'),
            ignore_case: o.ignore_case || has_char(d, 'i'),
            r_flag: o.r_flag || has_char(d, 'r'),
            ..o
        }
    } else if a.len() >= 2 && a[0] == '+' && a[1] == '/' {
        OptionsModel { init_search: true, ssearch: a.skip(2), ..o }
    } else if a.len() > 0 && a[0] == '+' {
        OptionsModel { mymaxy: u16_or_zero(trimmed(a.drop_first())), ..o }
    } else {
        OptionsModel { files: o.files.push(a), ..o }
    }
}

/// The options that the arguments `args` give, read from first to last.
pub open spec fn options_of(args: Seq<Seq<char>>) -> OptionsModel
    decreases args.len(),
{
    if args.len() == 0 {
        default_options()
    } else {
        apply_arg(options_of(args.drop_last()), args.last())
    }
}

/// The number that `t` spells where it fits in a `u16`, else zero; `t` is
/// an argument's value after trimming.
pub fn u16_or_default(t: &str) -> (n: u16)
    ensures
        n == u16_or_zero(t@),
{
    match parse_u16(t) {
        Ok(v) => v,
        Err(_) => 0,
    }
}

impl Options {
    /// Applies one command-line argument to the options.
    pub fn apply(&mut self, arg: &str)
        ensures
            final(self)@ == apply_arg(old(self)@, arg@),
    {
        let n = arg.unicode_len();
        if n > 0 && arg.get_char(0) == '-' {
            let ascidir = arg.substring_char(1, n);
            let value = trim(ascidir);
            self.mymaxx = u16_or_default(value);
            if contains_char(ascidir, 'a') {
                self.ascii = true;
            }
            if contains_char(ascidir, 'c') {
                self.c_flag = true;
            }
            if contains_char(ascidir, 'd') {
                self.d_flag = true;
            }
            if contains_char(ascidir, 'i') {
                self.ignore_case = true;
            }
            if contains_char(ascidir, 'r') {
                self.r_flag = true;
            }
            assert(ascidir@ == arg@.drop_first());
        } else if n >= 2 && arg.get_char(0) == '+' && arg.get_char(1) == '/' {
            self.init_search = true;
            self.ssearch = arg.substring_char(2, n).to_string();
            assert(arg@.subrange(2, n as int) == arg@.skip(2));
        } else if n > 0 && arg.get_char(0) == '+' {
            let rest = arg.substring_char(1, n);
            self.mymaxy = u16_or_default(trim(rest));
            assert(rest@ == arg@.drop_first());
        } else {
            let ghost before = self.files@;
            self.files.push(arg.to_string());
            assert(self.files@.map_values(|f: String| f@)
                =~= before.map_values(|f: String| f@).push(arg@));
        }
    }

    /// The options that a command line gives; `args[0]`, the program's
    /// name, is skipped.
    pub fn from_args(args: &Vec<String>) -> (o: Options)
        requires
            args.len() >= 1,
        ensures
            o@ == options_of(args@.skip(1).map_values(|a: String| a@)),
    {
        let mut opts = Options::default();
        let mut i: usize = 1;
        while i < args.len()
            invariant
                1 <= i <= args.len(),
                opts@ == options_of(args@.subrange(1, i as int).map_values(|a: String| a@)),
            decreases args.len() - i,
        {
            let ghost prev = args@.subrange(1, i as int).map_values(|a: String| a@);
            opts.apply(args[i].as_str());
            let ghost next = args@.subrange(1, i as int + 1).map_values(|a: String| a@);
            assert(next.drop_last() =~= prev);
            assert(next.last() == args@[i as int]@);
            i = i + 1;
        }
        assert(args@.subrange(1, args.len() as int) =~= args@.skip(1));
        opts
    }
}

} // verus!
