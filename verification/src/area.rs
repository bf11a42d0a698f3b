//! The screen area that `--range` sets, written `X:Y`.

use vstd::prelude::*;
use vstd::string::*;
use crate::error::Error;
use crate::number::{bounded_number, parse_usize, usize_parse_error};

verus! {

/// The largest column and line numbers of the screen.
#[derive(Debug, Copy, Clone)]
pub struct ScreenArea {
    maxx: usize,
    maxy: usize,
}

impl View for ScreenArea {
    type V = (usize, usize);

    closed spec fn view(&self) -> (usize, usize) {
        (self.maxx, self.maxy)
    }
}

impl Default for ScreenArea {
    fn default() -> (a: Self)
        ensures
            a@ == (0usize, 0usize),
    {
        ScreenArea { maxx: 0, maxy: 0 }
    }
}

/// What reading a range gives: an area `(maxx, maxy)` or the reason why
/// not (for a bad number, the text that is not one).
pub enum AreaParse {
    Area(usize, usize),
    Empty,
    BadNumber(Seq<char>),
    TooManyParts,
}

/// The number `s` spells, where it fits in a `usize`.
pub open spec fn usize_number(s: Seq<char>) -> Option<usize> {
    match bounded_number(s, usize::MAX as nat) {
        Some(n) => Some(n as usize),
        None => None,
    }
}

/// `s` holds no `:`.
pub open spec fn no_colon(s: Seq<char>) -> bool {
    forall|k: int| 0 <= k < s.len() ==> s[k] != ':'
}

/// `s` holds exactly one `:`, at `f`.
pub open spec fn single_colon_at(s: Seq<char>, f: int) -> bool {
    &&& 0 <= f < s.len()
    &&& s[f] == ':'
    &&& forall|k: int| 0 <= k < s.len() && k != f ==> s[k] != ':'
}

/// An area whose `maxy` is the number `t` spells, and `maxx` zero.
pub open spec fn lines_only(t: Seq<char>) -> AreaParse {
    match usize_number(t) {
        Some(v) => AreaParse::Area(0, v),
        None => AreaParse::BadNumber(t),
    }
}

/// An area whose `maxx` is the number `t` spells, and `maxy` zero.
pub open spec fn columns_only(t: Seq<char>) -> AreaParse {
    match usize_number(t) {
        Some(v) => AreaParse::Area(v, 0),
        None => AreaParse::BadNumber(t),
    }
}

/// An area whose `maxx` and `maxy` are both the number `t` spells.
pub open spec fn square(t: Seq<char>) -> AreaParse {
    match usize_number(t) {
        Some(v) => AreaParse::Area(v, v),
        None => AreaParse::BadNumber(t),
    }
}

/// An area whose `maxx` is the number `x` spells and `maxy` the number `y`
/// spells; `x` is read first.
pub open spec fn pair(x: Seq<char>, y: Seq<char>) -> AreaParse {
    match usize_number(x) {
        None => AreaParse::BadNumber(x),
        Some(a) => match usize_number(y) {
            None => AreaParse::BadNumber(y),
            Some(b) => AreaParse::Area(a, b),
        },
    }
}

/// How `ScreenArea::parse` reads a range written `X:Y`:
/// - `""` is refused as empty;
/// - `:-…` gives the zero area, `:Y` sets only `maxy`;
/// - `-…:` gives the zero area, `X:` sets only `maxx`;
/// - `N` sets both to `N`; `X:Y` sets `maxx` to `X` and `maxy` to `Y`;
/// - more than one `:` otherwise is refused.
pub open spec fn area_parse(s: Seq<char>) -> AreaParse {
    if s.len() == 0 {
        AreaParse::Empty
    } else if s[0] == ':' {
        if s.len() >= 2 && s[1] == '-' {
            AreaParse::Area(0, 0)
        } else {
            lines_only(s.drop_first())
        }
    } else if s.last() == ':' {
        if s[0] == '-' {
            AreaParse::Area(0, 0)
        } else {
            columns_only(s.drop_last())
        }
    } else if no_colon(s) {
        square(s)
    } else if exists|f: int| single_colon_at(s, f) {
        let f = choose|f: int| single_colon_at(s, f);
        pair(s.take(f), s.skip(f + 1))
    } else {
        AreaParse::TooManyParts
    }
}

/// `r` is what `ScreenArea::parse` returns on `s`.
pub open spec fn parse_result_matches(s: Seq<char>, r: Result<ScreenArea, Error>) -> bool {
    match area_parse(s) {
        AreaParse::Area(x, y) => r matches Ok(a) && a@ == (x, y),
        AreaParse::Empty => r matches Err(Error::Msg(m)) && m@ == "Emmpty MaxX:MaxY"@,
        AreaParse::BadNumber(t) => r matches Err(Error::ParseIntError(e)) && e == usize_parse_error(t),
        AreaParse::TooManyParts => r matches Err(Error::Msg(m)) && m@ == "Unable to parse"@,
    }
}

/// Two results of reading a range say the same: the same area, the same
/// message, or the same number error.
pub open spec fn same_area_result(r1: Result<ScreenArea, Error>, r2: Result<ScreenArea, Error>) -> bool {
    match (r1, r2) {
        (Ok(a), Ok(b)) => a@ == b@,
        (Err(Error::Msg(m)), Err(Error::Msg(n))) => m@ == n@,
        (Err(Error::ParseIntError(e)), Err(Error::ParseIntError(f))) => e == f,
        _ => false,
    }
}

fn number_area(t: &str, x: bool, y: bool) -> (r: Result<ScreenArea, Error>)
    ensures
        match usize_number(t@) {
            Some(v) => r matches Ok(a) && a@ == ((if x { v } else { 0 }), (if y { v } else { 0 })),
            None => r matches Err(Error::ParseIntError(e)) && e == usize_parse_error(t@),
        },
{
    match parse_usize(t) {
        Ok(v) => Ok(ScreenArea { maxx: if x { v } else { 0 }, maxy: if y { v } else { 0 } }),
        Err(e) => Err(Error::ParseIntError(e)),
    }
}

fn pair_area(x: &str, y: &str) -> (r: Result<ScreenArea, Error>)
    ensures
        match pair(x@, y@) {
            AreaParse::Area(a, b) => r matches Ok(s) && s@ == (a, b),
            AreaParse::BadNumber(t) => r matches Err(Error::ParseIntError(e)) && e == usize_parse_error(t),
            _ => false,
        },
{
    let a = match parse_usize(x) {
        Ok(v) => v,
        Err(e) => {
            return Err(Error::ParseIntError(e));
        },
    };
    match parse_usize(y) {
        Ok(b) => Ok(ScreenArea { maxx: a, maxy: b }),
        Err(e) => Err(Error::ParseIntError(e)),
    }
}

impl ScreenArea {
    pub fn new(x: usize, y: usize) -> (a: Self)
        ensures
            a@ == (x, y),
    {
        ScreenArea { maxx: x, maxy: y }
    }

    /// Reads a range; the same as `parse`.
    pub fn from(range: &str) -> (r: Result<ScreenArea, Error>)
        ensures
            parse_result_matches(range@, r),
    {
        ScreenArea::parse(range)
    }

    /// Reads a range written `X:Y`; see `area_parse` for each form.
    pub fn parse(range_raw: &str) -> (r: Result<ScreenArea, Error>)
        ensures
            parse_result_matches(range_raw@, r),
    {
        let ghost s = range_raw@;
        let n = range_raw.unicode_len();
        if n == 0 {
            let e = Error::msg("Emmpty MaxX:MaxY");
            return Err(e);
        }
        let first = range_raw.get_char(0);
        if first == ':' {
            if n >= 2 && range_raw.get_char(1) == '-' {
                return Ok(ScreenArea { maxx: 0, maxy: 0 });
            }
            let rest = range_raw.substring_char(1, n);
            return number_area(rest, false, true);
        }
        if range_raw.get_char(n - 1) == ':' {
            if first == '-' {
                return Ok(ScreenArea { maxx: 0, maxy: 0 });
            }
            let head = range_raw.substring_char(0, n - 1);
            assert(head@ == s.drop_last());
            return number_area(head, true, false);
        }
        // Look for the first `:` and for a second one.
        let mut first_colon: Option<usize> = None;
        let mut second = false;
        let mut i: usize = 0;
        while i < n
            invariant
                n == s.len(),
                range_raw@ == s,
                i <= n,
                first_colon is None ==> !second && forall|k: int| 0 <= k < i ==> s[k] != ':',
                first_colon matches Some(f) ==> {
                    &&& f < i
                    &&& s[f as int] == ':'
                    &&& forall|k: int| 0 <= k < f ==> s[k] != ':'
                    &&& second <==> exists|k: int| f < k < i && s[k] == ':'
                },
            decreases n - i,
        {
            let c = range_raw.get_char(i);
            if c == ':' {
                match first_colon {
                    None => {
                        first_colon = Some(i);
                    },
                    Some(f) => {
                        assert(f < i as int && s[i as int] == ':');
                        second = true;
                    },
                }
            }
            i = i + 1;
        }
        match first_colon {
            None => {
                assert(no_colon(s));
                number_area(range_raw, true, true)
            },
            Some(f) => {
                if second {
                    assert(!no_colon(s));
                    assert forall|g: int| !single_colon_at(s, g) by {
                        let k = choose|k: int| f < k < n && s[k] == ':';
                        if single_colon_at(s, g) {
                            if g != f as int {
                                assert(s[f as int] != ':');
                            } else {
                                assert(s[k] != ':');
                            }
                        }
                    }
                    let e = Error::msg("Unable to parse");
                    Err(e)
                } else {
                    assert(single_colon_at(s, f as int));
                    assert(!no_colon(s));
                    assert forall|g: int| single_colon_at(s, g) implies g == f as int by {
                        if g != f as int {
                            assert(s[f as int] != ':');
                        }
                    }
                    let head = range_raw.substring_char(0, f);
                    let tail = range_raw.substring_char(f + 1, n);
                    assert(s.take(f as int) == s.subrange(0, f as int));
                    assert(s.skip(f as int + 1) == s.subrange(f as int + 1, n as int));
                    pair_area(head, tail)
                }
            },
        }
    }
}

} // verus!
