//! The settings a run of the pager uses, from the command line.

use vstd::prelude::*;
use crate::area::{area_parse, AreaParse, ScreenArea};

verus! {

/// The settings of a run.
pub struct Config {
    pub ascii: bool,
    pub c_flag: bool,
    pub d_flag: bool,
    pub ignore_case: bool,
    pub r_flag: bool,
    pub init_search: bool,
    pub ssearch: String,
    pub area: ScreenArea,
}

/// Whether `range` can be read as an area without error: `Some` with its
/// `(maxx, maxy)`, or the zero area when there is no range.
pub open spec fn range_area(range: Option<Seq<char>>) -> Option<(usize, usize)> {
    match range {
        None => Some((0usize, 0usize)),
        Some(s) => match area_parse(s) {
            AreaParse::Area(x, y) => Some((x, y)),
            _ => None,
        },
    }
}

impl Config {
    /// The settings from the flags and the `--range` value: no start-up
    /// search, and the zero area without a range. `None` where the range
    /// cannot be read (the run stops there).
    pub fn from_flags(
        ascii: bool,
        c_flag: bool,
        d_flag: bool,
        ignore_case: bool,
        r_flag: bool,
        range: Option<&str>,
    ) -> (c: Option<Config>)
        ensures
            ({
                let r = match range {
                    Some(s) => Some(s@),
                    None => None::<Seq<char>>,
                };
                match range_area(r) {
                    None => c is None,
                    Some(a) => c matches Some(cfg) && {
                        &&& cfg.area@ == a
                        &&& cfg.ascii == ascii && cfg.c_flag == c_flag && cfg.d_flag == d_flag
                        &&& cfg.ignore_case == ignore_case && cfg.r_flag == r_flag
                        &&& !cfg.init_search && cfg.ssearch@ == Seq::<char>::empty()
                    },
                }
            }),
    {
        let area = match range {
            None => ScreenArea::default(),
            Some(s) => {
                match ScreenArea::from(s) {
                    Ok(a) => a,
                    Err(_) => {
                        return None;
                    },
                }
            },
        };
        Some(Config {
            ascii,
            c_flag,
            d_flag,
            ignore_case,
            r_flag,
            init_search: false,
            ssearch: String::new(),
            area,
        })
    }
}

} // verus!
