//! A small text transformation shared by the tools.

use vstd::prelude::*;
use vstd::string::*;
use crate::text::{push_char, to_uppercase, uppercased};

verus! {

/// The characters of `input` in reverse order, in upper case.
pub fn transform(input: &str) -> (r: String)
    ensures
        r@ == uppercased(input@.reverse()),
{
    let n = input.unicode_len();
    let mut reversed = String::new();
    let mut i: usize = n;
    while i > 0
        invariant
            n == input@.len(),
            i <= n,
            reversed@ == Seq::new((n - i) as nat, |k: int| input@[n - 1 - k]),
        decreases i,
    {
        i = i - 1;
        push_char(&mut reversed, input.get_char(i));
        assert(reversed@ =~= Seq::new((n - i) as nat, |k: int| input@[n - 1 - k]));
    }
    assert(reversed@ =~= input@.reverse());
    to_uppercase(reversed.as_str())
}

} // verus!
