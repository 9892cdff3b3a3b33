//! The nine drawbars of the organ views, by name.

use vstd::prelude::*;
use crate::text::{owned, str_eq};

verus! {

/// The name of drawbar `i` (its footage).
pub open spec fn stop_name(i: int) -> Seq<char> {
    if i == 0 { "16"@ } else if i == 1 { "5.3"@ } else if i == 2 { "8"@ } else if i == 3 { "4"@ }
    else if i == 4 { "2.6"@ } else if i == 5 { "2"@ } else if i == 6 { "1.6"@ } else if i == 7 { "1.3"@ }
    else { "1"@ }
}

/// The drawbar a name stands for, if any.
pub open spec fn stop_index(key: Seq<char>) -> Option<int> {
    if key == "16"@ { Some(0) } else if key == "5.3"@ { Some(1) } else if key == "8"@ { Some(2) }
    else if key == "4"@ { Some(3) } else if key == "2.6"@ { Some(4) } else if key == "2"@ { Some(5) }
    else if key == "1.6"@ { Some(6) } else if key == "1.3"@ { Some(7) } else if key == "1"@ { Some(8) }
    else { None }
}

/// The names of the nine drawbars, in order.
pub open spec fn names_ok(names: Seq<String>) -> bool {
    names.len() == 9 && forall|i: int| 0 <= i < 9 ==> (#[trigger] names[i])@ == stop_name(i)
}

/// The drawbar a name stands for, if any.
pub fn stop_of(key: &str) -> (r: Option<usize>)
    ensures
        match stop_index(key@) {
            Some(i) => r == Some(i as usize),
            None => r is None,
        },
{
    if str_eq(key, "16") { Some(0) } else if str_eq(key, "5.3") { Some(1) } else if str_eq(key, "8") { Some(2) }
    else if str_eq(key, "4") { Some(3) } else if str_eq(key, "2.6") { Some(4) } else if str_eq(key, "2") { Some(5) }
    else if str_eq(key, "1.6") { Some(6) } else if str_eq(key, "1.3") { Some(7) } else if str_eq(key, "1") { Some(8) }
    else { None }
}

/// The names of the nine drawbars, in order.
pub fn stop_names() -> (r: Vec<String>)
    ensures
        names_ok(r@),
{
    let mut r: Vec<String> = Vec::new();
    r.push(owned("16"));
    r.push(owned("5.3"));
    r.push(owned("8"));
    r.push(owned("4"));
    r.push(owned("2.6"));
    r.push(owned("2"));
    r.push(owned("1.6"));
    r.push(owned("1.3"));
    r.push(owned("1"));
    r
}

} // verus!
