//! The organ's keyboard art: where each played key is marked.

use vstd::prelude::*;
use crate::action::Action;

verus! {

/// A key's column within its octave (seven white keys, C to B).
pub open spec fn octave_column(p: int) -> int {
    if p <= 0 { 0 } else if p <= 2 { 1 } else if p <= 4 { 2 } else if p == 5 { 3 }
    else if p <= 7 { 4 } else if p <= 9 { 5 } else { 6 }
}

/// Whether a key of the octave is a black key (drawn on the upper row).
pub open spec fn black_key(p: int) -> bool {
    p == 1 || p == 3 || p == 6 || p == 8 || p == 10
}

/// The mark for a key of the seven drawn octaves (notes 24 to 107): column,
/// row and width in the keyboard art. White keys sit on row 10, black keys
/// on row 9; D sharp and A sharp are two cells wide. Five keys of the
/// drawing sit elsewhere: 78 at column 37, 80 and 81 at column 49, 90 at
/// column 44 and 102 at column 51.
pub open spec fn note_mark(n: int) -> (int, int, int) {
    let p = (n - 24) % 12;
    let col = 6 + 7 * ((n - 24) / 12) + octave_column(p);
    let row = if black_key(p) { 9int } else { 10int };
    let len = if p == 3 || p == 10 { 2int } else { 1int };
    if n == 78 { (37, 9, 1) }
    else if n == 80 { (49, 9, 1) }
    else if n == 81 { (49, 10, 1) }
    else if n == 90 { (44, 9, 1) }
    else if n == 102 { (51, 9, 1) }
    else { (col, row, len) }
}

/// Where a played key is marked: `note_mark` for a note on of the drawn
/// octaves, nothing (width 0 at the corner) for anything else.
pub open spec fn spec_key_mark(a: Action) -> (int, int, int) {
    match a {
        Action::NoteOn(n, _) => if 24 <= n <= 107 { note_mark(n as int) } else { (0, 0, 0) },
        _ => (0, 0, 0),
    }
}

/// The column, row and width of the keyboard art to mark for a played key.
#[verifier::rlimit(40)]
pub fn key_mark(action: &Action) -> (r: (usize, usize, usize))
    ensures
        (r.0 as int, r.1 as int, r.2 as int) == spec_key_mark(*action),
{
    let n = match action {
        Action::NoteOn(n, _) => *n,
        _ => return (0, 0, 0),
    };
    match n {
        24 => (6, 10, 1),
        25 => (7, 9, 1),
        26 => (7, 10, 1),
        27 => (8, 9, 2),
        28 => (8, 10, 1),
        29 => (9, 10, 1),
        30 => (10, 9, 1),
        31 => (10, 10, 1),
        32 => (11, 9, 1),
        33 => (11, 10, 1),
        34 => (12, 9, 2),
        35 => (12, 10, 1),
        36 => (13, 10, 1),
        37 => (14, 9, 1),
        38 => (14, 10, 1),
        39 => (15, 9, 2),
        40 => (15, 10, 1),
        41 => (16, 10, 1),
        42 => (17, 9, 1),
        43 => (17, 10, 1),
        44 => (18, 9, 1),
        45 => (18, 10, 1),
        46 => (19, 9, 2),
        47 => (19, 10, 1),
        48 => (20, 10, 1),
        49 => (21, 9, 1),
        50 => (21, 10, 1),
        51 => (22, 9, 2),
        52 => (22, 10, 1),
        53 => (23, 10, 1),
        54 => (24, 9, 1),
        55 => (24, 10, 1),
        56 => (25, 9, 1),
        57 => (25, 10, 1),
        58 => (26, 9, 2),
        59 => (26, 10, 1),
        60 => (27, 10, 1),
        61 => (28, 9, 1),
        62 => (28, 10, 1),
        63 => (29, 9, 2),
        64 => (29, 10, 1),
        65 => (30, 10, 1),
        66 => (31, 9, 1),
        67 => (31, 10, 1),
        68 => (32, 9, 1),
        69 => (32, 10, 1),
        70 => (33, 9, 2),
        71 => (33, 10, 1),
        72 => (34, 10, 1),
        73 => (35, 9, 1),
        74 => (35, 10, 1),
        75 => (36, 9, 2),
        76 => (36, 10, 1),
        77 => (37, 10, 1),
        78 => (37, 9, 1),
        79 => (38, 10, 1),
        80 => (49, 9, 1),
        81 => (49, 10, 1),
        82 => (40, 9, 2),
        83 => (40, 10, 1),
        84 => (41, 10, 1),
        85 => (42, 9, 1),
        86 => (42, 10, 1),
        87 => (43, 9, 2),
        88 => (43, 10, 1),
        89 => (44, 10, 1),
        90 => (44, 9, 1),
        91 => (45, 10, 1),
        92 => (46, 9, 1),
        93 => (46, 10, 1),
        94 => (47, 9, 2),
        95 => (47, 10, 1),
        96 => (48, 10, 1),
        97 => (49, 9, 1),
        98 => (49, 10, 1),
        99 => (50, 9, 2),
        100 => (50, 10, 1),
        101 => (51, 10, 1),
        102 => (51, 9, 1),
        103 => (52, 10, 1),
        104 => (53, 9, 1),
        105 => (53, 10, 1),
        106 => (54, 9, 2),
        107 => (54, 10, 1),
        _ => (0, 0, 0),
    }
}

} // verus!
