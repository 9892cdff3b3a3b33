//! The splash screen: the logo's text and a message under it.

use vstd::prelude::*;
use crate::text::{chars_of, owned};

verus! {

/// Bytes a character takes in UTF-8.
pub open spec fn utf8_len(c: char) -> nat {
    if (c as u32) < 0x80 { 1 } else if (c as u32) < 0x800 { 2 } else if (c as u32) < 0x10000 { 3 } else { 4 }
}

/// Bytes a text takes in UTF-8.
pub open spec fn byte_len(s: Seq<char>) -> nat
    decreases s.len(),
{
    if s.len() == 0 { 0 } else { byte_len(s.drop_last()) + utf8_len(s.last()) }
}

/// Newlines in a text.
pub open spec fn newlines(s: Seq<char>) -> nat
    decreases s.len(),
{
    if s.len() == 0 { 0 } else { newlines(s.drop_last()) + if s.last() == '\n' { 1nat } else { 0nat } }
}

/// Lines of a text, as `str::lines` counts them: a final newline does not
/// start another line.
pub open spec fn line_count(s: Seq<char>) -> nat {
    if s.len() == 0 { 0 } else { newlines(s) + if s.last() == '\n' { 0nat } else { 1nat } }
}

/// Position of the first newline, or the length when there is none.
pub open spec fn first_break(s: Seq<char>) -> int
    decreases s.len(),
{
    if s.len() == 0 {
        0
    } else if first_break(s.drop_last()) < s.len() - 1 {
        first_break(s.drop_last())
    } else if s.last() == '\n' {
        s.len() - 1
    } else {
        s.len() as int
    }
}

/// The first line of a text, as `str::lines` gives it: up to the first
/// newline, without a carriage return just before that newline.
pub open spec fn first_line(s: Seq<char>) -> Seq<char> {
    let e = first_break(s);
    let l = s.take(e);
    if e < s.len() && l.len() > 0 && l.last() == '\r' { l.drop_last() } else { l }
}

proof fn lemma_byte_len_prefix(s: Seq<char>, k: int)
    requires
        0 <= k <= s.len(),
    ensures
        byte_len(s.take(k)) <= byte_len(s),
    decreases s.len() - k,
{
    if k < s.len() {
        lemma_byte_len_prefix(s, k + 1);
        assert(s.take(k + 1).drop_last() =~= s.take(k));
    } else {
        assert(s.take(k) =~= s);
    }
}

/// The splash screen: a message, whether it is selected, and the logo.
#[derive(Debug)]
pub struct Splash {
    pub message: String,
    pub selected: bool,
    pub text: String,
}

proof fn lemma_first_break_at(s: Seq<char>, i: int)
    requires
        0 <= i <= s.len(),
        i < s.len() ==> s[i] == '\n',
        forall|j: int| 0 <= j < i ==> s[j] != '\n',
    ensures
        first_break(s) == i,
    decreases s.len(),
{
    if s.len() > 0 {
        if i < s.len() {
            if i < s.len() - 1 {
                lemma_first_break_at(s.drop_last(), i);
            } else {
                lemma_first_break_at(s.drop_last(), s.len() - 1);
            }
        } else {
            lemma_first_break_at(s.drop_last(), s.len() - 1);
        }
    }
}

/// Bytes a character takes in UTF-8.
fn char_bytes(c: char) -> (r: usize)
    ensures
        r == utf8_len(c),
{
    let u = c as u32;
    if u < 0x80 { 1 } else if u < 0x800 { 2 } else if u < 0x10000 { 3 } else { 4 }
}

impl Splash {
    /// The splash screen for a message, drawn under this logo.
    pub fn new(message: &str, logo: String) -> (r: Self)
        ensures
            r.message@ == message@,
            !r.selected,
            r.text == logo,
    {
        Splash { message: owned(message), selected: false, text: logo }
    }

    /// The room the splash screen needs: as wide as the logo's first line
    /// (in bytes), as tall as the logo, plus two lines for a message.
    pub fn required_size(&self) -> (r: (usize, usize))
        requires
            self.text@.len() > 0,
            byte_len(first_line(self.text@)) <= usize::MAX,
            line_count(self.text@) + 2 <= usize::MAX,
        ensures
            r.0 == byte_len(first_line(self.text@)),
            r.1 == line_count(self.text@) + if self.message@.len() == 0 { 0int } else { 2int },
    {
        let cs = chars_of(self.text.as_str());
        let n = cs.len();
        let mut breaks: usize = 0;
        let mut first: usize = n;
        let mut i: usize = 0;
        while i < n
            invariant
                n == cs@.len(),
                cs@ == self.text@,
                i <= n,
                breaks == newlines(cs@.take(i as int)),
                breaks <= i,
                first == n ==> forall|j: int| 0 <= j < i ==> cs@[j] != '\n',
                first < n ==> first < i && cs@[first as int] == '\n' && forall|j: int| 0 <= j < first ==> cs@[j] != '\n',
                first <= n,
            decreases n - i,
        {
            assert(cs@.take(i + 1).drop_last() =~= cs@.take(i as int));
            if cs[i] == '\n' {
                breaks = breaks + 1;
                if first == n {
                    first = i;
                }
            }
            i = i + 1;
        }
        assert(cs@.take(n as int) =~= cs@);
        proof { lemma_first_break_at(cs@, first as int); }
        let mut end = first;
        if first < n && first > 0 && cs[first - 1] == '\r' {
            end = first - 1;
        }
        let ghost line = first_line(cs@);
        assert(line =~= cs@.take(end as int));
        let mut width: usize = 0;
        let mut k: usize = 0;
        while k < end
            invariant
                end <= n,
                n == cs@.len(),
                cs@ == self.text@,
                line == cs@.take(end as int),
                byte_len(line) <= usize::MAX,
                k <= end,
                width == byte_len(cs@.take(k as int)),
            decreases end - k,
        {
            assert(cs@.take(k + 1).drop_last() =~= cs@.take(k as int));
            proof { lemma_byte_len_prefix(line, k as int + 1); }
            assert(line.take(k + 1) =~= cs@.take(k + 1));
            width = width + char_bytes(cs[k]);
            k = k + 1;
        }
        let lines: usize = if cs[n - 1] == '\n' { breaks } else { breaks + 1 };
        let height = if self.message.as_str().is_empty() { lines } else { lines + 2 };
        (width, height)
    }
}

} // verus!
