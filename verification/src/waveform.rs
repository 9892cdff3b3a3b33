//! Waveform sketches: a pair of levels (0 to 4) drawn as one Braille cell.

use vstd::prelude::*;

verus! {

/// The Braille cell with the given dots raised; the indices are, in order,
/// dots 1, 4, 2, 5, 3, 6, 7 and 8 (each 0 or 1).
pub open spec fn braille_code(i: [usize; 8]) -> u32 {
    (0x2800 + i[0] + 8 * i[1] + 2 * i[2] + 16 * i[3] + 4 * i[4] + 32 * i[5] + 64 * i[6] + 128 * i[7]) as u32
}

/// The cell of the `braille` crate's `BRAILLE` table at these indices:
/// the table lists the 256 cells of the Unicode Braille block, so the cell
/// is U+2800 plus the bits of its raised dots.
#[verifier::external_body]
fn braille_cell(i: [usize; 8]) -> (r: char)
    requires
        forall|k: int| 0 <= k < 8 ==> i@[k] <= 1,
    ensures
        r as u32 == braille_code(i),
{
    braille::BRAILLE[i[0]][i[1]][i[2]][i[3]][i[4]][i[5]][i[6]][i[7]]
}

/// The dots a level raises in the left column, from the bottom up.
pub open spec fn left_dots(n: u8) -> int {
    (if n >= 1 { 64int } else { 0 }) + (if n >= 2 { 4int } else { 0 }) + (if n >= 3 { 2int } else { 0 })
        + (if n >= 4 { 1int } else { 0 })
}

/// The dots a level raises in the right column, from the bottom up.
pub open spec fn right_dots(n: u8) -> int {
    (if n >= 1 { 128int } else { 0 }) + (if n >= 2 { 32int } else { 0 }) + (if n >= 3 { 16int } else { 0 })
        + (if n >= 4 { 8int } else { 0 })
}

/// A pair of levels as a Braille cell: the first fills the left column
/// from the bottom, the second the right column.
pub fn pair_to_char(pair: (u8, u8)) -> (r: char)
    ensures
        r as u32 == 0x2800 + left_dots(pair.0) + right_dots(pair.1),
{
    let a: usize = if pair.0 >= 1 { 1 } else { 0 };
    let b: usize = if pair.0 >= 2 { 1 } else { 0 };
    let c: usize = if pair.0 >= 3 { 1 } else { 0 };
    let d: usize = if pair.0 >= 4 { 1 } else { 0 };
    let e: usize = if pair.1 >= 1 { 1 } else { 0 };
    let f: usize = if pair.1 >= 2 { 1 } else { 0 };
    let g: usize = if pair.1 >= 3 { 1 } else { 0 };
    let h: usize = if pair.1 >= 4 { 1 } else { 0 };
    let idx = [d, h, c, g, b, f, a, e];
    assert(forall|k: int| 0 <= k < 8 ==> idx@[k] <= 1);
    braille_cell(idx)
}

/// The size of a sample.
pub open spec fn magnitude(x: i32) -> int {
    if x < 0 { -x } else { x as int }
}

/// The largest size among the samples (0 for none).
pub open spec fn peak(s: Seq<i32>) -> int
    decreases s.len(),
{
    if s.len() == 0 {
        0
    } else {
        let p = peak(s.drop_last());
        if magnitude(s.last()) > p { magnitude(s.last()) } else { p }
    }
}

/// The peaks of consecutive chunks of `size` samples (the last one may be
/// shorter), at most `count` of them.
pub open spec fn chunk_peaks(s: Seq<i32>, size: nat, count: nat) -> Seq<int>
    decreases count,
{
    if count == 0 || s.len() == 0 || size == 0 {
        Seq::empty()
    } else {
        let n = if s.len() < size { s.len() } else { size };
        seq![peak(s.take(n as int))] + chunk_peaks(s.skip(n as int), size, (count - 1) as nat)
    }
}

/// Consecutive values taken two at a time.
pub open spec fn pairs_of_values(v: Seq<int>) -> Seq<(int, int)> {
    Seq::new(v.len() / 2, |i: int| (v[2 * i], v[2 * i + 1]))
}

/// The largest value (0 for none).
pub open spec fn largest(v: Seq<int>) -> int
    decreases v.len(),
{
    if v.len() == 0 {
        0
    } else if v.last() > largest(v.drop_last()) {
        v.last()
    } else {
        largest(v.drop_last())
    }
}

/// The peaks a sketch of `width` columns is drawn from, for `frames` frames
/// of interleaved samples: chunks of `frames / (2 width)` frames.
pub open spec fn sketch_values(samples: Seq<i32>, channels: usize, frames: usize, width: usize) -> Seq<int> {
    chunk_peaks(samples, ((frames as int / (2 * width as int)) * channels) as nat, (2 * width) as nat)
}

/// How many chunks `chunk_peaks` takes from `len` samples.
pub open spec fn chunk_count(len: nat, size: nat, count: nat) -> nat
    decreases count,
{
    if count == 0 || len == 0 || size == 0 {
        0
    } else {
        1 + chunk_count(if len < size { 0 } else { (len - size) as nat }, size, (count - 1) as nat)
    }
}

proof fn lemma_chunk_count(s: Seq<i32>, size: nat, count: nat)
    ensures
        chunk_peaks(s, size, count).len() == chunk_count(s.len(), size, count),
    decreases count,
{
    if !(count == 0 || s.len() == 0 || size == 0) {
        let n = if s.len() < size { s.len() } else { size };
        lemma_chunk_count(s.skip(n as int), size, (count - 1) as nat);
    }
}

/// How many of the samples the chunks of a sketch take: `count` chunks of
/// `size` samples, or all of them when there are fewer.
pub open spec fn taken_len(len: nat, size: int, count: int) -> int {
    if len < count * size { len as int } else { count * size }
}

/// The inputs a sketch of `width` columns is drawn from without fault: the
/// column and chunk sizes fit in a `usize`, the chunks give at least one peak
/// and the peaks pair up, and no sample in a taken chunk is `i32::MIN`
/// (whose size does not fit). Nothing is asked when the sketch is empty.
pub open spec fn sketch_defined(samples: Seq<i32>, channels: usize, frames: usize, width: usize) -> bool {
    width == 0 || {
        &&& 2 * width <= usize::MAX
        &&& frames as int / (2 * width as int) == 0 || {
            let size = (frames as int / (2 * width as int)) * channels;
            let count = 2 * width as int;
            let c = chunk_count(samples.len(), size as nat, count as nat);
            &&& size <= usize::MAX
            &&& c > 0 && c % 2 == 0
            &&& forall|i: int| 0 <= i < taken_len(samples.len(), size, count) ==> samples[i] > i32::MIN
        }
    }
}

/// Whether a sketch can be drawn from these samples (see `sketch_defined`).
#[verifier::loop_isolation(false)]
pub fn sketch_ready(samples: &Vec<i32>, channels: usize, frames: usize, width: usize) -> (r: bool)
    ensures
        r == sketch_defined(samples@, channels, frames, width),
{
    if width == 0 {
        return true;
    }
    let count = match width.checked_mul(2) {
        Some(c) => c,
        None => return false,
    };
    let per_chunk = frames / count;
    if per_chunk == 0 {
        return true;
    }
    let size = match per_chunk.checked_mul(channels) {
        Some(s) => s,
        None => return false,
    };
    let len = samples.len();
    let ghost total = chunk_count(len as nat, size as nat, count as nat);
    let mut left: usize = len;
    let mut taken: usize = 0;
    while taken < count && left > 0 && size > 0
        invariant
            taken <= count,
            taken + chunk_count(left as nat, size as nat, (count - taken) as nat) == total,
        decreases count - taken,
    {
        left = if left < size { 0 } else { left - size };
        taken = taken + 1;
    }
    if !(taken > 0 && taken % 2 == 0) {
        return false;
    }
    let ghost lim = taken_len(len as nat, size as int, count as int);
    let limit: usize = if (len / size) < count {
        assert(len < count * size) by (nonlinear_arith)
            requires
                size > 0,
                len / size < count,
        ;
        len
    } else {
        assert(count * size <= len) by (nonlinear_arith)
            requires
                size > 0,
                len / size >= count,
        ;
        count * size
    };
    let mut k: usize = 0;
    while k < limit
        invariant
            limit == lim,
            lim <= samples@.len(),
            k <= limit,
            forall|i: int| 0 <= i < k ==> samples@[i] > i32::MIN,
        decreases limit - k,
    {
        if samples[k] == i32::MIN {
            assert(0 <= k < taken_len(samples@.len(), size as int, count as int));
            assert(!(samples@[k as int] > i32::MIN));
            return false;
        }
        k = k + 1;
    }
    true
}

/// The peak of samples `from` up to `to`.
fn chunk_peak(samples: &Vec<i32>, from: usize, to: usize) -> (r: i32)
    requires
        from <= to <= samples@.len(),
        forall|i: int| from <= i < to ==> samples@[i] > i32::MIN,
    ensures
        r == peak(samples@.subrange(from as int, to as int)),
{
    let mut m: i32 = 0;
    let mut k: usize = from;
    while k < to
        invariant
            from <= k <= to <= samples@.len(),
            forall|i: int| from <= i < to ==> samples@[i] > i32::MIN,
            0 <= m,
            m == peak(samples@.subrange(from as int, k as int)),
        decreases to - k,
    {
        let x = samples[k];
        let a: i32 = if x < 0 { -x } else { x };
        assert(samples@.subrange(from as int, k + 1).drop_last() =~= samples@.subrange(from as int, k as int));
        if a > m {
            m = a;
        }
        k = k + 1;
    }
    m
}

/// What a waveform sketch of `width` columns is drawn from: the peak of
/// each chunk of `frames / (2 width)` frames of the interleaved samples (at
/// most two per column), taken two at a time, and the largest of them.
/// `None` when the sketch is empty: no column, or chunks of no frame.
pub fn sketch_peaks(samples: &Vec<i32>, channels: usize, frames: usize, width: usize)
    -> (r: Option<(Vec<(i32, i32)>, i32)>)
    requires
        sketch_defined(samples@, channels, frames, width),
    ensures
        r is None <==> width == 0 || frames as int / (2 * width as int) == 0,
        r matches Some((pairs, top)) ==> {
            let v = sketch_values(samples@, channels, frames, width);
            &&& pairs@.map_values(|p: (i32, i32)| (p.0 as int, p.1 as int)) == pairs_of_values(v)
            &&& top == largest(v)
        },
{
    if width == 0 {
        return None;
    }
    let per_chunk = frames / (2 * width);
    if per_chunk == 0 {
        return None;
    }
    let size = per_chunk * channels;
    let count = 2 * width;
    let ghost all = chunk_peaks(samples@, size as nat, count as nat);
    let ghost lim = taken_len(samples@.len(), size as int, count as int);
    proof { lemma_chunk_count(samples@, size as nat, count as nat); }
    let mut values: Vec<i32> = Vec::new();
    let mut pos: usize = 0;
    assert(samples@.skip(0) =~= samples@);
    assert(values@.map_values(|v: i32| v as int) + all =~= all);
    while values.len() < count && pos < samples.len() && size > 0
        invariant
            pos <= samples@.len(),
            values@.len() <= count,
            lim == taken_len(samples@.len(), size as int, count as int),
            forall|i: int| 0 <= i < lim ==> samples@[i] > i32::MIN,
            pos == taken_len(samples@.len(), size as int, values@.len() as int),
            values@.map_values(|v: i32| v as int) + chunk_peaks(samples@.skip(pos as int), size as nat,
                (count - values@.len()) as nat) == all,
        decreases count - values@.len(),
    {
        let end: usize = if samples.len() - pos < size { samples.len() } else { pos + size };
        proof {
            let k = values@.len() as int;
            assert((k + 1) * size == k * size + size) by (nonlinear_arith);
            assert((k + 1) * size <= count * size) by (nonlinear_arith)
                requires
                    k + 1 <= count,
                    size >= 0,
            ;
            assert(pos == k * size);
            assert(end == taken_len(samples@.len(), size as int, k + 1));
            assert(end <= lim);
        }
        let m = chunk_peak(samples, pos, end);
        let ghost rest = samples@.skip(pos as int);
        let ghost n = end - pos;
        assert(rest.take(n as int) =~= samples@.subrange(pos as int, end as int));
        assert(rest.skip(n as int) =~= samples@.skip(end as int));
        let ghost before = values@.map_values(|v: i32| v as int);
        values.push(m);
        assert(values@.map_values(|v: i32| v as int) =~= before.push(m as int));
        assert(before.push(m as int) + chunk_peaks(samples@.skip(end as int), size as nat, (count - values@.len()) as nat)
            =~= before + (seq![m as int] + chunk_peaks(samples@.skip(end as int), size as nat, (count - values@.len()) as nat)));
        pos = end;
    }
    assert(chunk_peaks(samples@.skip(pos as int), size as nat, (count - values@.len()) as nat) =~= Seq::<int>::empty());
    let ghost v = values@.map_values(|x: i32| x as int);
    assert(v =~= all);
    let mut pairs: Vec<(i32, i32)> = Vec::new();
    let n = values.len();
    let half = n / 2;
    for i in 0..half
        invariant
            n == values@.len(),
            half == n / 2,
            v == values@.map_values(|x: i32| x as int),
            pairs@.map_values(|p: (i32, i32)| (p.0 as int, p.1 as int)) == pairs_of_values(v).take(i as int),
    {
        assert(2 * i + 1 < values@.len());
        let ghost before = pairs@.map_values(|p: (i32, i32)| (p.0 as int, p.1 as int));
        let a = values[2 * i];
        let b = values[2 * i + 1];
        pairs.push((a, b));
        assert(pairs_of_values(v)[i as int] == (v[2 * i], v[2 * i + 1]));
        assert(v[2 * i] == a as int && v[2 * i + 1] == b as int);
        assert(pairs@.map_values(|p: (i32, i32)| (p.0 as int, p.1 as int)) =~= before.push((a as int, b as int)));
        assert(pairs@.map_values(|p: (i32, i32)| (p.0 as int, p.1 as int)) =~= pairs_of_values(v).take(i + 1));
    }
    assert(pairs_of_values(v).take(half as int) =~= pairs_of_values(v));
    let mut top: i32 = 0;
    for i in 0..values.len()
        invariant
            v == values@.map_values(|x: i32| x as int),
            top == largest(v.take(i as int)),
    {
        assert(v.take(i + 1).drop_last() =~= v.take(i as int));
        if values[i] > top {
            top = values[i];
        }
    }
    assert(v.take(values@.len() as int) =~= v);
    Some((pairs, top))
}

} // verus!
