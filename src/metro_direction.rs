//! The direction matrix: for a trip from `s` to `d`, the terminus toward
//! which the train to board runs.
use crate::matrix::{IndexMatrix, WeightMatrix, is_square};
use crate::metro_lines::{MetroLinesSet, line_contains, line_seqs, same_line};
use crate::path_iterator::valid_next;
use vstd::prelude::*;

verus! {

/// On a line with termini `t1` and `t2`, the terminus to head for from
/// `s` to reach `d`: `t2` unless `d` is nearer to `t1` than `s` is; `s`
/// itself for a trip to `s`.
pub open spec fn closer_terminus(dist: Seq<Seq<i64>>, t1: usize, t2: usize, s: usize, d: usize) -> usize {
    if s == d {
        s
    } else if dist[d as int][t1 as int] >= dist[s as int][t1 as int] {
        t2
    } else {
        t1
    }
}

/// The last of the first `k` lines that holds both `s` and `d`, or -1.
pub open spec fn last_line_with(lines: Seq<Seq<usize>>, s: usize, d: usize, k: int) -> int
    decreases k,
{
    if k <= 0 {
        -1
    } else if lines[k - 1].contains(s) && lines[k - 1].contains(d) {
        k - 1
    } else {
        last_line_with(lines, s, d, k - 1)
    }
}

/// The direction from `s` to `d` along the last line that holds both, or 0
/// when no line does.
pub open spec fn in_line_direction(
    lines: Seq<Seq<usize>>,
    terms: Seq<(usize, usize)>,
    dist: Seq<Seq<i64>>,
    s: usize,
    d: usize,
) -> usize {
    let k = last_line_with(lines, s, d, lines.len() as int);
    if k < 0 {
        0
    } else {
        closer_terminus(dist, terms[k].0, terms[k].1, s, d)
    }
}

/// Some line holds `s`.
pub open spec fn on_some_line(lines: Seq<Seq<usize>>, s: usize) -> bool {
    exists|k: int| 0 <= k < lines.len() && #[trigger] lines[k].contains(s)
}

/// Entry `(s, d)` of the direction matrix: along a shared line, the
/// direction toward `d`; between stations of different lines, the direction
/// toward the next interchange `ipm[s][d]`; 0 for a station on no line.
pub open spec fn direction_entry(
    lines: Seq<Seq<usize>>,
    terms: Seq<(usize, usize)>,
    dist: Seq<Seq<i64>>,
    ipm: Seq<Seq<usize>>,
    s: usize,
    d: usize,
) -> usize {
    if same_line(lines, s, d) {
        in_line_direction(lines, terms, dist, s, d)
    } else if on_some_line(lines, s) && on_some_line(lines, d) {
        in_line_direction(lines, terms, dist, s, ipm[s as int][d as int])
    } else {
        0
    }
}

/// `m` is the direction matrix of the lines, distances and interchange-path
/// matrix.
pub open spec fn is_direction_matrix(
    m: Seq<Seq<usize>>,
    lines: Seq<Seq<usize>>,
    terms: Seq<(usize, usize)>,
    dist: Seq<Seq<i64>>,
    ipm: Seq<Seq<usize>>,
) -> bool {
    &&& is_square(m, ipm.len())
    &&& forall|s: int, d: int|
        0 <= s < ipm.len() && 0 <= d < ipm.len() ==> #[trigger] m[s][d] == direction_entry(
            lines,
            terms,
            dist,
            ipm,
            s as usize,
            d as usize,
        )
}

/// The lines, termini and matrices fit a network of `n` stations.
pub open spec fn direction_inputs_ok(
    lines: Seq<Seq<usize>>,
    terms: Seq<(usize, usize)>,
    dist: Seq<Seq<i64>>,
    ipm: Seq<Seq<usize>>,
) -> bool {
    &&& valid_next(ipm)
    &&& is_square(dist, ipm.len())
    &&& terms.len() == lines.len()
    &&& forall|k: int| 0 <= k < terms.len() ==> (#[trigger] terms[k]).0 < ipm.len() && terms[k].1 < ipm.len()
}

/// The terminus to head for from `start` to `dest` on the line with
/// termini `t1` and `t2`.
fn find_closer(dist: &WeightMatrix, t1: usize, t2: usize, start: usize, dest: usize) -> (r: usize)
    requires
        is_square(dist@, dist@.len()),
        t1 < dist@.len(),
        start < dist@.len(),
        dest < dist@.len(),
    ensures
        r == closer_terminus(dist@, t1, t2, start, dest),
{
    if start == dest {
        start
    } else {
        let d1 = dist.get(start, t1);
        let d2 = dist.get(dest, t1);
        if d2 >= d1 {
            t2
        } else {
            t1
        }
    }
}

/// The direction from `s` to `d` along the last line that holds both.
fn set_in_line_direction(lines: &MetroLinesSet, dist: &WeightMatrix, s: usize, d: usize) -> (r: usize)
    requires
        is_square(dist@, dist@.len()),
        lines@.1.len() == lines@.0.len(),
        forall|k: int| 0 <= k < lines@.1.len() ==> (#[trigger] lines@.1[k]).0 < dist@.len(),
        s < dist@.len(),
        d < dist@.len(),
    ensures
        r == in_line_direction(lines@.0, lines@.1, dist@, s, d),
{
    let ls = lines.line_iterator();
    let terms = lines.get_terminus();
    let mut k: usize = ls.len();
    while k > 0
        invariant
            line_seqs(ls@) == lines@.0,
            terms@ == lines@.1,
            ls@.len() == terms@.len(),
            is_square(dist@, dist@.len()),
            forall|q: int| 0 <= q < terms@.len() ==> (#[trigger] terms@[q]).0 < dist@.len(),
            s < dist@.len(),
            d < dist@.len(),
            k <= ls@.len(),
            last_line_with(lines@.0, s, d, lines@.0.len() as int) == last_line_with(lines@.0, s, d, k as int),
        decreases k,
    {
        if line_contains(&ls[k - 1], s) && line_contains(&ls[k - 1], d) {
            let (t1, t2) = terms[k - 1];
            return find_closer(dist, t1, t2, s, d);
        }
        k = k - 1;
    }
    0
}

/// Whether some line holds `s`.
fn is_on_some_line(lines: &MetroLinesSet, s: usize) -> (r: bool)
    ensures
        r == on_some_line(lines@.0, s),
{
    let ls = lines.line_iterator();
    let mut k: usize = 0;
    while k < ls.len()
        invariant
            line_seqs(ls@) == lines@.0,
            k <= ls@.len(),
            forall|q: int| 0 <= q < k ==> !(#[trigger] lines@.0[q]).contains(s),
        decreases ls.len() - k,
    {
        if line_contains(&ls[k], s) {
            assert(lines@.0[k as int].contains(s));
            return true;
        }
        k = k + 1;
    }
    false
}

/// Entry `(s, d)` of the direction matrix.
fn set_cross_line_direction(
    lines: &MetroLinesSet,
    dist: &WeightMatrix,
    ipm: &IndexMatrix,
    s: usize,
    d: usize,
) -> (r: usize)
    requires
        direction_inputs_ok(lines@.0, lines@.1, dist@, ipm@),
        s < ipm@.len(),
        d < ipm@.len(),
    ensures
        r == direction_entry(lines@.0, lines@.1, dist@, ipm@, s, d),
{
    if lines.is_same_line(s, d) {
        set_in_line_direction(lines, dist, s, d)
    } else if is_on_some_line(lines, s) && is_on_some_line(lines, d) {
        let i = ipm.get(s, d);
        set_in_line_direction(lines, dist, s, i)
    } else {
        0
    }
}

/// Builds the direction matrix, as large as the successor matrix `next`,
/// from the distances, the lines with their termini, and the
/// interchange-path matrix.
pub fn build_metro_direction(
    next: &IndexMatrix,
    dist: &WeightMatrix,
    lines: &MetroLinesSet,
    ipm: &IndexMatrix,
) -> (r: IndexMatrix)
    requires
        next@.len() == ipm@.len(),
        direction_inputs_ok(lines@.0, lines@.1, dist@, ipm@),
        ipm@.len() * ipm@.len() <= isize::MAX,
    ensures
        is_direction_matrix(r@, lines@.0, lines@.1, dist@, ipm@),
{
    let n = next.nrows();
    let mut output = IndexMatrix::filled(n, 0);
    let mut s: usize = 0;
    while s < n
        invariant
            direction_inputs_ok(lines@.0, lines@.1, dist@, ipm@),
            n == ipm@.len(),
            is_square(output@, n as nat),
            s <= n,
            forall|a: int, b: int|
                0 <= a < s && 0 <= b < n ==> #[trigger] output@[a][b] == direction_entry(
                    lines@.0,
                    lines@.1,
                    dist@,
                    ipm@,
                    a as usize,
                    b as usize,
                ),
        decreases n - s,
    {
        let mut d: usize = 0;
        while d < n
            invariant
                direction_inputs_ok(lines@.0, lines@.1, dist@, ipm@),
                n == ipm@.len(),
                is_square(output@, n as nat),
                s < n,
                d <= n,
                forall|a: int, b: int|
                    0 <= a < s && 0 <= b < n ==> #[trigger] output@[a][b] == direction_entry(
                        lines@.0,
                        lines@.1,
                        dist@,
                        ipm@,
                        a as usize,
                        b as usize,
                    ),
                forall|b: int|
                    0 <= b < d ==> #[trigger] output@[s as int][b] == direction_entry(
                        lines@.0,
                        lines@.1,
                        dist@,
                        ipm@,
                        s,
                        b as usize,
                    ),
            decreases n - d,
        {
            let v = set_cross_line_direction(lines, dist, ipm, s, d);
            output.set(s, d, v);
            d = d + 1;
        }
        s = s + 1;
    }
    output
}

} // verus!

verus! {

proof fn lemma_last_line_found(lines: Seq<Seq<usize>>, s: usize, d: usize, k: int, w: int)
    requires
        0 <= w < k <= lines.len(),
        lines[w].contains(s) && lines[w].contains(d),
    ensures
        0 <= last_line_with(lines, s, d, k) < k,
    decreases k,
{
    if !(lines[k - 1].contains(s) && lines[k - 1].contains(d)) {
        lemma_last_line_found(lines, s, d, k - 1, w);
    }
}

/// A passenger at a station of some line, bound for that same station, is
/// told the station itself as direction.
pub proof fn lemma_direction_diagonal(
    m: Seq<Seq<usize>>,
    lines: Seq<Seq<usize>>,
    terms: Seq<(usize, usize)>,
    dist: Seq<Seq<i64>>,
    ipm: Seq<Seq<usize>>,
    s: usize,
)
    requires
        is_direction_matrix(m, lines, terms, dist, ipm),
        s < ipm.len(),
        on_some_line(lines, s),
    ensures
        m[s as int][s as int] == s,
{
    let w = choose|w: int| 0 <= w < lines.len() && #[trigger] lines[w].contains(s);
    assert(same_line(lines, s, s));
    lemma_last_line_found(lines, s, s, lines.len() as int, w);
}

} // verus!

verus! {

/// Between two distinct stations of a shared line, the direction is a
/// terminus of a line that holds both.
pub proof fn lemma_direction_is_terminus(
    m: Seq<Seq<usize>>,
    lines: Seq<Seq<usize>>,
    terms: Seq<(usize, usize)>,
    dist: Seq<Seq<i64>>,
    ipm: Seq<Seq<usize>>,
    s: usize,
    d: usize,
)
    requires
        is_direction_matrix(m, lines, terms, dist, ipm),
        s < ipm.len(),
        d < ipm.len(),
        s != d,
        same_line(lines, s, d),
    ensures
        exists|k: int|
            0 <= k < lines.len() && #[trigger] lines[k].contains(s) && lines[k].contains(d) && (m[s as int][d as int]
                == terms[k].0 || m[s as int][d as int] == terms[k].1),
{
    let w = choose|w: int| 0 <= w < lines.len() && #[trigger] lines[w].contains(s) && lines[w].contains(d);
    lemma_last_line_found(lines, s, d, lines.len() as int, w);
    lemma_last_line_holds(lines, s, d, lines.len() as int);
    let k = last_line_with(lines, s, d, lines.len() as int);
    assert(lines[k].contains(s) && lines[k].contains(d));
}

proof fn lemma_last_line_holds(lines: Seq<Seq<usize>>, s: usize, d: usize, k: int)
    requires
        k <= lines.len(),
        last_line_with(lines, s, d, k) >= 0,
    ensures
        last_line_with(lines, s, d, k) < k,
        lines[last_line_with(lines, s, d, k)].contains(s),
        lines[last_line_with(lines, s, d, k)].contains(d),
    decreases k,
{
    if k > 0 && !(lines[k - 1].contains(s) && lines[k - 1].contains(d)) {
        lemma_last_line_holds(lines, s, d, k - 1);
    }
}

/// Between stations of different lines, the direction is the one toward
/// the next interchange, when that interchange shares a line with the
/// start.
pub proof fn lemma_direction_through_interchange(
    m: Seq<Seq<usize>>,
    lines: Seq<Seq<usize>>,
    terms: Seq<(usize, usize)>,
    dist: Seq<Seq<i64>>,
    ipm: Seq<Seq<usize>>,
    s: usize,
    d: usize,
)
    requires
        is_direction_matrix(m, lines, terms, dist, ipm),
        valid_next(ipm),
        s < ipm.len(),
        d < ipm.len(),
        !same_line(lines, s, d),
        on_some_line(lines, s),
        on_some_line(lines, d),
        same_line(lines, s, ipm[s as int][d as int]),
    ensures
        m[s as int][d as int] == m[s as int][ipm[s as int][d as int] as int],
{
    let i = ipm[s as int][d as int];
    assert(i < ipm.len());
    assert(m[s as int][i as int] == direction_entry(lines, terms, dist, ipm, s, i));
}

} // verus!
