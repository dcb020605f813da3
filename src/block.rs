//! Indentation mode: the block of lines that encloses an anchor line, found
//! by scanning outward while the effective indent stays deep enough.
use vstd::prelude::*;

use crate::error::ReadError;
use crate::lines::{
    collect_file_lines, compute_effective_indents, effective_indent, is_comment_text, lines_of,
    raw_lines, records_wf, LineRecord,
};
use crate::text::{all_white, chars_of, decimal, display_of, push_decimal, string_of, TAB_WIDTH};

verus! {

/// Options of indentation mode.
pub struct IndentationArgs {
    /// Line to scan from; the request's offset when absent.
    pub anchor_line: Option<usize>,
    /// How many indentation levels the scan may climb; 0 for no bound.
    pub max_levels: usize,
    /// Whether lines at the threshold depth may be taken without limit.
    pub include_siblings: bool,
    /// Whether comment lines at the threshold depth above the anchor are kept.
    pub include_header: bool,
    /// Hard ceiling on the number of lines returned.
    pub max_lines: Option<usize>,
}

impl Default for IndentationArgs {
    fn default() -> (r: Self)
        ensures
            r.anchor_line is None,
            r.max_levels == 0,
            !r.include_siblings,
            r.include_header,
            r.max_lines is None,
    {
        IndentationArgs {
            anchor_line: None,
            max_levels: 0,
            include_siblings: false,
            include_header: true,
            max_lines: None,
        }
    }
}

/// What the scan reads: effective indents, which lines are comments, the
/// threshold depth, the two switches and the line budget.
pub struct ScanParams {
    pub eff: Seq<nat>,
    pub comment: Seq<bool>,
    pub min: nat,
    pub siblings: bool,
    pub header: bool,
    pub limit: nat,
}

/// State of the scan: the window `[lo, hi)` of line indices, whether each
/// side may still grow, and whether each side has taken a threshold line.
pub struct Scan {
    pub lo: nat,
    pub hi: nat,
    pub up: bool,
    pub down: bool,
    pub up_edge: bool,
    pub down_edge: bool,
}

/// One step upward: take the line above the window if it is deep enough; at
/// the threshold depth (siblings excluded) only the first such line, or a
/// comment when headers are kept. Also says whether a line was taken.
pub open spec fn up_step(p: ScanParams, s: Scan) -> (Scan, bool) {
    if !s.up || s.lo == 0 {
        (s, false)
    } else {
        let k = (s.lo - 1) as nat;
        if p.eff[k as int] < p.min {
            (Scan { up: false, ..s }, false)
        } else if p.eff[k as int] == p.min && !p.siblings {
            if (p.header && p.comment[k as int]) || !s.up_edge {
                (Scan { lo: k, up_edge: true, ..s }, true)
            } else {
                (Scan { up: false, ..s }, false)
            }
        } else {
            (Scan { lo: k, ..s }, true)
        }
    }
}

/// One step downward: take the line below the window if it is deep enough; at
/// the threshold depth (siblings excluded) only the first such line.
pub open spec fn down_step(p: ScanParams, s: Scan) -> (Scan, bool) {
    if !s.down || s.hi >= p.eff.len() {
        (s, false)
    } else {
        let k = s.hi;
        if p.eff[k as int] < p.min {
            (Scan { down: false, ..s }, false)
        } else if p.eff[k as int] == p.min && !p.siblings {
            if s.down_edge {
                (Scan { down: false, ..s }, false)
            } else {
                (Scan { hi: k + 1, down_edge: true, ..s }, true)
            }
        } else {
            (Scan { hi: k + 1, ..s }, true)
        }
    }
}

/// What each round that takes a line makes smaller.
pub open spec fn scan_measure(p: ScanParams, s: Scan) -> nat {
    s.lo + (if s.hi <= p.eff.len() {
        (p.eff.len() - s.hi) as nat
    } else {
        0
    })
}

/// Rounds of one upward and one downward step, until the window holds
/// `limit` lines (checked after each step) or a round takes nothing.
pub open spec fn run(p: ScanParams, s: Scan) -> Scan
    decreases scan_measure(p, s),
{
    if s.hi - s.lo >= p.limit {
        s
    } else {
        let s1 = up_step(p, s).0;
        if s1.hi - s1.lo >= p.limit {
            s1
        } else {
            let s2 = down_step(p, s1).0;
            if !up_step(p, s).1 && !down_step(p, s1).1 {
                s2
            } else {
                run(p, s2)
            }
        }
    }
}

/// Start of the scan: the window holds the anchor line alone.
pub open spec fn initial_scan(a: nat) -> Scan {
    Scan { lo: a, hi: a + 1, up: true, down: true, up_edge: false, down_edge: false }
}

/// Threshold depth: 0 when `max_levels` is 0, else the anchor's depth less
/// `max_levels` tab widths, not below 0.
pub open spec fn min_indent(anchor_indent: nat, max_levels: nat) -> nat {
    if max_levels == 0 || anchor_indent <= max_levels * TAB_WIDTH {
        0
    } else {
        (anchor_indent - max_levels * TAB_WIDTH) as nat
    }
}

/// The line budget: the least of `limit`, `max_lines` when given, and `n`.
pub open spec fn final_limit(limit: nat, max_lines: Option<usize>, n: nat) -> nat {
    let g = match max_lines {
        Some(m) => m as nat,
        None => limit,
    };
    let a = if limit <= g {
        limit
    } else {
        g
    };
    if a <= n {
        a
    } else {
        n
    }
}

/// First index at or after `lo` (before `hi`) whose line is not blank, or `hi`.
pub open spec fn trim_front(lines: Seq<Seq<char>>, lo: int, hi: int) -> int
    decreases hi - lo,
{
    if lo < hi && all_white(lines[lo]) {
        trim_front(lines, lo + 1, hi)
    } else {
        lo
    }
}

/// End of `[lo, hi)` once blank lines at its end are dropped.
pub open spec fn trim_back(lines: Seq<Seq<char>>, lo: int, hi: int) -> int
    decreases hi - lo,
{
    if lo < hi && all_white(lines[hi - 1]) {
        trim_back(lines, lo, hi - 1)
    } else {
        hi
    }
}

/// The scan over `lines` with threshold `min` and budget `limit`.
pub open spec fn scan_params(
    lines: Seq<Seq<char>>,
    min: nat,
    options: IndentationArgs,
    limit: nat,
) -> ScanParams {
    ScanParams {
        eff: Seq::new(lines.len(), |k: int| effective_indent(lines, k)),
        comment: Seq::new(lines.len(), |k: int| is_comment_text(lines[k])),
        min,
        siblings: options.include_siblings,
        header: options.include_header,
        limit,
    }
}

/// The anchor line that a request names.
pub open spec fn anchor_of(offset: usize, options: IndentationArgs) -> nat {
    match options.anchor_line {
        Some(a) => a as nat,
        None => offset as nat,
    }
}

/// The window `[lo, hi)` of line indices that indentation mode returns, or
/// the error it reports.
pub open spec fn block_window(
    lines: Seq<Seq<char>>,
    offset: usize,
    limit: usize,
    options: IndentationArgs,
) -> Result<(int, int), ReadError> {
    let n = lines.len();
    let anchor = anchor_of(offset, options);
    let guard = match options.max_lines {
        Some(m) => m as nat,
        None => limit as nat,
    };
    if offset == 0 {
        Err(ReadError::OffsetZero)
    } else if n == 0 || offset > n {
        Err(ReadError::OffsetPastEnd)
    } else if anchor == 0 || anchor > n {
        Err(ReadError::AnchorPastEnd)
    } else if guard == 0 {
        Err(ReadError::MaxLinesZero)
    } else if limit == 0 {
        Err(ReadError::LimitZero)
    } else {
        let a = (anchor - 1) as nat;
        let fl = final_limit(limit as nat, options.max_lines, n);
        if fl == 1 {
            Ok((a as int, a + 1 as int))
        } else {
            let min = min_indent(effective_indent(lines, a as int), options.max_levels as nat);
            let s = run(scan_params(lines, min, options, fl), initial_scan(a));
            let lo = trim_front(lines, s.lo as int, s.hi as int);
            let hi = trim_back(lines, lo, s.hi as int);
            let capped = match options.max_lines {
                Some(m) => if hi - lo > m {
                    lo + m
                } else {
                    hi
                },
                None => hi,
            };
            Ok((lo, capped))
        }
    }
}

/// `L<number>: <display>` for a line of text.
pub open spec fn numbered(number: nat, line: Seq<char>) -> Seq<char> {
    seq!['L'] + decimal(number) + seq![':', ' '] + display_of(line)
}

/// `L<number>: <display>` for a record.
pub open spec fn rendered(rec: LineRecord) -> Seq<char> {
    seq!['L'] + decimal(rec.number as nat) + seq![':', ' '] + rec.display@
}

/// What indentation mode returns for a file of `lines`: the lines of the
/// window, each numbered by its place in the file.
pub open spec fn block_lines(
    lines: Seq<Seq<char>>,
    offset: usize,
    limit: usize,
    options: IndentationArgs,
) -> Result<Seq<Seq<char>>, ReadError> {
    match block_window(lines, offset, limit, options) {
        Ok((lo, hi)) => Ok(Seq::new((hi - lo) as nat, |k: int| numbered((lo + k + 1) as nat, lines[lo + k]))),
        Err(e) => Err(e),
    }
}

/// The characters of a result's strings.
pub open spec fn views(v: Seq<String>) -> Seq<Seq<char>> {
    v.map_values(|s: String| s@)
}

/// `L<number>: <display>` for one record.
fn render_record(rec: &LineRecord) -> (r: String)
    ensures
        r@ == rendered(*rec),
{
    let mut out: Vec<char> = Vec::new();
    out.push('L');
    push_decimal(&mut out, rec.number);
    out.push(':');
    out.push(' ');
    let shown = chars_of(rec.display.as_str());
    let mut i: usize = 0;
    let ghost head = out@;
    while i < shown.len()
        invariant
            i <= shown@.len(),
            out@ == head + shown@.take(i as int),
        decreases shown@.len() - i,
    {
        out.push(shown[i]);
        i += 1;
        assert(out@ =~= head + shown@.take(i as int));
    }
    assert(shown@.take(i as int) =~= rec.display@);
    assert(out@ =~= rendered(*rec));
    string_of(&out)
}

/// Drops blank lines from both ends of the window `[lo, hi)`.
pub fn trim_empty_lines(records: &Vec<LineRecord>, lo: usize, hi: usize) -> (r: (usize, usize))
    requires
        lo <= hi <= records@.len(),
    ensures
        r.0 == trim_front(raw_lines(records@), lo as int, hi as int),
        r.1 == trim_back(raw_lines(records@), r.0 as int, hi as int),
        lo <= r.0 <= r.1 <= hi,
{
    let ghost lines = raw_lines(records@);
    let mut a: usize = lo;
    while a < hi && records[a].is_blank()
        invariant
            lo <= a <= hi <= records@.len(),
            lines == raw_lines(records@),
            trim_front(lines, lo as int, hi as int) == trim_front(lines, a as int, hi as int),
        decreases hi - a,
    {
        a += 1;
    }
    let mut b: usize = hi;
    while a < b && records[b - 1].is_blank()
        invariant
            a <= b <= hi <= records@.len(),
            lines == raw_lines(records@),
            trim_back(lines, a as int, hi as int) == trim_back(lines, a as int, b as int),
        decreases b - a,
    {
        b -= 1;
    }
    (a, b)
}

/// Threshold depth for an anchor at `anchor_indent` and `max_levels`.
pub fn compute_min_indent(anchor_indent: usize, max_levels: usize) -> (r: usize)
    ensures
        r == min_indent(anchor_indent as nat, max_levels as nat),
{
    if max_levels == 0 || max_levels > anchor_indent / TAB_WIDTH {
        proof {
            if max_levels > anchor_indent / TAB_WIDTH {
                assert(anchor_indent <= max_levels * TAB_WIDTH) by (nonlinear_arith)
                    requires
                        max_levels > anchor_indent / TAB_WIDTH,
                        TAB_WIDTH == 4,
                ;
            }
        }
        0
    } else {
        assert(max_levels * TAB_WIDTH <= anchor_indent) by (nonlinear_arith)
            requires
                max_levels <= anchor_indent / TAB_WIDTH,
                TAB_WIDTH == 4,
        ;
        anchor_indent - max_levels * TAB_WIDTH
    }
}

/// The block of lines around the anchor, each rendered as `L<number>: <text>`.
pub fn read_block(
    collected: &Vec<LineRecord>,
    offset: usize,
    limit: usize,
    options: &IndentationArgs,
) -> (r: Result<Vec<String>, ReadError>)
    requires
        records_wf(collected@),
    ensures
        match r {
            Ok(v) => block_lines(raw_lines(collected@), offset, limit, *options) == Ok::<
                Seq<Seq<char>>,
                ReadError,
            >(views(v@)),
            Err(e) => block_lines(raw_lines(collected@), offset, limit, *options) == Err::<
                Seq<Seq<char>>,
                ReadError,
            >(e),
        },
{
    let ghost lines = raw_lines(collected@);
    let n = collected.len();
    if offset == 0 {
        return Err(ReadError::OffsetZero);
    }
    if n == 0 || offset > n {
        return Err(ReadError::OffsetPastEnd);
    }
    let anchor_line = match options.anchor_line {
        Some(a) => a,
        None => offset,
    };
    if anchor_line == 0 || anchor_line > n {
        return Err(ReadError::AnchorPastEnd);
    }
    let guard_limit = match options.max_lines {
        Some(m) => m,
        None => limit,
    };
    if guard_limit == 0 {
        return Err(ReadError::MaxLinesZero);
    }
    if limit == 0 {
        return Err(ReadError::LimitZero);
    }
    let anchor_index = anchor_line - 1;
    let effective = compute_effective_indents(collected);
    let mut final_lim = if limit <= guard_limit {
        limit
    } else {
        guard_limit
    };
    if final_lim > n {
        final_lim = n;
    }
    let ghost fl = final_limit(limit as nat, options.max_lines, n as nat);
    assert(final_lim == fl);
    let (lo, hi) = if final_lim == 1 {
        (anchor_index, anchor_index + 1)
    } else {
        let min = compute_min_indent(effective[anchor_index], options.max_levels);
        let ghost p = scan_params(lines, min as nat, *options, fl);
        let ghost init = initial_scan(anchor_index as nat);
        let mut lo: usize = anchor_index;
        let mut hi: usize = anchor_index + 1;
        let mut up = true;
        let mut down = true;
        let mut up_edge = false;
        let mut down_edge = false;
        loop
            invariant
                lo <= anchor_index < hi <= n,
                n == collected@.len(),
                lines == raw_lines(collected@),
                records_wf(collected@),
                effective@.len() == n,
                forall|k: int|
                    0 <= k < n ==> (#[trigger] effective@[k]) == effective_indent(lines, k),
                p == scan_params(lines, min as nat, *options, fl),
                final_lim == fl,
                run(p, init) == run(
                    p,
                    Scan { lo: lo as nat, hi: hi as nat, up, down, up_edge, down_edge },
                ),
            ensures
                lo <= anchor_index < hi <= n,
                run(p, init) == (Scan { lo: lo as nat, hi: hi as nat, up, down, up_edge, down_edge }),
            decreases scan_measure(
                p,
                Scan { lo: lo as nat, hi: hi as nat, up, down, up_edge, down_edge },
            ),
        {
            let ghost s0 = Scan { lo: lo as nat, hi: hi as nat, up, down, up_edge, down_edge };
            if hi - lo >= final_lim {
                break ;
            }
            let mut took_up = false;
            if up && lo > 0 {
                let k = lo - 1;
                if effective[k] < min {
                    up = false;
                } else if effective[k] == min && !options.include_siblings {
                    if (options.include_header && collected[k].is_comment()) || !up_edge {
                        lo = k;
                        up_edge = true;
                        took_up = true;
                    } else {
                        up = false;
                    }
                } else {
                    lo = k;
                    took_up = true;
                }
            }
            let ghost s1 = Scan { lo: lo as nat, hi: hi as nat, up, down, up_edge, down_edge };
            assert(up_step(p, s0) == (s1, took_up));
            if hi - lo >= final_lim {
                break ;
            }
            let mut took_down = false;
            if down && hi < n {
                let k = hi;
                if effective[k] < min {
                    down = false;
                } else if effective[k] == min && !options.include_siblings {
                    if down_edge {
                        down = false;
                    } else {
                        hi = k + 1;
                        down_edge = true;
                        took_down = true;
                    }
                } else {
                    hi = k + 1;
                    took_down = true;
                }
            }
            let ghost s2 = Scan { lo: lo as nat, hi: hi as nat, up, down, up_edge, down_edge };
            assert(down_step(p, s1) == (s2, took_down));
            if !took_up && !took_down {
                break ;
            }
        }
        let (a, b) = trim_empty_lines(collected, lo, hi);
        let mut b = b;
        match options.max_lines {
            Some(m) => {
                if b - a > m {
                    b = a + m;
                }
            },
            None => {},
        }
        (a, b)
    };
    let mut out: Vec<String> = Vec::new();
    let mut k: usize = lo;
    while k < hi
        invariant
            lo <= k <= hi,
            hi <= collected@.len(),
            out@.len() == k - lo,
            lines == raw_lines(collected@),
            records_wf(collected@),
            forall|m: int|
                0 <= m < k - lo ==> (#[trigger] out@[m])@ == numbered(
                    (lo + m + 1) as nat,
                    lines[lo + m],
                ),
        decreases hi - k,
    {
        assert(collected@[k as int].wf_at(k as int));
        out.push(render_record(&collected[k]));
        k += 1;
    }
    assert(views(out@) =~= Seq::new(
        (hi - lo) as nat,
        |m: int| numbered((lo + m + 1) as nat, lines[lo + m]),
    ));
    Ok(out)
}

/// Indentation mode on the whole text of a file: the block around the anchor.
pub fn read_indent_block(
    content: &str,
    offset: usize,
    limit: usize,
    options: &IndentationArgs,
) -> (r: Result<Vec<String>, ReadError>)
    requires
        content@.len() * TAB_WIDTH <= usize::MAX,
    ensures
        content@.len() == 0 ==> r == Err::<Vec<String>, ReadError>(ReadError::EmptyFile),
        content@.len() > 0 ==> match r {
            Ok(v) => block_lines(lines_of(content@), offset, limit, *options) == Ok::<
                Seq<Seq<char>>,
                ReadError,
            >(views(v@)),
            Err(e) => block_lines(lines_of(content@), offset, limit, *options) == Err::<
                Seq<Seq<char>>,
                ReadError,
            >(e),
        },
{
    if content.is_empty() {
        return Err(ReadError::EmptyFile);
    }
    let records = collect_file_lines(content);
    read_block(&records, offset, limit, options)
}

/// The window stays around the anchor, inside the file and within the budget
/// through every round of the scan.
proof fn lemma_run_keeps_window(p: ScanParams, s: Scan, a: nat)
    requires
        p.limit >= 1,
        s.lo <= a < s.hi <= p.eff.len(),
        s.hi - s.lo <= p.limit,
    ensures
        run(p, s).lo <= a < run(p, s).hi <= p.eff.len(),
        run(p, s).hi - run(p, s).lo <= p.limit,
    decreases scan_measure(p, s),
{
    if s.hi - s.lo < p.limit {
        let s1 = up_step(p, s).0;
        if s1.hi - s1.lo < p.limit {
            let s2 = down_step(p, s1).0;
            if up_step(p, s).1 || down_step(p, s1).1 {
                lemma_run_keeps_window(p, s2, a);
            }
        }
    }
}

proof fn lemma_trim_front(lines: Seq<Seq<char>>, lo: int, hi: int)
    requires
        0 <= lo <= hi <= lines.len(),
    ensures
        lo <= trim_front(lines, lo, hi) <= hi,
        forall|k: int| lo <= k < trim_front(lines, lo, hi) ==> all_white(#[trigger] lines[k]),
        trim_front(lines, lo, hi) < hi ==> !all_white(lines[trim_front(lines, lo, hi)]),
    decreases hi - lo,
{
    if lo < hi && all_white(lines[lo]) {
        lemma_trim_front(lines, lo + 1, hi);
    }
}

proof fn lemma_trim_back(lines: Seq<Seq<char>>, lo: int, hi: int)
    requires
        0 <= lo <= hi <= lines.len(),
    ensures
        lo <= trim_back(lines, lo, hi) <= hi,
        forall|k: int| trim_back(lines, lo, hi) <= k < hi ==> all_white(#[trigger] lines[k]),
        lo < trim_back(lines, lo, hi) ==> !all_white(lines[trim_back(lines, lo, hi) - 1]),
    decreases hi - lo,
{
    if lo < hi && all_white(lines[hi - 1]) {
        lemma_trim_back(lines, lo, hi - 1);
    }
}

/// Shape of an indentation-mode result `[lo, hi)`: a range of lines inside
/// the file, no longer than the least of `limit`, `max_lines` and the file's
/// length; holding the anchor whenever the anchor line is not blank; and,
/// unless every line in it is blank, opening and closing on non-blank lines.
pub proof fn lemma_block_window_shape(
    lines: Seq<Seq<char>>,
    offset: usize,
    limit: usize,
    options: IndentationArgs,
)
    requires
        block_window(lines, offset, limit, options) is Ok,
    ensures
        ({
            let (lo, hi) = block_window(lines, offset, limit, options)->Ok_0;
            let a = anchor_of(offset, options) - 1;
            &&& 0 <= lo <= hi <= lines.len()
            &&& hi - lo <= final_limit(limit as nat, options.max_lines, lines.len())
            &&& !all_white(lines[a]) ==> lo <= a < hi
            &&& lo < hi ==> (!all_white(lines[lo]) && !all_white(lines[hi - 1])) || (forall|
                k: int,
            |
                lo <= k < hi ==> all_white(#[trigger] lines[k]))
        }),
{
    let n = lines.len();
    let a = (anchor_of(offset, options) - 1) as nat;
    let fl = final_limit(limit as nat, options.max_lines, n);
    if fl != 1 {
        let min = min_indent(effective_indent(lines, a as int), options.max_levels as nat);
        let p = scan_params(lines, min, options, fl);
        let s = run(p, initial_scan(a));
        lemma_run_keeps_window(p, initial_scan(a), a);
        let lo = trim_front(lines, s.lo as int, s.hi as int);
        lemma_trim_front(lines, s.lo as int, s.hi as int);
        let hi = trim_back(lines, lo, s.hi as int);
        lemma_trim_back(lines, lo, s.hi as int);
        if !all_white(lines[a as int]) {
            assert(lo <= a);
            assert(a < hi);
        }
    }
}

/// Each returned line carries its own number in the file: the entry at
/// position `k` of an indentation-mode result is line `lo + k + 1`, rendered,
/// for the window `[lo, hi)`; the numbers run without a gap.
pub proof fn lemma_block_numbering(
    lines: Seq<Seq<char>>,
    offset: usize,
    limit: usize,
    options: IndentationArgs,
)
    requires
        block_lines(lines, offset, limit, options) is Ok,
    ensures
        ({
            let (lo, hi) = block_window(lines, offset, limit, options)->Ok_0;
            let v = block_lines(lines, offset, limit, options)->Ok_0;
            &&& v.len() == hi - lo
            &&& forall|k: int|
                0 <= k < v.len() ==> #[trigger] v[k] == numbered(
                    (lo + k + 1) as nat,
                    lines[lo + k],
                )
        }),
{
    lemma_block_window_shape(lines, offset, limit, options);
}

/// With `max_levels` 0 the threshold depth is 0: the scan may widen down to
/// the outermost level.
pub proof fn lemma_unbounded_levels(anchor_indent: nat)
    ensures
        min_indent(anchor_indent, 0) == 0,
{
}

/// Two requests with the same arguments on the same lines get the same result.
pub proof fn lemma_block_deterministic(
    lines1: Seq<Seq<char>>,
    lines2: Seq<Seq<char>>,
    offset: usize,
    limit: usize,
    options1: IndentationArgs,
    options2: IndentationArgs,
)
    requires
        lines1 == lines2,
        options1 == options2,
    ensures
        block_lines(lines1, offset, limit, options1) == block_lines(lines2, offset, limit, options2),
{
}

} // verus!
