//! Splitting text into numbered line records, and the effective indentation
//! of each line.
use vstd::prelude::*;

use crate::text::{
    all_white, chars_of, count_leading_white, display_of, format_line, indent_of, is_all_white,
    measure_indent, string_of, trim_start, TAB_WIDTH,
};

verus! {

/// The pieces of `s` between line feeds, the last one included even when empty.
pub open spec fn split_newlines(s: Seq<char>) -> Seq<Seq<char>>
    decreases s.len(),
{
    if s.len() == 0 {
        seq![Seq::empty()]
    } else {
        let p = split_newlines(s.drop_last());
        if s.last() == '\n' {
            p.push(Seq::empty())
        } else {
            p.update(p.len() - 1, p.last().push(s.last()))
        }
    }
}

/// `l` without any carriage returns at its end.
pub open spec fn strip_cr(l: Seq<char>) -> Seq<char>
    decreases l.len(),
{
    if l.len() > 0 && l.last() == '\r' {
        strip_cr(l.drop_last())
    } else {
        l
    }
}

/// The lines of `s`: the pieces between line feeds, with no empty piece after
/// a final line feed, each without trailing carriage returns.
pub open spec fn lines_of(s: Seq<char>) -> Seq<Seq<char>> {
    let p = split_newlines(s);
    let q = if p.last().len() == 0 {
        p.drop_last()
    } else {
        p
    };
    q.map_values(|l: Seq<char>| strip_cr(l))
}

/// Indent of the nearest line before index `k` that is not blank, or 0.
pub open spec fn last_indent(lines: Seq<Seq<char>>, k: int) -> nat
    decreases k,
{
    if k <= 0 {
        0
    } else if !all_white(lines[k - 1]) {
        indent_of(lines[k - 1])
    } else {
        last_indent(lines, k - 1)
    }
}

/// Effective indent of line index `k`: its own indent, or for a blank line
/// that of the nearest non-blank line above it (0 if there is none).
pub open spec fn effective_indent(lines: Seq<Seq<char>>, k: int) -> nat {
    last_indent(lines, k + 1)
}

/// Whether `s`, once its leading whitespace is trimmed, opens with a comment
/// marker: `#`, `//` or `--`.
pub open spec fn is_comment_text(s: Seq<char>) -> bool {
    let t = trim_start(s);
    (t.len() >= 1 && t[0] == '#') || (t.len() >= 2 && t[0] == '/' && t[1] == '/') || (t.len()
        >= 2 && t[0] == '-' && t[1] == '-')
}

/// One physical line of a file.
pub struct LineRecord {
    /// Position in the file, counted from 1.
    pub number: usize,
    /// The line's text, without line feed or trailing carriage returns.
    pub raw: Vec<char>,
    /// The text as shown: cut to a bounded number of bytes.
    pub display: String,
    /// Width of the leading spaces and tabs.
    pub indent: usize,
}

impl LineRecord {
    /// The record is what the builder makes of line `raw` at index `k`.
    pub open spec fn wf_at(&self, k: int) -> bool {
        &&& self.number == k + 1
        &&& self.indent == indent_of(self.raw@)
        &&& self.display@ == display_of(self.raw@)
    }

    /// The text without its leading whitespace.
    pub fn trimmed(&self) -> (r: Vec<char>)
        ensures
            r@ == trim_start(self.raw@),
    {
        let start = count_leading_white(&self.raw);
        let mut out: Vec<char> = Vec::new();
        let mut i: usize = start;
        while i < self.raw.len()
            invariant
                start <= i <= self.raw@.len(),
                out@ == self.raw@.subrange(start as int, i as int),
            decreases self.raw@.len() - i,
        {
            out.push(self.raw[i]);
            i += 1;
            assert(out@ =~= self.raw@.subrange(start as int, i as int));
        }
        assert(out@ =~= trim_start(self.raw@));
        out
    }

    /// Whether the line holds nothing but whitespace.
    pub fn is_blank(&self) -> (r: bool)
        ensures
            r == all_white(self.raw@),
    {
        is_all_white(&self.raw)
    }

    /// Whether the trimmed line opens with a comment marker.
    pub fn is_comment(&self) -> (r: bool)
        ensures
            r == is_comment_text(self.raw@),
    {
        let s = count_leading_white(&self.raw);
        let n = self.raw.len();
        (s < n && self.raw[s] == '#') || (s < n && n - s >= 2 && self.raw[s] == '/'
            && self.raw[s + 1] == '/') || (s < n && n - s >= 2 && self.raw[s] == '-' && self.raw[s
            + 1] == '-')
    }
}

/// Every record is what the builder makes of the line at its index.
pub open spec fn records_wf(recs: Seq<LineRecord>) -> bool {
    forall|k: int| 0 <= k < recs.len() ==> (#[trigger] recs[k]).wf_at(k)
}

/// The raw text of each record.
pub open spec fn raw_lines(recs: Seq<LineRecord>) -> Seq<Seq<char>> {
    recs.map_values(|r: LineRecord| r.raw@)
}

/// `l` without trailing carriage returns.
fn strip_trailing_cr(l: &mut Vec<char>)
    ensures
        final(l)@ == strip_cr(old(l)@),
        final(l)@.len() <= old(l)@.len(),
{
    while l.len() > 0 && l[l.len() - 1] == '\r'
        invariant
            strip_cr(l@) == strip_cr(old(l)@),
            l@.len() <= old(l)@.len(),
        decreases l@.len(),
    {
        l.pop();
    }
}

/// The lines of `cs`, each as its characters.
fn split_chars(cs: &Vec<char>) -> (r: Vec<Vec<char>>)
    ensures
        r@.len() == lines_of(cs@).len(),
        forall|k: int| 0 <= k < r@.len() ==> (#[trigger] r@[k])@ == lines_of(cs@)[k],
        forall|k: int| 0 <= k < r@.len() ==> (#[trigger] r@[k])@.len() <= cs@.len(),
{
    let mut done: Vec<Vec<char>> = Vec::new();
    let mut cur: Vec<char> = Vec::new();
    let mut i: usize = 0;
    assert(cs@.take(0) =~= Seq::<char>::empty());
    while i < cs.len()
        invariant
            i <= cs@.len(),
            split_newlines(cs@.take(i as int)).len() == done@.len() + 1,
            forall|k: int|
                0 <= k < done@.len() ==> (#[trigger] done@[k])@ == split_newlines(
                    cs@.take(i as int),
                )[k],
            cur@ == split_newlines(cs@.take(i as int)).last(),
            forall|k: int| 0 <= k < done@.len() ==> (#[trigger] done@[k])@.len() <= i,
            cur@.len() <= i,
        decreases cs@.len() - i,
    {
        let c = cs[i];
        assert(cs@.take(i + 1).drop_last() =~= cs@.take(i as int));
        if c == '\n' {
            let line = cur;
            done.push(line);
            cur = Vec::new();
        } else {
            cur.push(c);
        }
        i += 1;
    }
    assert(cs@.take(i as int) =~= cs@);
    let ghost full = split_newlines(cs@);
    if cur.len() > 0 {
        done.push(cur);
    }
    let ghost kept = if full.last().len() == 0 {
        full.drop_last()
    } else {
        full
    };
    assert(done@.len() == kept.len());
    let mut out: Vec<Vec<char>> = Vec::new();
    let mut k: usize = 0;
    while k < done.len()
        invariant
            k <= done@.len(),
            done@.len() == kept.len(),
            forall|m: int| 0 <= m < done@.len() ==> (#[trigger] done@[m])@ == kept[m],
            forall|m: int| 0 <= m < done@.len() ==> (#[trigger] done@[m])@.len() <= cs@.len(),
            out@.len() == k,
            forall|m: int| 0 <= m < k ==> (#[trigger] out@[m])@ == strip_cr(kept[m]),
            forall|m: int| 0 <= m < k ==> (#[trigger] out@[m])@.len() <= cs@.len(),
        decreases done@.len() - k,
    {
        let mut line = done[k].clone();
        assert(line@ == done@[k as int]@);
        strip_trailing_cr(&mut line);
        out.push(line);
        k += 1;
    }
    out
}

/// The lines of `content`: split at line feeds, no empty line after a final
/// line feed, trailing carriage returns removed.
pub fn split_lines(content: &str) -> (r: Vec<String>)
    ensures
        r@.len() == lines_of(content@).len(),
        forall|k: int| 0 <= k < r@.len() ==> (#[trigger] r@[k])@ == lines_of(content@)[k],
{
    let cs = chars_of(content);
    let pieces = split_chars(&cs);
    let mut out: Vec<String> = Vec::new();
    let mut k: usize = 0;
    while k < pieces.len()
        invariant
            k <= pieces@.len(),
            pieces@.len() == lines_of(content@).len(),
            forall|m: int| 0 <= m < pieces@.len() ==> (#[trigger] pieces@[m])@ == lines_of(content@)[m],
            out@.len() == k,
            forall|m: int| 0 <= m < k ==> (#[trigger] out@[m])@ == lines_of(content@)[m],
        decreases pieces@.len() - k,
    {
        out.push(string_of(&pieces[k]));
        k += 1;
    }
    out
}

/// One record per line of `content`, numbered from 1, with indent and display
/// text.
pub fn collect_file_lines(content: &str) -> (r: Vec<LineRecord>)
    requires
        content@.len() * TAB_WIDTH <= usize::MAX,
    ensures
        raw_lines(r@) == lines_of(content@),
        records_wf(r@),
{
    let cs = chars_of(content);
    let pieces = split_chars(&cs);
    let mut out: Vec<LineRecord> = Vec::new();
    let mut k: usize = 0;
    while k < pieces.len()
        invariant
            k <= pieces@.len(),
            cs@ == content@,
            content@.len() * TAB_WIDTH <= usize::MAX,
            pieces@.len() == lines_of(content@).len(),
            forall|m: int| 0 <= m < pieces@.len() ==> (#[trigger] pieces@[m])@ == lines_of(content@)[m],
            forall|m: int| 0 <= m < pieces@.len() ==> (#[trigger] pieces@[m])@.len() <= cs@.len(),
            out@.len() == k,
            forall|m: int| 0 <= m < k ==> (#[trigger] out@[m]).raw@ == lines_of(content@)[m],
            records_wf(out@),
        decreases pieces@.len() - k,
    {
        let raw = pieces[k].clone();
        assert(raw@ == pieces@[k as int]@);
        let indent = measure_indent(&raw);
        let display = string_of(&format_line(&raw));
        out.push(LineRecord { number: k + 1, raw, display, indent });
        k += 1;
    }
    assert(raw_lines(out@) =~= lines_of(content@));
    out
}

/// The effective indent of each record, in order.
pub fn compute_effective_indents(records: &Vec<LineRecord>) -> (r: Vec<usize>)
    requires
        records_wf(records@),
    ensures
        r@.len() == records@.len(),
        forall|k: int|
            0 <= k < r@.len() ==> (#[trigger] r@[k]) == effective_indent(raw_lines(records@), k),
{
    let ghost lines = raw_lines(records@);
    let mut effective: Vec<usize> = Vec::new();
    let mut previous_indent: usize = 0;
    let mut k: usize = 0;
    while k < records.len()
        invariant
            k <= records@.len(),
            lines == raw_lines(records@),
            records_wf(records@),
            previous_indent == last_indent(lines, k as int),
            effective@.len() == k,
            forall|m: int| 0 <= m < k ==> (#[trigger] effective@[m]) == effective_indent(lines, m),
        decreases records@.len() - k,
    {
        let rec = &records[k];
        assert(records@[k as int].wf_at(k as int));
        assert(lines[k as int] == rec.raw@);
        if !rec.is_blank() {
            previous_indent = rec.indent;
        }
        effective.push(previous_indent);
        k += 1;
    }
    effective
}

} // verus!
