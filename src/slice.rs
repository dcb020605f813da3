//! Slice mode: the lines of a fetched window, numbered from the offset, and
//! the checks that every request passes first.
use vstd::prelude::*;

use crate::block::{numbered, views};
use crate::error::ReadError;
use crate::lines::{lines_of, split_lines};
use crate::text::{chars_of, format_line, push_decimal, string_of};

verus! {

/// What slice mode returns for the fetched text `content`: at most `limit`
/// of its lines, numbered from `offset`.
pub open spec fn slice_lines(content: Seq<char>, offset: usize, limit: usize) -> Result<
    Seq<Seq<char>>,
    ReadError,
> {
    let lines = lines_of(content);
    let count = if lines.len() <= limit {
        lines.len()
    } else {
        limit as nat
    };
    if offset == 0 {
        Err(ReadError::OffsetZero)
    } else if limit == 0 {
        Err(ReadError::LimitZero)
    } else if lines.len() == 0 {
        Err(ReadError::SliceEmpty)
    } else {
        Ok(Seq::new(count, |k: int| numbered((offset + k) as nat, lines[k])))
    }
}

/// The checks on offset and limit that every request passes first.
pub open spec fn window_check(offset: usize, limit: usize) -> Result<(), ReadError> {
    if offset == 0 {
        Err(ReadError::OffsetZero)
    } else if limit == 0 {
        Err(ReadError::LimitZero)
    } else {
        Ok(())
    }
}

/// Rejects a zero offset, then a zero limit.
pub fn validate_window(offset: usize, limit: usize) -> (r: Result<(), ReadError>)
    ensures
        r == window_check(offset, limit),
{
    if offset == 0 {
        Err(ReadError::OffsetZero)
    } else if limit == 0 {
        Err(ReadError::LimitZero)
    } else {
        Ok(())
    }
}

/// The lines of `content`, a window fetched from line `offset` on, each
/// rendered as `L<number>: <text>`; at most `limit` of them.
pub fn read_slice(content: &str, offset: usize, limit: usize) -> (r: Result<Vec<String>, ReadError>)
    requires
        offset + lines_of(content@).len() <= usize::MAX,
    ensures
        match r {
            Ok(v) => slice_lines(content@, offset, limit) == Ok::<Seq<Seq<char>>, ReadError>(
                views(v@),
            ),
            Err(e) => slice_lines(content@, offset, limit) == Err::<Seq<Seq<char>>, ReadError>(e),
        },
{
    if offset == 0 {
        return Err(ReadError::OffsetZero);
    }
    if limit == 0 {
        return Err(ReadError::LimitZero);
    }
    let lines = split_lines(content);
    if lines.len() == 0 {
        return Err(ReadError::SliceEmpty);
    }
    let count = if lines.len() <= limit {
        lines.len()
    } else {
        limit
    };
    let ghost want = Seq::new(count as nat, |k: int| numbered((offset + k) as nat, lines_of(content@)[k]));
    let mut out: Vec<String> = Vec::new();
    let mut k: usize = 0;
    while k < count
        invariant
            k <= count <= lines@.len(),
            lines@.len() == lines_of(content@).len(),
            forall|m: int| 0 <= m < lines@.len() ==> (#[trigger] lines@[m])@ == lines_of(content@)[m],
            offset + lines@.len() <= usize::MAX,
            want == Seq::new(count as nat, |m: int| numbered((offset + m) as nat, lines_of(content@)[m])),
            out@.len() == k,
            forall|m: int| 0 <= m < k ==> (#[trigger] out@[m])@ == want[m],
        decreases count - k,
    {
        let mut text: Vec<char> = Vec::new();
        text.push('L');
        push_decimal(&mut text, offset + k);
        text.push(':');
        text.push(' ');
        let shown = format_line(&chars_of(lines[k].as_str()));
        let ghost head = text@;
        let mut i: usize = 0;
        while i < shown.len()
            invariant
                i <= shown@.len(),
                text@ == head + shown@.take(i as int),
            decreases shown@.len() - i,
        {
            text.push(shown[i]);
            i += 1;
            assert(text@ =~= head + shown@.take(i as int));
        }
        assert(shown@.take(i as int) =~= shown@);
        assert(text@ =~= want[k as int]);
        out.push(string_of(&text));
        k += 1;
    }
    assert(views(out@) =~= want);
    Ok(out)
}

/// A slice-mode result holds at most `limit` lines, numbered from `offset`
/// on without a gap, the first being line `offset`.
pub proof fn lemma_slice_shape(content: Seq<char>, offset: usize, limit: usize)
    requires
        slice_lines(content, offset, limit) is Ok,
    ensures
        ({
            let v = slice_lines(content, offset, limit)->Ok_0;
            &&& 0 < v.len() <= limit
            &&& v[0] == numbered(offset as nat, lines_of(content)[0])
            &&& forall|k: int|
                0 <= k < v.len() ==> #[trigger] v[k] == numbered(
                    (offset + k) as nat,
                    lines_of(content)[k],
                )
        }),
{
}

/// Two slice requests with the same arguments on the same text get the same
/// result.
pub proof fn lemma_slice_deterministic(
    content1: Seq<char>,
    content2: Seq<char>,
    offset: usize,
    limit: usize,
)
    requires
        content1 == content2,
    ensures
        slice_lines(content1, offset, limit) == slice_lines(content2, offset, limit),
{
}

} // verus!
