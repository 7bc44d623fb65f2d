//! The lines of a byte stream. A line ends at a line feed, or at a carriage
//! return that a line feed follows; the last line may lack its ending.

use vstd::prelude::*;
use vstd::slice::slice_subrange;

verus! {

/// The line feed.
pub const LINE_FEED: u8 = 10;

/// The carriage return.
pub const CARRIAGE_RETURN: u8 = 13;

/// The number of bytes before the first line feed of `s`, or the length of
/// `s` where it holds none.
pub open spec fn line_end(s: Seq<u8>) -> nat
    decreases s.len(),
{
    if s.len() == 0 || s[0] == LINE_FEED {
        0
    } else {
        1 + line_end(s.drop_first())
    }
}

/// `line` without the carriage return at its end, if it has one.
pub open spec fn without_return(line: Seq<u8>) -> Seq<u8> {
    if line.len() > 0 && line.last() == CARRIAGE_RETURN {
        line.drop_last()
    } else {
        line
    }
}

/// The lines of `s`, without their endings. What follows the last line
/// feed is a line if it is not empty, and it keeps a carriage return at
/// its end: no line feed follows that one.
pub open spec fn lines_of(s: Seq<u8>) -> Seq<Seq<u8>>
    decreases s.len(),
{
    if s.len() == 0 {
        Seq::empty()
    } else if line_end(s) >= s.len() {
        seq![s]
    } else {
        seq![without_return(s.take(line_end(s) as int))] + lines_of(s.skip(line_end(s) as int + 1))
    }
}

/// `line_end` is the place of the first line feed.
pub proof fn lemma_line_end_is_first(s: Seq<u8>)
    ensures
        line_end(s) <= s.len(),
        forall|k: int| 0 <= k < line_end(s) ==> s[k] != LINE_FEED,
        line_end(s) < s.len() ==> s[line_end(s) as int] == LINE_FEED,
    decreases s.len(),
{
    if s.len() == 0 || s[0] == LINE_FEED {
    } else {
        let rest = s.drop_first();
        lemma_line_end_is_first(rest);
        assert forall|k: int| 0 <= k < line_end(s) implies s[k] != LINE_FEED by {
            if k > 0 {
                assert(s[k] == rest[k - 1]);
            }
        }
        assert(line_end(s) < s.len() ==> s[line_end(s) as int] == rest[line_end(rest) as int]);
    }
}

/// A place that no line feed precedes, and that holds one or is the end,
/// is `line_end`.
pub proof fn lemma_first_is_line_end(s: Seq<u8>, n: int)
    requires
        0 <= n <= s.len(),
        forall|k: int| 0 <= k < n ==> s[k] != LINE_FEED,
        n < s.len() ==> s[n] == LINE_FEED,
    ensures
        line_end(s) == n,
    decreases n,
{
    if n > 0 {
        let rest = s.drop_first();
        assert forall|k: int| 0 <= k < n - 1 implies rest[k] != LINE_FEED by {
            assert(rest[k] == s[k + 1]);
        }
        lemma_first_is_line_end(rest, n - 1);
    }
}

/// The lines of two streams in a row are the lines of the first and then
/// those of the second, where the first is empty or ends with a line feed.
pub proof fn lemma_lines_of_concat(a: Seq<u8>, b: Seq<u8>)
    requires
        a.len() == 0 || a.last() == LINE_FEED,
    ensures
        lines_of(a + b) == lines_of(a) + lines_of(b),
    decreases a.len(),
{
    if a.len() == 0 {
        assert(a + b =~= b);
        assert(lines_of(a) + lines_of(b) =~= lines_of(b));
    } else {
        let n = line_end(a) as int;
        lemma_line_end_is_first(a);
        assert(n < a.len()) by {
            if n >= a.len() {
                assert(a[a.len() - 1] != LINE_FEED);
            }
        }
        let whole = a + b;
        assert forall|k: int| 0 <= k < n implies whole[k] != LINE_FEED by {
            assert(whole[k] == a[k]);
        }
        assert(whole[n] == a[n]);
        lemma_first_is_line_end(whole, n);
        let rest = a.skip(n + 1);
        assert(whole.take(n) =~= a.take(n));
        assert(whole.skip(n + 1) =~= rest + b);
        assert(rest.len() == 0 || rest.last() == LINE_FEED) by {
            if rest.len() > 0 {
                assert(rest.last() == a.last());
            }
        }
        lemma_lines_of_concat(rest, b);
        assert(lines_of(whole) =~= lines_of(a) + lines_of(b));
    }
}

/// The views of a list of lines, in the same order.
pub open spec fn line_views(lines: Seq<&[u8]>) -> Seq<Seq<u8>> {
    lines.map_values(|l: &[u8]| l@)
}

/// The line that begins at `start`, and the place where the next begins.
fn take_line<'a>(stream: &'a [u8], start: usize) -> (cut: (&'a [u8], usize))
    requires
        start < stream.len(),
    ensures
        start < cut.1 <= stream.len(),
        lines_of(stream@.skip(start as int)) == seq![cut.0@] + lines_of(
            stream@.skip(cut.1 as int),
        ),
{
    let ghost tail = stream@.skip(start as int);
    let mut end: usize = start;
    while end < stream.len() && stream[end] != LINE_FEED
        invariant
            start <= end <= stream.len(),
            forall|k: int| start <= k < end ==> stream@[k] != LINE_FEED,
        decreases stream.len() - end,
    {
        end += 1;
    }
    proof {
        assert forall|k: int| 0 <= k < end - start implies tail[k] != LINE_FEED by {
            assert(tail[k] == stream@[start + k]);
        }
        lemma_first_is_line_end(tail, end - start);
    }
    if end == stream.len() {
        proof {
            assert(stream@.subrange(start as int, end as int) =~= tail);
            assert(stream@.skip(end as int) =~= Seq::<u8>::empty());
            assert(seq![tail] + lines_of(stream@.skip(end as int)) =~= seq![tail]);
        }
        (slice_subrange(stream, start, end), end)
    } else {
        let stop: usize = if end > start && stream[end - 1] == CARRIAGE_RETURN {
            end - 1
        } else {
            end
        };
        proof {
            let line = tail.take(end - start);
            assert(line =~= stream@.subrange(start as int, end as int));
            assert(without_return(line) =~= stream@.subrange(start as int, stop as int));
            assert(tail.skip(end - start + 1) =~= stream@.skip(end + 1));
        }
        (slice_subrange(stream, start, stop), end + 1)
    }
}

/// Splits a stream into its lines.
pub fn split_lines<'a>(stream: &'a [u8]) -> (lines: Vec<&'a [u8]>)
    ensures
        line_views(lines@) == lines_of(stream@),
{
    let mut lines: Vec<&'a [u8]> = Vec::new();
    let mut start: usize = 0;
    assert(stream@.skip(0) =~= stream@);
    while start < stream.len()
        invariant
            start <= stream.len(),
            line_views(lines@) + lines_of(stream@.skip(start as int)) == lines_of(stream@),
        decreases stream.len() - start,
    {
        let ghost before = lines@;
        let (line, next) = take_line(stream, start);
        lines.push(line);
        assert(line_views(lines@) =~= line_views(before) + seq![line@]);
        start = next;
    }
    assert(stream@.skip(start as int) =~= Seq::<u8>::empty());
    assert(line_views(lines@) + Seq::<Seq<u8>>::empty() =~= line_views(lines@));
    lines
}

} // verus!
