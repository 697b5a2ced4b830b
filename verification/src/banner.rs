//! The banner that is dripped to every connection: lines of text, each of
//! which ends in a carriage return and a line feed.

use vstd::prelude::*;
use vstd::string::StringSliceAdditionalSpecFns;

verus! {

/// The byte that ends a line in a text.
pub const LINE_FEED: u8 = 0x0a;

/// The byte that may stand before a line feed, and does in a banner.
pub const CARRIAGE_RETURN: u8 = 0x0d;

/// The lines of the banner that is sent where no other was asked for.
pub const DEFAULT_LINES: &'static str =
    "My name is Yon Yonson\nI live in Wisconsin.\nThere, the people I meet\nAs I walk down the street\nSay \u{201c}Hey, what\u{2019}s your name?\u{201d}\nAnd I say:\n";

/// Number of bytes before the first line feed of `text`, or in all of `text`
/// where it holds no line feed.
pub open spec fn first_line_len(text: Seq<u8>) -> nat
    decreases text.len(),
{
    if text.len() == 0 || text[0] == LINE_FEED {
        0
    } else {
        1 + first_line_len(text.drop_first())
    }
}

/// `line` without the carriage return at its end, if it has one.
pub open spec fn without_return(line: Seq<u8>) -> Seq<u8> {
    if line.len() > 0 && line.last() == CARRIAGE_RETURN {
        line.drop_last()
    } else {
        line
    }
}

/// The end of a line in a banner.
pub open spec fn line_end() -> Seq<u8> {
    seq![CARRIAGE_RETURN, LINE_FEED]
}

/// The banner for `text`: the lines of `text`, each with a carriage return
/// and a line feed at its end. A line of `text` ends at a line feed, and a
/// carriage return before that line feed belongs to the line's end; what
/// follows the last line feed is a line as it stands.
pub open spec fn normalized(text: Seq<u8>) -> Seq<u8>
    decreases text.len(),
{
    if text.len() == 0 {
        Seq::empty()
    } else {
        let n = first_line_len(text);
        if n >= text.len() {
            text + line_end()
        } else {
            without_return(text.take(n as int)) + line_end() + normalized(text.skip(n as int + 1))
        }
    }
}

/// A stretch of `text` without a line feed, which ends at one or at the end
/// of `text`, is the first line of what begins with it.
proof fn lemma_first_line(text: Seq<u8>, start: int, end: int)
    requires
        0 <= start <= end <= text.len(),
        forall|j: int| start <= j < end ==> text[j] != LINE_FEED,
        end < text.len() ==> text[end] == LINE_FEED,
    ensures
        first_line_len(text.skip(start)) == end - start,
    decreases end - start,
{
    let rest = text.skip(start);
    if start < end {
        assert(rest[0] == text[start]);
        assert(rest.drop_first() =~= text.skip(start + 1));
        lemma_first_line(text, start + 1, end);
    } else if end < text.len() {
        assert(rest[0] == text[end]);
    }
}

/// Makes the banner for `text`.
pub fn normalize(text: &[u8]) -> (banner: Vec<u8>)
    ensures
        banner@ == normalized(text@),
{
    let mut banner: Vec<u8> = Vec::new();
    let mut start: usize = 0;
    assert(text@.skip(0) =~= text@);
    while start < text.len()
        invariant
            start <= text.len(),
            banner@ + normalized(text@.skip(start as int)) == normalized(text@),
        decreases text.len() - start,
    {
        let mut end: usize = start;
        while end < text.len() && text[end] != LINE_FEED
            invariant
                start <= end <= text.len(),
                forall|j: int| start <= j < end ==> text@[j] != LINE_FEED,
            decreases text.len() - end,
        {
            end = end + 1;
        }
        let stop: usize = if end < text.len() && end > start && text[end - 1] == CARRIAGE_RETURN {
            end - 1
        } else {
            end
        };
        let ghost before = banner@;
        let mut at: usize = start;
        while at < stop
            invariant
                start <= at <= stop <= text.len(),
                banner@ == before + text@.subrange(start as int, at as int),
            decreases stop - at,
        {
            banner.push(text[at]);
            at = at + 1;
            assert(banner@ =~= before + text@.subrange(start as int, at as int));
        }
        banner.push(CARRIAGE_RETURN);
        banner.push(LINE_FEED);
        proof {
            let rest = text@.skip(start as int);
            lemma_first_line(text@, start as int, end as int);
            assert(rest.take(end - start) =~= text@.subrange(start as int, end as int));
            if end < text.len() {
                assert(rest.skip(end - start + 1) =~= text@.skip(end + 1));
                assert(banner@ =~= before + without_return(rest.take(end - start)) + line_end());
            } else {
                assert(rest =~= text@.subrange(start as int, end as int));
                assert(banner@ =~= before + (rest + line_end()));
                assert(text@.skip(end as int) =~= Seq::<u8>::empty());
            }
        }
        start = if end < text.len() {
            end + 1
        } else {
            end
        };
        assert(banner@ + normalized(text@.skip(start as int)) =~= normalized(text@));
    }
    assert(text@.skip(start as int) =~= Seq::<u8>::empty());
    assert(banner@ =~= banner@ + Seq::<u8>::empty());
    banner
}

/// Makes the banner that is sent where no other was asked for.
pub fn default_banner() -> (banner: Vec<u8>)
    ensures
        banner@ == normalized(DEFAULT_LINES.spec_bytes()),
{
    normalize(DEFAULT_LINES.as_bytes())
}

} // verus!
