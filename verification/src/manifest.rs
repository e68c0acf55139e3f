//! The list of files of an installed package, as the environment's
//! interpreter prints it: one path on each line.

use vstd::prelude::*;
use vstd::utf8::valid_utf8;
use crate::bytes::texts;

verus! {

/// The byte that ends a line.
pub const LINE_FEED: u8 = 10;

/// The byte that may stand before a line feed and then belongs to the line's
/// end.
pub const CARRIAGE_RETURN: u8 = 13;

/// The pieces of `s` between its line feeds: one more than it has line
/// feeds, the last being what follows the last line feed.
pub open spec fn pieces(s: Seq<u8>) -> Seq<Seq<u8>>
    decreases s.len(),
{
    if s.len() == 0 {
        seq![Seq::empty()]
    } else {
        let front = pieces(s.drop_last());
        if s.last() == LINE_FEED {
            front.push(Seq::empty())
        } else {
            front.drop_last().push(front.last().push(s.last()))
        }
    }
}

/// A line without the carriage return that stood before its line feed.
pub open spec fn without_cr(line: Seq<u8>) -> Seq<u8> {
    if line.len() > 0 && line.last() == CARRIAGE_RETURN {
        line.drop_last()
    } else {
        line
    }
}

/// Each piece without its closing carriage return.
pub open spec fn trimmed(list: Seq<Seq<u8>>) -> Seq<Seq<u8>> {
    Seq::new(list.len(), |i: int| without_cr(list[i]))
}

/// The lines of `s`. A line ends with a line feed, or with a carriage return
/// and a line feed, neither of which belongs to it; what follows the last
/// line feed is a line too unless it is empty.
pub open spec fn lines(s: Seq<u8>) -> Seq<Seq<u8>> {
    let all = pieces(s);
    let closed = trimmed(all.drop_last());
    if all.last().len() > 0 {
        closed.push(all.last())
    } else {
        closed
    }
}

/// There is always a last piece.
pub proof fn pieces_nonempty(s: Seq<u8>)
    ensures
        pieces(s).len() >= 1,
    decreases s.len(),
{
    if s.len() > 0 {
        pieces_nonempty(s.drop_last());
    }
}

/// Splits a manifest into its lines.
pub fn split_lines(manifest: &Vec<u8>) -> (out: Vec<Vec<u8>>)
    ensures
        texts(out@) == lines(manifest@),
{
    let mut out: Vec<Vec<u8>> = Vec::new();
    let mut current: Vec<u8> = Vec::new();
    let mut i: usize = 0;
    proof {
        assert(manifest@.take(0) =~= Seq::empty());
        assert(texts(out@) =~= trimmed(pieces(manifest@.take(0)).drop_last()));
    }
    while i < manifest.len()
        invariant
            i <= manifest.len(),
            texts(out@) == trimmed(pieces(manifest@.take(i as int)).drop_last()),
            current@ == pieces(manifest@.take(i as int)).last(),
        decreases manifest.len() - i,
    {
        let b = manifest[i];
        let ghost before = pieces(manifest@.take(i as int));
        let ghost done = out@;
        proof {
            pieces_nonempty(manifest@.take(i as int));
            assert(manifest@.take(i + 1).drop_last() =~= manifest@.take(i as int));
            assert(manifest@.take(i + 1).last() == b);
        }
        if b == LINE_FEED {
            let n = current.len();
            if n > 0 && current[n - 1] == CARRIAGE_RETURN {
                current.pop();
            }
            out.push(current);
            current = Vec::new();
            proof {
                let now = pieces(manifest@.take(i + 1));
                assert(now == before.push(Seq::empty()));
                assert(now.drop_last() =~= before);
                assert(texts(out@) =~= texts(done).push(without_cr(before.last())));
                assert(trimmed(before) =~= trimmed(before.drop_last()).push(without_cr(before.last())));
            }
        } else {
            current.push(b);
            proof {
                let now = pieces(manifest@.take(i + 1));
                assert(now == before.drop_last().push(before.last().push(b)));
                assert(now.drop_last() =~= before.drop_last());
            }
        }
        i += 1;
    }
    proof {
        assert(manifest@.take(manifest@.len() as int) =~= manifest@);
    }
    if current.len() > 0 {
        let ghost done = out@;
        let ghost last = current@;
        out.push(current);
        proof {
            assert(texts(out@) =~= texts(done).push(last));
        }
    }
    out
}

/// Whether `bytes` is text in UTF-8. Calls `std::str::from_utf8` and reports
/// whether it succeeded, which it does exactly on well-formed UTF-8.
#[verifier::external_body]
pub(crate) fn decodes(bytes: &Vec<u8>) -> (ok: bool)
    ensures
        ok == valid_utf8(bytes@),
{
    std::str::from_utf8(bytes.as_slice()).is_ok()
}

} // verus!
