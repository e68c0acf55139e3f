//! Paths as byte strings: joining a name to a directory, and telling whether
//! a path lies under a directory.

use vstd::prelude::*;

verus! {

/// The byte that separates the parts of a path, `/`.
pub const SEPARATOR: u8 = 47;

/// The byte that alone names the directory it stands in, `.`.
pub const DOT: u8 = 46;

/// Whether a path starts at the root.
pub open spec fn is_absolute(path: Seq<u8>) -> bool {
    path.len() > 0 && path[0] == SEPARATOR
}

/// `rel` below `base`. An absolute `rel` stands for itself; otherwise one
/// separator is put between the two unless `base` is empty or ends in one.
pub open spec fn join(base: Seq<u8>, rel: Seq<u8>) -> Seq<u8> {
    if is_absolute(rel) {
        rel
    } else if base.len() == 0 || base.last() == SEPARATOR {
        base + rel
    } else {
        base.push(SEPARATOR) + rel
    }
}

/// The pieces of `path` between its separators: one more than it has
/// separators.
pub open spec fn pieces(path: Seq<u8>) -> Seq<Seq<u8>>
    decreases path.len(),
{
    if path.len() == 0 {
        seq![Seq::empty()]
    } else {
        let front = pieces(path.drop_last());
        if path.last() == SEPARATOR {
            front.push(Seq::empty())
        } else {
            front.drop_last().push(front.last().push(path.last()))
        }
    }
}

/// Whether a piece of a path names something: it is neither empty nor the
/// single dot.
pub open spec fn is_name(piece: Seq<u8>) -> bool {
    piece.len() > 0 && !(piece.len() == 1 && piece[0] == DOT)
}

/// The pieces that name something, in their order.
pub open spec fn names(list: Seq<Seq<u8>>) -> Seq<Seq<u8>>
    decreases list.len(),
{
    if list.len() == 0 {
        Seq::empty()
    } else if is_name(list.last()) {
        names(list.drop_last()).push(list.last())
    } else {
        names(list.drop_last())
    }
}

/// The names with one separator between each two.
pub open spec fn rejoined(list: Seq<Seq<u8>>) -> Seq<u8>
    decreases list.len(),
{
    if list.len() == 0 {
        Seq::empty()
    } else if list.len() == 1 {
        list[0]
    } else {
        rejoined(list.drop_last()).push(SEPARATOR) + list.last()
    }
}

/// The normal form of a path: the same parts in the same order, without
/// empty parts and single dots, one separator between each two, one in front
/// where the path is absolute and none at the end. Two paths with the same
/// parts have the same normal form.
pub open spec fn normal(path: Seq<u8>) -> Seq<u8> {
    let body = rejoined(names(pieces(path)));
    if is_absolute(path) {
        seq![SEPARATOR] + body
    } else {
        body
    }
}

/// Whether `path` is `base` itself or names something below it: `base` is a
/// prefix of `path` that ends where a part of `path` ends. Both are taken as
/// written; on paths in normal form this compares them part by part.
pub open spec fn lies_under(path: Seq<u8>, base: Seq<u8>) -> bool {
    &&& base.len() <= path.len()
    &&& path.take(base.len() as int) == base
    &&& (base.len() == 0 || base.len() == path.len() || path[base.len() as int] == SEPARATOR
        || base.last() == SEPARATOR)
}

/// A byte string without the separators it starts with.
pub open spec fn skip_separators(s: Seq<u8>) -> Seq<u8>
    decreases s.len(),
{
    if s.len() > 0 && s[0] == SEPARATOR {
        skip_separators(s.skip(1))
    } else {
        s
    }
}

/// What is left of `path` below `base`: the bytes after `base`, without
/// leading separators.
pub open spec fn relative_to(path: Seq<u8>, base: Seq<u8>) -> Seq<u8> {
    skip_separators(path.skip(base.len() as int))
}

/// There is always a last piece.
pub proof fn pieces_nonempty(path: Seq<u8>)
    ensures
        pieces(path).len() >= 1,
    decreases path.len(),
{
    if path.len() > 0 {
        pieces_nonempty(path.drop_last());
    }
}

/// Puts a finished piece behind the names so far, where it is a name.
fn put_name(
    out: &mut Vec<u8>,
    any: &mut bool,
    piece: &Vec<u8>,
    Ghost(head): Ghost<Seq<u8>>,
    Ghost(before): Ghost<Seq<Seq<u8>>>,
)
    requires
        old(out)@ == head + rejoined(names(before)),
        *old(any) == (names(before).len() > 0),
    ensures
        final(out)@ == head + rejoined(names(before.push(piece@))),
        *final(any) == (names(before.push(piece@)).len() > 0),
{
    let ghost now = before.push(piece@);
    proof {
        assert(now.drop_last() =~= before);
        assert(now.last() == piece@);
    }
    if piece.len() > 0 && !(piece.len() == 1 && piece[0] == DOT) {
        let ghost kept = names(before);
        proof {
            assert(names(now) == kept.push(piece@));
            assert(kept.push(piece@).drop_last() =~= kept);
        }
        if *any {
            out.push(SEPARATOR);
        }
        out.extend_from_slice(piece.as_slice());
        *any = true;
        proof {
            assert(out@ =~= head + rejoined(names(now)));
        }
    }
}

/// Brings a path into normal form.
pub fn normalize(path: &Vec<u8>) -> (out: Vec<u8>)
    ensures
        out@ == normal(path@),
{
    let mut out: Vec<u8> = Vec::new();
    if path.len() > 0 && path[0] == SEPARATOR {
        out.push(SEPARATOR);
    }
    let ghost head = out@;
    let mut any = false;
    let mut current: Vec<u8> = Vec::new();
    let mut i: usize = 0;
    proof {
        assert(path@.take(0) =~= Seq::empty());
        assert(pieces(path@.take(0)).drop_last() =~= Seq::<Seq<u8>>::empty());
        assert(out@ =~= head + rejoined(names(pieces(path@.take(0)).drop_last())));
    }
    while i < path.len()
        invariant
            i <= path.len(),
            out@ == head + rejoined(names(pieces(path@.take(i as int)).drop_last())),
            any == (names(pieces(path@.take(i as int)).drop_last()).len() > 0),
            current@ == pieces(path@.take(i as int)).last(),
        decreases path.len() - i,
    {
        let b = path[i];
        let ghost before = pieces(path@.take(i as int));
        proof {
            pieces_nonempty(path@.take(i as int));
            assert(path@.take(i + 1).drop_last() =~= path@.take(i as int));
            assert(path@.take(i + 1).last() == b);
        }
        if b == SEPARATOR {
            put_name(&mut out, &mut any, &current, Ghost(head), Ghost(before.drop_last()));
            current = Vec::new();
            proof {
                let now = pieces(path@.take(i + 1));
                assert(now == before.push(Seq::empty()));
                assert(now.drop_last() =~= before);
                assert(before.drop_last().push(before.last()) =~= before);
            }
        } else {
            current.push(b);
            proof {
                let now = pieces(path@.take(i + 1));
                assert(now == before.drop_last().push(before.last().push(b)));
                assert(now.drop_last() =~= before.drop_last());
            }
        }
        i += 1;
    }
    proof {
        assert(path@.take(path@.len() as int) =~= path@);
        pieces_nonempty(path@);
    }
    let ghost all = pieces(path@);
    put_name(&mut out, &mut any, &current, Ghost(head), Ghost(all.drop_last()));
    proof {
        assert(all.drop_last().push(all.last()) =~= all);
    }
    out
}

/// Joins `rel` to `base`.
pub fn join_path(base: &Vec<u8>, rel: &Vec<u8>) -> (out: Vec<u8>)
    ensures
        out@ == join(base@, rel@),
{
    if rel.len() > 0 && rel[0] == SEPARATOR {
        return rel.clone();
    }
    let mut out = base.clone();
    if base.len() > 0 && base[base.len() - 1] != SEPARATOR {
        out.push(SEPARATOR);
    }
    out.extend_from_slice(rel.as_slice());
    out
}

/// The name of `path` relative to `base`, where `path` lies under `base`.
pub fn strip_prefix(path: &Vec<u8>, base: &Vec<u8>) -> (rest: Option<Vec<u8>>)
    ensures
        rest is Some <==> lies_under(path@, base@),
        rest is Some ==> rest->Some_0@ == relative_to(path@, base@),
{
    let n = base.len();
    if n > path.len() {
        return None;
    }
    let mut i: usize = 0;
    while i < n
        invariant
            n == base.len(),
            n <= path.len(),
            i <= n,
            path@.take(i as int) == base@.take(i as int),
        decreases n - i,
    {
        if path[i] != base[i] {
            proof {
                assert(path@.take(n as int)[i as int] != base@[i as int]);
            }
            return None;
        }
        proof {
            assert(path@.take(i + 1) == path@.take(i as int).push(path@[i as int]));
            assert(base@.take(i + 1) == base@.take(i as int).push(base@[i as int]));
        }
        i += 1;
    }
    proof {
        assert(base@.take(n as int) == base@);
    }
    if !(n == 0 || n == path.len() || path[n] == SEPARATOR || base[n - 1] == SEPARATOR) {
        return None;
    }
    let mut k: usize = n;
    while k < path.len() && path[k] == SEPARATOR
        invariant
            n <= k,
            k <= path.len(),
            relative_to(path@, base@) == skip_separators(path@.skip(k as int)),
        decreases path.len() - k,
    {
        proof {
            assert(path@.skip(k as int).skip(1) =~= path@.skip(k + 1));
        }
        k += 1;
    }
    let mut out: Vec<u8> = Vec::new();
    let mut j: usize = k;
    while j < path.len()
        invariant
            k <= j,
            j <= path.len(),
            out@ == path@.subrange(k as int, j as int),
        decreases path.len() - j,
    {
        out.push(path[j]);
        proof {
            assert(path@.subrange(k as int, j + 1) == path@.subrange(k as int, j as int).push(
                path@[j as int],
            ));
        }
        j += 1;
    }
    proof {
        assert(path@.subrange(k as int, path@.len() as int) == path@.skip(k as int));
    }
    Some(out)
}

/// A relative name joined to a directory lies under it, and stripping the
/// directory gives the name back.
pub proof fn join_then_strip(base: Seq<u8>, rel: Seq<u8>)
    requires
        !is_absolute(rel),
    ensures
        lies_under(join(base, rel), base),
        relative_to(join(base, rel), base) == rel,
{
    let p = join(base, rel);
    assert(skip_separators(rel) == rel);
    assert(p.take(base.len() as int) =~= base);
    if base.len() == 0 || base.last() == SEPARATOR {
        assert(p.skip(base.len() as int) =~= rel);
    } else {
        let tail = p.skip(base.len() as int);
        assert(tail[0] == SEPARATOR);
        assert(tail.skip(1) =~= rel);
    }
}

/// Whether a byte string is one name of a path: it holds no separator and
/// is neither empty nor the single dot.
pub open spec fn is_plain_name(name: Seq<u8>) -> bool {
    is_name(name) && !name.contains(SEPARATOR)
}

/// Bytes without a separator, put behind a path, lengthen its last piece.
pub proof fn pieces_of_longer_path(base: Seq<u8>, more: Seq<u8>)
    requires
        !more.contains(SEPARATOR),
    ensures
        pieces(base).len() >= 1,
        pieces(base + more) == pieces(base).drop_last().push(pieces(base).last() + more),
    decreases more.len(),
{
    pieces_nonempty(base);
    let old_pieces = pieces(base);
    if more.len() == 0 {
        assert(base + more =~= base);
        assert(old_pieces.last() + more =~= old_pieces.last());
        assert(old_pieces.drop_last().push(old_pieces.last()) =~= old_pieces);
    } else {
        let front = more.drop_last();
        let b = more.last();
        assert(more[more.len() - 1] == b);
        assert(b != SEPARATOR);
        assert forall|i: int| 0 <= i < front.len() implies front[i] != SEPARATOR by {
            assert(more[i] == front[i]);
        }
        pieces_of_longer_path(base, front);
        let whole = base + more;
        assert(whole.drop_last() =~= base + front);
        assert(whole.last() == b);
        let mid = pieces(base + front);
        assert(mid.drop_last() =~= old_pieces.drop_last());
        assert(mid.last() == old_pieces.last() + front);
        assert((old_pieces.last() + front).push(b) =~= old_pieces.last() + more);
    }
}

/// A name joined to a directory adds one part to its parts: in normal form
/// the result lies under the directory.
pub proof fn joined_name_lies_under(base: Seq<u8>, name: Seq<u8>)
    requires
        is_plain_name(name),
    ensures
        lies_under(normal(join(base, name)), normal(base)),
{
    assert(name[0] != SEPARATOR);
    let old_pieces = pieces(base);
    let old_names = names(old_pieces);
    pieces_nonempty(base);
    let joined = join(base, name);
    let new_pieces = pieces(joined);
    // the name becomes one more piece, or fills the empty last piece
    if base.len() == 0 {
        pieces_of_longer_path(base, name);
        assert(old_pieces =~= seq![Seq::<u8>::empty()]);
        assert(old_pieces.last() + name =~= name);
        assert(new_pieces == old_pieces.drop_last().push(name));
        assert(!is_name(old_pieces.last()));
    } else if base.last() == SEPARATOR {
        pieces_of_longer_path(base, name);
        pieces_nonempty(base.drop_last());
        assert(old_pieces.last() =~= Seq::<u8>::empty());
        assert(old_pieces.last() + name =~= name);
        assert(new_pieces == old_pieces.drop_last().push(name));
        assert(!is_name(old_pieces.last()));
    } else {
        let with_sep = base.push(SEPARATOR);
        assert(joined =~= with_sep + name);
        pieces_of_longer_path(with_sep, name);
        assert(with_sep.drop_last() =~= base);
        assert(pieces(with_sep) == old_pieces.push(Seq::empty()));
        assert(pieces(with_sep).drop_last() =~= old_pieces);
        assert(pieces(with_sep).last() + name =~= name);
        assert(new_pieces == old_pieces.push(name));
    }
    let kept = if base.len() == 0 || base.last() == SEPARATOR {
        old_pieces.drop_last()
    } else {
        old_pieces
    };
    assert(new_pieces == kept.push(name));
    assert(names(kept) == old_names);
    assert(kept.push(name).drop_last() =~= kept);
    assert(names(new_pieces) == old_names.push(name));
    assert(old_names.push(name).drop_last() =~= old_names);
    assert(is_absolute(joined) == is_absolute(base));
    let head = if is_absolute(base) {
        seq![SEPARATOR]
    } else {
        Seq::<u8>::empty()
    };
    let low = normal(base);
    let high = normal(joined);
    assert(low == head + rejoined(old_names)) by {
        assert(Seq::<u8>::empty() + rejoined(old_names) =~= rejoined(old_names));
    }
    if old_names.len() == 0 {
        assert(low =~= head);
        assert(high =~= head + name);
        assert(high.take(low.len() as int) =~= low);
    } else {
        assert(high =~= low.push(SEPARATOR) + name);
        assert(high.take(low.len() as int) =~= low);
        assert(high[low.len() as int] == SEPARATOR);
    }
}

/// What lies under a directory lies under every directory that this one
/// lies under.
pub proof fn lies_under_is_transitive(path: Seq<u8>, middle: Seq<u8>, base: Seq<u8>)
    requires
        lies_under(path, middle),
        lies_under(middle, base),
    ensures
        lies_under(path, base),
{
    assert(path.take(base.len() as int) =~= base) by {
        assert forall|i: int| 0 <= i < base.len() implies path[i] == base[i] by {
            assert(path.take(middle.len() as int)[i] == middle[i]);
            assert(middle.take(base.len() as int)[i] == base[i]);
        }
    }
    if base.len() < middle.len() {
        assert(path.take(middle.len() as int)[base.len() as int] == middle[base.len() as int]);
    } else {
        assert(middle.take(base.len() as int) =~= middle);
    }
}

/// The name of a path relative to a directory starts with no separator.
pub proof fn relative_name_is_relative(path: Seq<u8>, base: Seq<u8>)
    ensures
        !is_absolute(relative_to(path, base)),
{
    skip_separators_is_relative(path.skip(base.len() as int));
}

/// What `skip_separators` returns starts with no separator.
pub proof fn skip_separators_is_relative(s: Seq<u8>)
    ensures
        !is_absolute(skip_separators(s)),
    decreases s.len(),
{
    if s.len() > 0 && s[0] == SEPARATOR {
        skip_separators_is_relative(s.skip(1));
    }
}

} // verus!
