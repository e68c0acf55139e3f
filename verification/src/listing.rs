//! The order in which a project's commands are listed, and the line printed
//! for each.

use vstd::prelude::*;
use crate::bytes::{fold_le, folded_le, lex_le_total, lex_le_transitive, folded, texts};
use crate::script::{Script, ScriptEntry};

verus! {

/// The names of a script table, entry by entry.
pub open spec fn names(table: Seq<ScriptEntry>) -> Seq<Seq<u8>> {
    Seq::new(table.len(), |i: int| table[i].name@)
}

/// Whether `order` lists the positions of `keys` in ascending order of the
/// keys without regard to ASCII case, keys that differ only in case in the
/// order in which they stand in `keys`, each position once.
pub open spec fn is_listing_order(keys: Seq<Seq<u8>>, order: Seq<usize>) -> bool {
    &&& order.len() == keys.len()
    &&& forall|i: int| 0 <= i < order.len() ==> (#[trigger] order[i]) < keys.len()
    &&& forall|k: usize| k < keys.len() ==> #[trigger] order.contains(k)
    &&& ascending(keys, order)
}

/// Whether the positions in `order` stand in ascending order of their keys,
/// equal keys by position.
pub open spec fn ascending(keys: Seq<Seq<u8>>, order: Seq<usize>) -> bool {
    forall|i: int, j: int|
        0 <= i < j < order.len() ==> comes_before(keys, #[trigger] order[i], #[trigger] order[j])
}

/// Whether position `a` is listed before position `b`.
pub open spec fn comes_before(keys: Seq<Seq<u8>>, a: usize, b: usize) -> bool {
    &&& fold_le(keys[a as int], keys[b as int])
    &&& fold_le(keys[b as int], keys[a as int]) ==> a < b
}

/// The order in which the entries of a script table are listed.
pub fn listing_order(table: &Vec<ScriptEntry>) -> (order: Vec<usize>)
    ensures
        is_listing_order(names(table@), order@),
{
    let ghost keys = names(table@);
    let mut order: Vec<usize> = Vec::new();
    let mut n: usize = 0;
    while n < table.len()
        invariant
            n <= table.len(),
            keys == names(table@),
            order@.len() == n,
            forall|i: int| 0 <= i < order@.len() ==> (#[trigger] order@[i]) < n,
            forall|k: usize| k < n ==> #[trigger] order@.contains(k),
            ascending(keys, order@),
        decreases table.len() - n,
    {
        let mut p: usize = order.len();
        while p > 0 && !folded_le(&table[order[p - 1]].name, &table[n].name)
            invariant
                n < table.len(),
                keys == names(table@),
                p <= order@.len(),
                forall|i: int| 0 <= i < order@.len() ==> (#[trigger] order@[i]) < n,
                forall|j: int| p <= j < order@.len() ==> !fold_le(keys[(#[trigger] order@[j]) as int], keys[n as int]),
            decreases p,
        {
            p -= 1;
        }
        let ghost before = order@;
        order.insert(p, n);
        proof {
            let after = order@;
            assert(after == before.insert(p as int, n));
            assert forall|i: int| 0 <= i < after.len() implies (#[trigger] after[i]) < n + 1 by {
                if i < p {
                    assert(after[i] == before[i]);
                } else if i > p {
                    assert(after[i] == before[i - 1]);
                }
            }
            assert forall|k: usize| k < n + 1 implies #[trigger] after.contains(k) by {
                if k == n {
                    assert(after[p as int] == n);
                } else {
                    assert(before.contains(k));
                    let i0 = choose|i: int| 0 <= i < before.len() && before[i] == k;
                    if i0 < p {
                        assert(after[i0] == k);
                    } else {
                        assert(after[i0 + 1] == before[i0]);
                    }
                }
            }
            assert forall|i: int, j: int| 0 <= i < j < after.len() implies comes_before(
                keys,
                #[trigger] after[i],
                #[trigger] after[j],
            ) by {
                if j < p {
                    assert(after[i] == before[i] && after[j] == before[j]);
                } else if i > p {
                    assert(after[i] == before[i - 1] && after[j] == before[j - 1]);
                } else if i < p && j > p {
                    assert(after[i] == before[i] && after[j] == before[j - 1]);
                } else if j == p {
                    // an entry that stays in front of the new one
                    assert(after[i] == before[i]);
                    assert(fold_le(keys[before[p - 1] as int], keys[n as int]));
                    if i < p - 1 {
                        assert(comes_before(keys, before[i], before[p - 1]));
                        lex_le_transitive(
                            folded(keys[before[i] as int]),
                            folded(keys[before[p - 1] as int]),
                            folded(keys[n as int]),
                        );
                    }
                } else {
                    // an entry that moves behind the new one
                    assert(i == p);
                    assert(after[j] == before[j - 1]);
                    lex_le_total(folded(keys[n as int]), folded(keys[before[j - 1] as int]));
                }
            }
        }
        n += 1;
    }
    order
}

/// Two listing orders of the same keys agree on their first `n` places.
proof fn orders_agree(keys: Seq<Seq<u8>>, a: Seq<usize>, b: Seq<usize>, n: int)
    requires
        is_listing_order(keys, a),
        is_listing_order(keys, b),
        0 <= n <= keys.len(),
    ensures
        forall|i: int| 0 <= i < n ==> a[i] == b[i],
    decreases n,
{
    if n > 0 {
        orders_agree(keys, a, b, n - 1);
        let i = n - 1;
        if a[i] != b[i] {
            assert(b.contains(a[i]));
            let j = choose|j: int| 0 <= j < b.len() && b[j] == a[i];
            assert(a.contains(b[i]));
            let k = choose|k: int| 0 <= k < a.len() && a[k] == b[i];
            if j < i {
                assert(a[j] == b[j]);
                assert(comes_before(keys, a[j], a[i]));
            } else if k < i {
                assert(a[k] == b[k]);
                assert(comes_before(keys, b[k], b[i]));
            } else {
                assert(comes_before(keys, b[i], b[j]));
                assert(comes_before(keys, a[i], a[k]));
            }
        }
    }
}

/// The keys of a table have one listing order and no other.
pub proof fn listing_order_is_unique(keys: Seq<Seq<u8>>, a: Seq<usize>, b: Seq<usize>)
    requires
        is_listing_order(keys, a),
        is_listing_order(keys, b),
    ensures
        a == b,
{
    orders_agree(keys, a, b, keys.len() as int);
    assert(a =~= b);
}

/// The parts of a command, one space between each two.
pub open spec fn spaced(parts: Seq<Seq<u8>>) -> Seq<u8>
    decreases parts.len(),
{
    if parts.len() == 0 {
        Seq::empty()
    } else if parts.len() == 1 {
        parts[0]
    } else {
        spaced(parts.drop_last()).push(32u8) + parts.last()
    }
}

/// The line that lists an entry: the bare name of a passthrough entry; for
/// an alias the name, a space, and in round brackets its arguments.
pub open spec fn line_of(entry: ScriptEntry) -> Seq<u8> {
    match entry.script {
        Script::External(_) => entry.name@,
        Script::Cmd(parts) => (entry.name@ + seq![32u8, 40u8] + spaced(texts(parts@))).push(41u8),
    }
}

/// Renders the line that lists an entry.
pub fn render_line(entry: &ScriptEntry) -> (line: Vec<u8>)
    ensures
        line@ == line_of(*entry),
{
    let mut line = entry.name.clone();
    match &entry.script {
        Script::External(_) => {},
        Script::Cmd(parts) => {
            line.push(32u8);
            line.push(40u8);
            let ghost head = line@;
            let mut i: usize = 0;
            while i < parts.len()
                invariant
                    i <= parts.len(),
                    line@ == head + spaced(texts(parts@).take(i as int)),
                decreases parts.len() - i,
            {
                proof {
                    let now = texts(parts@).take(i + 1);
                    assert(now.drop_last() =~= texts(parts@).take(i as int));
                    assert(now.last() == parts@[i as int]@);
                }
                if i > 0 {
                    line.push(32u8);
                }
                line.extend_from_slice(parts[i].as_slice());
                proof {
                    assert(line@ =~= head + spaced(texts(parts@).take(i + 1)));
                }
                i += 1;
            }
            proof {
                assert(texts(parts@).take(parts@.len() as int) =~= texts(parts@));
                assert(head =~= entry.name@ + seq![32u8, 40u8]);
            }
            line.push(41u8);
        },
    }
    line
}

/// Whether `lines` lists `table`: one line for each entry, in listing order.
pub open spec fn is_listing(table: Seq<ScriptEntry>, lines: Seq<Seq<u8>>) -> bool {
    exists|order: Seq<usize>|
        {
            &&& #[trigger] is_listing_order(names(table), order)
            &&& lines.len() == order.len()
            &&& forall|i: int| 0 <= i < lines.len() ==> #[trigger] lines[i] == line_of(table[order[i] as int])
        }
}

/// A table has one listing and no other.
pub proof fn listing_is_unique(table: Seq<ScriptEntry>, first: Seq<Seq<u8>>, second: Seq<Seq<u8>>)
    requires
        is_listing(table, first),
        is_listing(table, second),
    ensures
        first == second,
{
    let a = choose|order: Seq<usize>|
        {
            &&& #[trigger] is_listing_order(names(table), order)
            &&& first.len() == order.len()
            &&& forall|i: int| 0 <= i < first.len() ==> #[trigger] first[i] == line_of(table[order[i] as int])
        };
    let b = choose|order: Seq<usize>|
        {
            &&& #[trigger] is_listing_order(names(table), order)
            &&& second.len() == order.len()
            &&& forall|i: int| 0 <= i < second.len() ==> #[trigger] second[i] == line_of(table[order[i] as int])
        };
    listing_order_is_unique(names(table), a, b);
    assert(first =~= second);
}

/// In a listing, a name stands before every name that is greater without
/// regard to ASCII case.
pub proof fn listing_is_sorted(keys: Seq<Seq<u8>>, order: Seq<usize>, i: int, j: int)
    requires
        is_listing_order(keys, order),
        0 <= i < j < order.len(),
    ensures
        fold_le(keys[order[i] as int], keys[order[j] as int]),
{
    assert(comes_before(keys, order[i], order[j]));
}

/// The lines that list the commands a project defines, sorted by name
/// without regard to ASCII case.
pub fn list_scripts(table: &Vec<ScriptEntry>) -> (lines: Vec<Vec<u8>>)
    ensures
        is_listing(table@, texts(lines@)),
{
    let order = listing_order(table);
    let mut lines: Vec<Vec<u8>> = Vec::new();
    let mut i: usize = 0;
    while i < order.len()
        invariant
            i <= order.len(),
            is_listing_order(names(table@), order@),
            lines@.len() == i,
            forall|j: int| 0 <= j < i ==> (#[trigger] lines@[j])@ == line_of(table@[order@[j] as int]),
        decreases order.len() - i,
    {
        assert(order@[i as int] < table@.len());
        lines.push(render_line(&table[order[i]]));
        i += 1;
    }
    proof {
        let t = texts(lines@);
        assert forall|j: int| 0 <= j < t.len() implies #[trigger] t[j] == line_of(table@[order@[j] as int]) by {
            assert(t[j] == lines@[j]@);
        }
    }
    lines
}

} // verus!
