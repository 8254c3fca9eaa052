//! The coordinate sequencer: turns the coordinates enumerated from the
//! source archive into the deterministic, deduplicated, sorted list whose
//! positions are the dense sequence numbers the whole pipeline orders by.

use vstd::prelude::*;

use crate::tile::{tile_lt, Tile};

verus! {

/// Strictly ascending in the deterministic tile order; in particular free
/// of duplicates.
pub open spec fn strictly_sorted(s: Seq<Tile>) -> bool {
    forall|i: int, j: int| 0 <= i < j < s.len() ==> tile_lt(s[i], s[j])
}

/// Inserting an element anywhere in a sequence adds exactly it to the
/// sequence's set of elements.
proof fn lemma_insert_to_set(s: Seq<Tile>, i: int, a: Tile)
    requires
        0 <= i <= s.len(),
    ensures
        s.insert(i, a).to_set() =~= s.to_set().insert(a),
{
    broadcast use vstd::seq_lib::lemma_seq_concat_contains_all_elements;
    broadcast use vstd::set::group_set_axioms;

    let s0 = s.subrange(0, i);
    let s1 = s.subrange(i, s.len() as int);
    assert(s.insert(i, a) =~= s0 + seq![a] + s1);
    assert(s =~= s0 + s1);
    assert(seq![a][0] == a);
    assert forall|t: Tile| s.insert(i, a).to_set().contains(t) <==> s.to_set().insert(
        a,
    ).contains(t) by {
        assert(s.insert(i, a).contains(t) <==> (s0 + seq![a] + s1).contains(t));
        assert(seq![a].contains(t) <==> t == a);
    }
}

/// Sorts the enumerated coordinates into the deterministic order and drops
/// duplicates. The result lists each distinct enumerated coordinate exactly
/// once, so its positions assign the dense sequence numbers `0 .. N-1`,
/// where `N` is the number of distinct coordinates.
pub fn sequence_coords(coords: &Vec<Tile>) -> (out: Vec<Tile>)
    ensures
        strictly_sorted(out@),
        out@.to_set() == coords@.to_set(),
        out@.no_duplicates(),
        out@.len() == coords@.to_set().len(),
{
    broadcast use vstd::set::group_set_axioms;

    let mut out: Vec<Tile> = Vec::new();
    let n = coords.len();
    let mut idx: usize = 0;
    assert(out@.to_set() =~= coords@.subrange(0, 0).to_set());
    while idx < n
        invariant
            n == coords@.len(),
            0 <= idx <= n,
            strictly_sorted(out@),
            out@.to_set() == coords@.subrange(0, idx as int).to_set(),
        decreases n - idx,
    {
        broadcast use vstd::set::group_set_axioms;

        let c = coords[idx];
        let mut pos: usize = 0;
        while pos < out.len() && out[pos].lt(&c)
            invariant
                pos <= out@.len(),
                strictly_sorted(out@),
                forall|k: int| 0 <= k < pos ==> tile_lt(out@[k], c),
            decreases out@.len() - pos,
        {
            pos = pos + 1;
        }
        let ghost prefix = coords@.subrange(0, idx as int);
        proof {
            assert(prefix.push(c) =~= coords@.subrange(0, idx as int + 1));
            prefix.lemma_push_to_set_commute(c);
        }
        if pos < out.len() && out[pos] == c {
            proof {
                assert(out@.contains(c)) by {
                    assert(out@[pos as int] == c);
                }
                assert(out@.to_set() =~= prefix.to_set().insert(c));
            }
        } else {
            assert forall|k: int| pos <= k < out@.len() implies tile_lt(
                c,
                #[trigger] out@[k],
            ) by {
                assert(!tile_lt(out@[pos as int], c));
                if k > pos {
                    assert(tile_lt(out@[pos as int], out@[k]));
                }
            }
            let ghost old_out = out@;
            out.insert(pos, c);
            proof {
                old_out.insert_ensures(pos as int, c);
                lemma_insert_to_set(old_out, pos as int, c);
                assert(out@.to_set() =~= prefix.push(c).to_set());
                assert forall|i: int, j: int| 0 <= i < j < out@.len() implies tile_lt(
                    out@[i],
                    out@[j],
                ) by {
                    if j < pos {
                    } else if i < pos && j == pos {
                        assert(tile_lt(old_out[i], c));
                    } else if i == pos {
                        assert(out@[j] == old_out[j - 1]);
                    } else if i < pos {
                        assert(out@[j] == old_out[j - 1]);
                        assert(tile_lt(old_out[i], old_out[j - 1]));
                    } else {
                        assert(out@[i] == old_out[i - 1] && out@[j] == old_out[j - 1]);
                        assert(tile_lt(old_out[i - 1], old_out[j - 1]));
                    }
                }
            }
        }
        idx = idx + 1;
    }
    proof {
        assert(coords@.subrange(0, n as int) =~= coords@);
        assert forall|i: int, j: int| 0 <= i < j < out@.len() implies out@[i] != out@[j] by {
            assert(tile_lt(out@[i], out@[j]));
        }
        out@.unique_seq_to_set();
    }
    out
}

} // verus!
