//! What holds of every completion trie and of the proposals made from it.

use crate::text::{folded, lemma_lex_total, lex_le, split, Delimiter};
use crate::trie::{
    built, candidates, inserted, keys_of, lemma_children_shown_apart, lemma_position, offered,
    position, proposals, sorted_by_display, well_formed, CompletionModel, Node,
};
use vstd::prelude::*;
use vstd::seq_lib::to_multiset_insert;

verus! {

/// The node reached from `node` by the given keys, child by child; none
/// where a key is no child's.
pub open spec fn descend(node: Node, keys: Seq<Seq<char>>) -> Option<Node>
    decreases keys.len(),
{
    if keys.len() == 0 {
        Some(node)
    } else {
        let p = position(node.children, keys[0], 0);
        if p < node.children.len() {
            descend(node.children[p], keys.skip(1))
        } else {
            None
        }
    }
}

/// The first child with a key is found at its index.
pub proof fn lemma_position_is(children: Seq<Node>, key: Seq<char>, i: int)
    requires
        0 <= i < children.len(),
        children[i].key == key,
        forall|j: int| 0 <= j < i ==> (#[trigger] children[j]).key != key,
    ensures
        position(children, key, 0) == i,
{
    lemma_position(children, key, 0);
    let r = position(children, key, 0);
    if r > i {
        assert(children[i].key != key);
    }
    if r < i {
        assert(children[r].key != key);
    }
}

/// A path that was entered is found: the keys of its segments lead from the
/// node to a node.
pub proof fn lemma_inserted_is_found(node: Node, parts: Seq<Seq<char>>)
    ensures
        descend(inserted(node, parts), keys_of(parts)) is Some,
    decreases parts.len(),
{
    if parts.len() > 0 {
        let key = folded(parts[0]);
        let p = position(node.children, key, 0);
        let rest = parts.skip(1);
        let after = inserted(node, parts);
        lemma_position(node.children, key, 0);
        assert(keys_of(parts)[0] == key);
        assert(keys_of(parts).skip(1) =~= keys_of(rest));
        if p < node.children.len() {
            let child = node.children[p];
            lemma_inserted_is_found(child, rest);
            assert(inserted(child, rest).key == child.key);
            assert forall|j: int| 0 <= j < p implies (#[trigger] after.children[j]).key != key by {
                assert(after.children[j] == node.children[j]);
            }
            lemma_position_is(after.children, key, p);
        } else {
            let child = crate::trie::fresh(node.full_path, parts[0]);
            lemma_inserted_is_found(child, rest);
            assert(inserted(child, rest).key == key);
            assert forall|j: int| 0 <= j < p implies (#[trigger] after.children[j]).key != key by {
                assert(after.children[j] == node.children[j]);
            }
            lemma_position_is(after.children, key, p);
        }
    }
}

/// What was found before a path was entered is found after it.
pub proof fn lemma_inserted_keeps_found(node: Node, parts: Seq<Seq<char>>, keys: Seq<Seq<char>>)
    requires
        descend(node, keys) is Some,
    ensures
        descend(inserted(node, parts), keys) is Some,
    decreases keys.len(),
{
    if keys.len() > 0 && parts.len() > 0 {
        let q = position(node.children, keys[0], 0);
        let key = folded(parts[0]);
        let p = position(node.children, key, 0);
        let rest = parts.skip(1);
        let after = inserted(node, parts);
        lemma_position(node.children, keys[0], 0);
        lemma_position(node.children, key, 0);
        assert(after.children[q].key == keys[0]) by {
            if q == p {
                assert(inserted(node.children[p], rest).key == node.children[p].key);
            }
        }
        assert forall|j: int| 0 <= j < q implies (#[trigger] after.children[j]).key != keys[0] by {
            if j == p {
                assert(inserted(node.children[p], rest).key == node.children[p].key);
            }
            assert(after.children[j].key == node.children[j].key);
        }
        lemma_position_is(after.children, keys[0], q);
        if q == p {
            lemma_inserted_keeps_found(node.children[p], rest, keys.skip(1));
        }
    }
}

/// Every name of which a trie was built is found in it.
pub proof fn lemma_built_finds_every_name(paths: Seq<Seq<char>>, i: int)
    requires
        0 <= i < paths.len(),
    ensures
        descend(built(paths), keys_of(split(paths[i], Delimiter::Char('.')))) is Some,
    decreases paths.len(),
{
    let before = built(paths.drop_last());
    let parts = split(paths.last(), Delimiter::Char('.'));
    if i == paths.len() - 1 {
        lemma_inserted_is_found(before, parts);
    } else {
        assert(paths.drop_last()[i] == paths[i]);
        lemma_built_finds_every_name(paths.drop_last(), i);
        lemma_inserted_keeps_found(
            before,
            parts,
            keys_of(split(paths[i], Delimiter::Char('.'))),
        );
    }
}

/// Whether `keys` begins the keys of the segments of a path.
pub open spec fn begins(keys: Seq<Seq<char>>, parts: Seq<Seq<char>>) -> bool {
    keys.is_prefix_of(keys_of(parts))
}

/// What is found after a path was entered was found before, or lies on that
/// path.
pub proof fn lemma_inserted_adds_its_path_only(
    node: Node,
    parts: Seq<Seq<char>>,
    keys: Seq<Seq<char>>,
)
    requires
        descend(inserted(node, parts), keys) is Some,
    ensures
        descend(node, keys) is Some || begins(keys, parts),
    decreases keys.len(),
{
    if keys.len() > 0 && parts.len() > 0 {
        let key = folded(parts[0]);
        let p = position(node.children, key, 0);
        let rest = parts.skip(1);
        let after = inserted(node, parts);
        let q = position(after.children, keys[0], 0);
        lemma_position(node.children, key, 0);
        lemma_position(after.children, keys[0], 0);
        assert(keys_of(parts)[0] == key);
        assert(keys_of(parts).skip(1) =~= keys_of(rest));
        let child = if p < node.children.len() {
            node.children[p]
        } else {
            crate::trie::fresh(node.full_path, parts[0])
        };
        assert(after.children[p] == inserted(child, rest));
        assert(inserted(child, rest).key == key);
        assert forall|j: int| 0 <= j < node.children.len() && j != p implies (
        #[trigger] after.children[j]) == node.children[j] by {}
        if q == p {
            assert(keys[0] == key);
            lemma_inserted_adds_its_path_only(child, rest, keys.skip(1));
            if begins(keys.skip(1), rest) {
                assert(keys.subrange(0, keys.len() as int) =~= keys);
                assert(keys_of(parts).subrange(0, keys.len() as int) =~= seq![key] + keys_of(
                    rest,
                ).subrange(0, keys.len() - 1));
                assert(keys =~= seq![key] + keys.skip(1));
                assert(keys.skip(1) =~= keys_of(rest).subrange(0, keys.len() - 1));
                assert(begins(keys, parts));
            } else if p < node.children.len() {
                lemma_position_is(node.children, keys[0], p);
            } else {
                // A node that was just made has no children: the keys end here.
                assert(keys.skip(1).len() == 0);
                assert(keys =~= seq![key]);
                assert(keys_of(parts).subrange(0, 1) =~= seq![key]);
                assert(begins(keys, parts));
            }
        } else {
            assert forall|j: int| 0 <= j < q implies (#[trigger] node.children[j]).key
                != keys[0] by {
                if j == p {
                    assert(after.children[j].key == key);
                } else {
                    assert(after.children[j] == node.children[j]);
                }
            }
            assert(node.children[q].key == keys[0]);
            lemma_position_is(node.children, keys[0], q);
        }
    }
}

/// What is found in the trie of some names lies on one of them: the trie
/// holds nothing but the names it was built of.
pub proof fn lemma_built_holds_names_only(paths: Seq<Seq<char>>, keys: Seq<Seq<char>>)
    requires
        keys.len() > 0,
        descend(built(paths), keys) is Some,
    ensures
        exists|i: int|
            0 <= i < paths.len() && begins(
                keys,
                split(#[trigger] paths[i], Delimiter::Char('.')),
            ),
    decreases paths.len(),
{
    if paths.len() == 0 {
        assert(position(built(paths).children, keys[0], 0) == 0);
    } else {
        let before = built(paths.drop_last());
        let parts = split(paths.last(), Delimiter::Char('.'));
        lemma_inserted_adds_its_path_only(before, parts, keys);
        if begins(keys, parts) {
            assert(begins(keys, split(paths[paths.len() - 1], Delimiter::Char('.'))));
        } else {
            lemma_built_holds_names_only(paths.drop_last(), keys);
            let i = choose|i: int|
                0 <= i < paths.drop_last().len() && begins(
                    keys,
                    split(#[trigger] paths.drop_last()[i], Delimiter::Char('.')),
                );
            assert(paths.drop_last()[i] == paths[i]);
        }
    }
}

/// Whether no two of the proposals are shown alike.
pub open spec fn shown_apart(list: Seq<CompletionModel>) -> bool {
    forall|i: int, j: int|
        0 <= i < j < list.len() ==> (#[trigger] list[i]).shown() != (#[trigger] list[j]).shown()
}

/// Each element of a filtered sequence stands in the sequence that was
/// filtered, and two of them stand there in the same order.
proof fn lemma_filter_keeps_order(s: Seq<Node>, keep: spec_fn(Node) -> bool, i: int, j: int) -> (r:
    (int, int))
    requires
        0 <= i <= j < s.filter(keep).len(),
    ensures
        0 <= r.0 <= r.1 < s.len(),
        i < j ==> r.0 < r.1,
        s[r.0] == s.filter(keep)[i],
        s[r.1] == s.filter(keep)[j],
    decreases s.len(),
{
    reveal(Seq::filter);
    let shorter = s.drop_last();
    let sub = shorter.filter(keep);
    if keep(s.last()) && j == sub.len() {
        if i == j {
            (s.len() - 1, s.len() - 1)
        } else {
            let r = lemma_filter_keeps_order(shorter, keep, i, i);
            (r.0, s.len() - 1)
        }
    } else {
        let r = lemma_filter_keeps_order(shorter, keep, i, j);
        r
    }
}

/// In a well-formed trie no two of the nodes that complete a path are shown
/// alike.
pub proof fn lemma_candidates_shown_apart(node: Node, tokens: Seq<Seq<char>>)
    requires
        well_formed(node),
    ensures
        shown_apart(proposals(candidates(node, tokens))),
    decreases tokens.len(),
{
    let found = candidates(node, tokens);
    if tokens.len() == 0 || (tokens.len() == 1 && tokens[0].len() == 0) {
        assert forall|i: int, j: int| 0 <= i < j < found.len() implies (#[trigger] proposals(
            found,
        )[i]).shown() != (#[trigger] proposals(found)[j]).shown() by {
            lemma_children_shown_apart(node, i, j);
        }
    } else {
        let p = position(node.children, tokens[0], 0);
        lemma_position(node.children, tokens[0], 0);
        if p < node.children.len() {
            lemma_candidates_shown_apart(node.children[p], tokens.skip(1));
        } else {
            let keep = |c: Node| tokens[0].is_prefix_of(c.key);
            assert(found == node.children.filter(keep));
            assert forall|i: int, j: int| 0 <= i < j < found.len() implies (#[trigger] proposals(
                found,
            )[i]).shown() != (#[trigger] proposals(found)[j]).shown() by {
                let r = lemma_filter_keeps_order(node.children, keep, i, j);
                lemma_children_shown_apart(node, r.0, r.1);
            }
        }
    }
}

/// Two lists in ascending order that hold the same proposals, no two of
/// them shown alike, are the same list.
pub proof fn lemma_sorted_is_unique(a: Seq<CompletionModel>, b: Seq<CompletionModel>)
    requires
        sorted_by_display(a),
        sorted_by_display(b),
        a.to_multiset() == b.to_multiset(),
        shown_apart(a),
    ensures
        a == b,
    decreases a.len(),
{
    broadcast use vstd::seq_lib::group_to_multiset_ensures;
    broadcast use vstd::multiset::group_multiset_axioms;

    assert(a.len() == b.len()) by {
        a.to_multiset_ensures();
        b.to_multiset_ensures();
    }
    if a.len() == 0 {
        assert(a =~= b);
    } else {
        a.to_multiset_ensures();
        b.to_multiset_ensures();
        assert(b.contains(b[0]));
        assert(a.to_multiset().count(b[0]) > 0);
        assert(a.contains(b[0]));
        let m = choose|m: int| 0 <= m < a.len() && a[m] == b[0];
        assert(a.contains(a[0]));
        assert(b.to_multiset().count(a[0]) > 0);
        assert(b.contains(a[0]));
        let k = choose|k: int| 0 <= k < b.len() && b[k] == a[0];
        lemma_lex_total(a[0].shown(), b[0].shown());
        assert(lex_le(a[0].shown(), b[0].shown())) by {
            if m > 0 {
                assert(lex_le(a[0].shown(), a[m].shown()));
            }
        }
        assert(lex_le(b[0].shown(), a[0].shown())) by {
            if k > 0 {
                assert(lex_le(b[0].shown(), b[k].shown()));
            }
        }
        assert(a[0].shown() == b[0].shown());
        if m > 0 {
            assert(a[0].shown() != a[m].shown());
        }
        assert(a[0] == b[0]);
        let x = a[0];
        let ta = a.skip(1);
        let tb = b.skip(1);
        assert(a =~= ta.insert(0, x));
        assert(b =~= tb.insert(0, x));
        to_multiset_insert(ta, 0, x);
        to_multiset_insert(tb, 0, x);
        assert(ta.to_multiset() =~= tb.to_multiset()) by {
            assert forall|v: CompletionModel| ta.to_multiset().count(v) == tb.to_multiset().count(
                v,
            ) by {
                assert(ta.to_multiset().insert(x).count(v) == tb.to_multiset().insert(x).count(v));
            }
        }
        assert forall|i: int, j: int| 0 <= i < j < ta.len() implies lex_le(
            ta[i].shown(),
            ta[j].shown(),
        ) by {
            assert(lex_le(a[i + 1].shown(), a[j + 1].shown()));
        }
        assert forall|i: int, j: int| 0 <= i < j < tb.len() implies lex_le(
            tb[i].shown(),
            tb[j].shown(),
        ) by {
            assert(lex_le(b[i + 1].shown(), b[j + 1].shown()));
        }
        assert forall|i: int, j: int| 0 <= i < j < ta.len() implies (#[trigger] ta[i]).shown() != (
        #[trigger] ta[j]).shown() by {
            assert(a[i + 1].shown() != a[j + 1].shown());
        }
        lemma_sorted_is_unique(ta, tb);
        assert(a =~= b);
    }
}

/// A list that holds the proposals of another, no two of which are shown
/// alike, holds no two that are shown alike either.
pub proof fn lemma_same_proposals_shown_apart(a: Seq<CompletionModel>, b: Seq<CompletionModel>)
    requires
        a.to_multiset() == b.to_multiset(),
        shown_apart(b),
    ensures
        shown_apart(a),
{
    broadcast use vstd::seq_lib::group_to_multiset_ensures;
    broadcast use vstd::multiset::group_multiset_axioms;

    a.to_multiset_ensures();
    b.to_multiset_ensures();
    assert(b.no_duplicates()) by {
        assert forall|i: int, j: int| 0 <= i < b.len() && 0 <= j < b.len() && i != j implies b[i]
            != b[j] by {
            if i < j {
                assert(b[i].shown() != b[j].shown());
            } else {
                assert(b[j].shown() != b[i].shown());
            }
        }
    }
    b.lemma_multiset_has_no_duplicates();
    a.lemma_multiset_has_no_duplicates_conv();
    assert forall|i: int, j: int| 0 <= i < j < a.len() implies (#[trigger] a[i]).shown() != (
    #[trigger] a[j]).shown() by {
        assert(a[i] != a[j]);
        assert(a.contains(a[i]));
        assert(a.contains(a[j]));
        assert(b.to_multiset().count(a[i]) > 0);
        assert(b.to_multiset().count(a[j]) > 0);
        assert(b.contains(a[i]));
        assert(b.contains(a[j]));
        let ki = choose|k: int| 0 <= k < b.len() && b[k] == a[i];
        let kj = choose|k: int| 0 <= k < b.len() && b[k] == a[j];
        if ki < kj {
            assert(b[ki].shown() != b[kj].shown());
        } else {
            assert(b[kj].shown() != b[ki].shown());
        }
    }
}

/// For a well-formed trie the proposals for a word are determined: any two
/// lists in ascending order that hold what the trie offers are the same.
pub proof fn lemma_proposals_are_determined(
    trie: Node,
    word: Seq<char>,
    a: Seq<CompletionModel>,
    b: Seq<CompletionModel>,
)
    requires
        well_formed(trie),
        sorted_by_display(a),
        sorted_by_display(b),
        a.to_multiset() == offered(trie, word).to_multiset(),
        b.to_multiset() == offered(trie, word).to_multiset(),
    ensures
        a == b,
{
    lemma_candidates_shown_apart(trie, split(folded(word), Delimiter::Char('.')));
    lemma_same_proposals_shown_apart(a, offered(trie, word));
    lemma_sorted_is_unique(a, b);
}

} // verus!
