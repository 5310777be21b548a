//! The namespace cache: the signals reported by the last metadata refresh
//! that succeeded, with the completion trie made from their names.
//!
//! A refresh replaces the whole snapshot or leaves it untouched; no entry is
//! ever changed in place.

use crate::metadata::{descriptors, names, Metadata, MetadataModel};
use crate::text::{
    chars_of, lemma_lex_total, lemma_lex_transitive, lex_le, lex_less, same_text, text_less,
};
use crate::trie::{built, root, well_formed, CliCompleter, Node};
use vstd::prelude::*;
use vstd::seq_lib::to_multiset_insert;

verus! {

/// Why a call to the broker failed.
#[derive(Clone, Debug, PartialEq, Eq)]
pub enum ClientError {
    /// The broker refused the call; it gave a status code and a message.
    Status { code: String, message: String },
    /// The transport failed.
    Connection(String),
    /// The client itself failed.
    Function(String),
}

/// What a [`ClientError`] holds.
pub ghost enum ClientErrorModel {
    Status { code: Seq<char>, message: Seq<char> },
    Connection(Seq<char>),
    Function(Seq<char>),
}

impl View for ClientError {
    type V = ClientErrorModel;

    open spec fn view(&self) -> ClientErrorModel {
        match self {
            ClientError::Status { code, message } => ClientErrorModel::Status {
                code: code@,
                message: message@,
            },
            ClientError::Connection(m) => ClientErrorModel::Connection(m@),
            ClientError::Function(m) => ClientErrorModel::Function(m@),
        }
    }
}

/// The snapshot of the namespace that commands read.
#[derive(Debug)]
pub struct NamespaceCache {
    pub properties: Vec<Metadata>,
    pub completer: CliCompleter,
}

/// What a [`NamespaceCache`] holds.
pub ghost struct CacheModel {
    pub entries: Seq<MetadataModel>,
    pub trie: Node,
}

impl View for NamespaceCache {
    type V = CacheModel;

    open spec fn view(&self) -> CacheModel {
        CacheModel { entries: descriptors(self.properties@), trie: self.completer.paths@ }
    }
}

/// Whether the descriptors stand in ascending order of their names.
pub open spec fn sorted_by_name(entries: Seq<MetadataModel>) -> bool {
    forall|i: int, j: int| 0 <= i < j < entries.len() ==> lex_le(entries[i].name, entries[j].name)
}

/// The index of the last entry named `path`, or -1 where none is.
pub open spec fn last_named(entries: Seq<MetadataModel>, path: Seq<char>) -> int
    decreases entries.len(),
{
    if entries.len() == 0 {
        -1
    } else if entries.last().name == path {
        entries.len() - 1
    } else {
        last_named(entries.drop_last(), path)
    }
}

/// What [`last_named`] finds: an entry of that name behind which no other
/// has it, or -1 exactly where no entry has it.
pub proof fn lemma_last_named(entries: Seq<MetadataModel>, path: Seq<char>)
    ensures
        -1 <= last_named(entries, path) < entries.len(),
        last_named(entries, path) >= 0 ==> entries[last_named(entries, path)].name == path,
        forall|j: int|
            last_named(entries, path) < j < entries.len() ==> (#[trigger] entries[j]).name
                != path,
    decreases entries.len(),
{
    if entries.len() > 0 && entries.last().name != path {
        lemma_last_named(entries.drop_last(), path);
        assert forall|j: int| last_named(entries, path) < j < entries.len() implies (
        #[trigger] entries[j]).name != path by {
            if j < entries.len() - 1 {
                assert(entries.drop_last()[j] == entries[j]);
            }
        }
    }
}

/// The entries named `name`, in their order.
pub open spec fn named(entries: Seq<MetadataModel>, name: Seq<char>) -> Seq<MetadataModel> {
    entries.filter(|e: MetadataModel| e.name == name)
}

/// Whether entries of one name stand in `after` as they stand in `before`.
pub open spec fn keeps_order_of_equals(before: Seq<MetadataModel>, after: Seq<MetadataModel>) -> bool {
    forall|name: Seq<char>| #[trigger] named(after, name) == named(before, name)
}

/// Of entries none of which has the name, none is named so.
proof fn lemma_none_named(entries: Seq<MetadataModel>, name: Seq<char>)
    requires
        forall|k: int| 0 <= k < entries.len() ==> (#[trigger] entries[k]).name != name,
    ensures
        named(entries, name) == Seq::<MetadataModel>::empty(),
    decreases entries.len(),
{
    reveal(Seq::filter);
    if entries.len() > 0 {
        assert(entries.last().name != name);
        assert forall|k: int| 0 <= k < entries.drop_last().len() implies (
        #[trigger] entries.drop_last()[k]).name != name by {
            assert(entries.drop_last()[k] == entries[k]);
        }
        lemma_none_named(entries.drop_last(), name);
    }
}

/// The entries named `name` after `item` was put at `p`, before which no
/// entry has the name of `item`.
proof fn lemma_named_after_insert(
    before: Seq<MetadataModel>,
    p: int,
    item: MetadataModel,
    name: Seq<char>,
)
    requires
        0 <= p <= before.len(),
        forall|k: int| 0 <= k < p ==> (#[trigger] before[k]).name != item.name,
    ensures
        named(before.insert(p, item), name) == if name == item.name {
            seq![item] + named(before, name)
        } else {
            named(before, name)
        },
{
    let keep = |e: MetadataModel| e.name == name;
    let head = before.take(p);
    let tail = before.skip(p);
    assert(before.insert(p, item) =~= head + seq![item] + tail);
    assert(before =~= head + tail);
    Seq::filter_distributes_over_add(head + seq![item], tail, keep);
    Seq::filter_distributes_over_add(head, seq![item], keep);
    Seq::filter_distributes_over_add(head, tail, keep);
    assert(seq![item].filter(keep) =~= if name == item.name {
        seq![item]
    } else {
        Seq::empty()
    }) by {
        reveal_with_fuel(Seq::filter, 3);
        let one = seq![item];
        assert(one.len() == 1);
        assert(one.drop_last().len() == 0);
        assert(one.drop_last().filter(keep) =~= Seq::<MetadataModel>::empty());
        assert(one.last() == item);
        assert(keep(item) == (name == item.name));
    }
    if name == item.name {
        assert forall|k: int| 0 <= k < head.len() implies (#[trigger] head[k]).name != name by {
            assert(head[k] == before[k]);
        }
        lemma_none_named(head, name);
        assert(named(before.insert(p, item), name) =~= seq![item] + named(before, name));
    } else {
        assert(named(before.insert(p, item), name) =~= named(before, name));
    }
}

/// Whether the name of `entry` comes before `name`.
fn comes_before(entry: &Metadata, name: &Vec<char>) -> (r: bool)
    ensures
        r == lex_less(entry@.name, name@),
{
    let other = chars_of(entry.name.as_str());
    text_less(&other, name)
}

/// Puts `entry` into the sorted list before every entry whose name does not
/// come before its own.
fn insert_by_name(out: &mut Vec<Metadata>, entry: Metadata)
    requires
        sorted_by_name(descriptors(old(out)@)),
    ensures
        sorted_by_name(descriptors(final(out)@)),
        descriptors(final(out)@).to_multiset() == descriptors(old(out)@).to_multiset().insert(
            entry@,
        ),
        forall|name: Seq<char>| #[trigger]
            named(descriptors(final(out)@), name) == named(
                seq![entry@] + descriptors(old(out)@),
                name,
            ),
{
    let ghost before = descriptors(out@);
    let name = chars_of(entry.name.as_str());
    let mut p: usize = 0;
    while p < out.len() && comes_before(&out[p], &name)
        invariant
            p <= out.len(),
            descriptors(out@) == before,
            name@ == entry@.name,
            forall|k: int| 0 <= k < p ==> lex_less((#[trigger] before[k]).name, name@),
        decreases out.len() - p,
    {
        assert(before[p as int] == out@[p as int]@);
        p += 1;
    }
    let ghost item = entry@;
    proof {
        if p < out.len() {
            assert(before[p as int] == out@[p as int]@);
            lemma_lex_total(item.name, before[p as int].name);
        }
    }
    out.insert(p, entry);
    proof {
        let after = descriptors(out@);
        assert(after =~= before.insert(p as int, item));
        to_multiset_insert(before, p as int, item);
        assert forall|k: int| 0 <= k < p implies (#[trigger] before[k]).name != item.name by {
            lemma_lex_total(item.name, item.name);
        }
        assert forall|name: Seq<char>| #[trigger]
            named(after, name) == named(seq![item] + before, name) by {
            lemma_named_after_insert(before, p as int, item, name);
            assert(seq![item] + before =~= before.insert(0, item));
            lemma_named_after_insert(before, 0, item, name);
        }
        assert forall|i: int, j: int| 0 <= i < j < after.len() implies lex_le(
            after[i].name,
            after[j].name,
        ) by {
            if j < p {
                assert(after[i] == before[i] && after[j] == before[j]);
            } else if j == p {
                assert(after[i] == before[i]);
            } else if i < p {
                assert(after[i] == before[i] && after[j] == before[j - 1]);
            } else if i == p {
                assert(after[j] == before[j - 1]);
                assert(lex_le(item.name, before[p as int].name));
                if j - 1 > p {
                    assert(lex_le(before[p as int].name, before[j - 1].name));
                }
                lemma_lex_transitive(item.name, before[p as int].name, before[j - 1].name);
            } else {
                assert(after[i] == before[i - 1] && after[j] == before[j - 1]);
            }
        }
    }
}

/// The same descriptors in ascending order of their names; descriptors of
/// one name stay in the order in which they came.
pub fn sort_by_name(list: Vec<Metadata>) -> (r: Vec<Metadata>)
    ensures
        sorted_by_name(descriptors(r@)),
        descriptors(r@).to_multiset() == descriptors(list@).to_multiset(),
        keeps_order_of_equals(descriptors(list@), descriptors(r@)),
{
    let ghost all = descriptors(list@);
    let mut list = list;
    let mut out: Vec<Metadata> = Vec::new();
    proof {
        assert(descriptors(out@) =~= all.skip(all.len() as int));
    }
    while list.len() > 0
        invariant
            list.len() <= all.len(),
            descriptors(list@) == all.take(list.len() as int),
            sorted_by_name(descriptors(out@)),
            descriptors(out@).to_multiset() == all.skip(list.len() as int).to_multiset(),
            keeps_order_of_equals(all.skip(list.len() as int), descriptors(out@)),
        decreases list.len(),
    {
        let ghost n = list.len() as int;
        let ghost before = descriptors(list@);
        let entry = list.pop().unwrap();
        proof {
            assert(entry@ == before[n - 1]);
            assert(descriptors(list@) =~= all.take(n - 1));
            assert(all.skip(n - 1) =~= all.skip(n).insert(0, entry@));
            to_multiset_insert(all.skip(n), 0, entry@);
        }
        let ghost item = entry@;
        let ghost sorted = descriptors(out@);
        insert_by_name(&mut out, entry);
        proof {
            assert forall|name: Seq<char>| #[trigger]
                named(descriptors(out@), name) == named(all.skip(n - 1), name) by {
                assert(all.skip(n - 1) =~= seq![item] + all.skip(n));
                let keep = |e: MetadataModel| e.name == name;
                Seq::filter_distributes_over_add(seq![item], all.skip(n), keep);
                Seq::filter_distributes_over_add(seq![item], sorted, keep);
                assert(named(sorted, name) == named(all.skip(n), name));
            }
        }
    }
    proof {
        assert(all.skip(0) =~= all);
    }
    out
}

impl NamespaceCache {
    /// A cache that knows no signal.
    pub fn new() -> (r: NamespaceCache)
        ensures
            r@.entries.len() == 0,
            r@.trie == root(),
    {
        let r = NamespaceCache { properties: Vec::new(), completer: CliCompleter::new() };
        assert(r@.entries =~= Seq::empty());
        r
    }

    /// Takes the outcome of a metadata fetch. A fetch that succeeded
    /// replaces the descriptors and the trie made from them, and nothing is
    /// handed back; one that failed leaves the cache as it was and hands its
    /// error back.
    pub fn refresh(&mut self, fetched: Result<Vec<Metadata>, ClientError>) -> (r: Option<
        ClientError,
    >)
        ensures
            match fetched {
                Ok(list) => {
                    &&& r is None
                    &&& final(self)@.entries == descriptors(list@)
                    &&& final(self)@.trie == built(names(descriptors(list@)))
                    &&& well_formed(final(self)@.trie)
                },
                Err(e) => r == Some(e) && *final(self) == *old(self),
            },
    {
        match fetched {
            Ok(list) => {
                let completer = CliCompleter::from_metadata(list.as_slice());
                self.properties = list;
                self.completer = completer;
                None
            },
            Err(e) => Some(e),
        }
    }

    /// As [`NamespaceCache::refresh`], with the descriptors of a fetch that
    /// succeeded put in ascending order of their names first.
    pub fn refresh_sorted(&mut self, fetched: Result<Vec<Metadata>, ClientError>) -> (r: Option<
        ClientError,
    >)
        ensures
            match fetched {
                Ok(list) => {
                    &&& r is None
                    &&& sorted_by_name(final(self)@.entries)
                    &&& final(self)@.entries.to_multiset() == descriptors(list@).to_multiset()
                    &&& keeps_order_of_equals(descriptors(list@), final(self)@.entries)
                    &&& final(self)@.trie == built(names(final(self)@.entries))
                    &&& well_formed(final(self)@.trie)
                },
                Err(e) => r == Some(e) && *final(self) == *old(self),
            },
    {
        match fetched {
            Ok(list) => self.refresh(Ok(sort_by_name(list))),
            Err(e) => Some(e),
        }
    }

    /// The descriptor of the signal named `path`: the last one of that name,
    /// or none where the snapshot holds no signal of that name.
    pub fn lookup(&self, path: &str) -> (r: Option<&Metadata>)
        ensures
            match r {
                Some(m) => {
                    let i = last_named(self@.entries, path@);
                    0 <= i < self@.entries.len() && m@ == self@.entries[i]
                },
                None => last_named(self@.entries, path@) == -1,
            },
    {
        let wanted = chars_of(path);
        let mut found: Option<usize> = None;
        let mut i: usize = 0;
        let ghost all = self@.entries;
        assert(all.take(0) =~= Seq::<MetadataModel>::empty());
        while i < self.properties.len()
            invariant
                i <= self.properties.len(),
                all == self@.entries,
                wanted@ == path@,
                match found {
                    Some(k) => k < i && last_named(all.take(i as int), path@) == k,
                    None => last_named(all.take(i as int), path@) == -1,
                },
            decreases self.properties.len() - i,
        {
            let name = chars_of(self.properties[i].name.as_str());
            proof {
                assert(all.take(i + 1).drop_last() =~= all.take(i as int));
                assert(all.take(i + 1).last() == self.properties@[i as int]@);
            }
            if same_text(&name, &wanted) {
                found = Some(i);
            }
            i += 1;
        }
        assert(all.take(self.properties.len() as int) =~= all);
        match found {
            Some(k) => {
                assert(all[k as int] == self.properties@[k as int]@);
                Some(&self.properties[k])
            },
            None => None,
        }
    }
}

} // verus!
