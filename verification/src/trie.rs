//! The completion trie: a prefix tree over the dot-separated names of the
//! known signals, and the completions it offers for a partly typed path.
//!
//! A node stands for one segment of a path. Its children are kept in the
//! order in which they were first seen, and no two of them have the same
//! case-folded segment.

use crate::metadata::{descriptors, names, Metadata};
use crate::text::{
    append_chars, chars_of, fold_case, folded, lemma_lex_total, lemma_lex_transitive,
    lemma_split_pieces_hold_no_separator, lex_le, lex_less, same_text,
    split, split_text, starts_with, string_of, text_less, texts, Delimiter,
};
use vstd::prelude::*;
use vstd::seq_lib::to_multiset_insert;

verus! {

/// One segment of a path, with the segments that follow it.
#[derive(Debug)]
pub struct PathPart {
    /// The segment as it was first written.
    pub rel_path: String,
    /// The path from the root to this segment.
    pub full_path: String,
    /// The segment in lower case, by which it is found.
    pub key: Vec<char>,
    /// The segments seen after this one.
    pub children: Vec<PathPart>,
}

/// What a [`PathPart`] holds.
pub ghost struct Node {
    pub rel_path: Seq<char>,
    pub full_path: Seq<char>,
    pub key: Seq<char>,
    pub children: Seq<Node>,
}

/// What `part` holds.
pub open spec fn node_of(part: PathPart) -> Node
    decreases part,
{
    Node {
        rel_path: part.rel_path@,
        full_path: part.full_path@,
        key: part.key@,
        children: Seq::new(
            part.children.len() as nat,
            |i: int|
                if 0 <= i < part.children.len() {
                    node_of(part.children[i])
                } else {
                    arbitrary()
                },
        ),
    }
}

impl View for PathPart {
    type V = Node;

    open spec fn view(&self) -> Node {
        node_of(*self)
    }
}

/// What the line editor is to append after a completion.
#[derive(Clone, Copy, Debug, PartialEq, Eq, Structural)]
pub enum Suffix {
    /// The editor's usual suffix, a space.
    Standard,
    /// Nothing: more of the word is to follow.
    Absent,
    /// The given character.
    Char(char),
}

/// One proposal for the word under the cursor.
#[derive(Clone, Debug, PartialEq, Eq)]
pub struct Completion {
    /// The text that replaces the word.
    pub completion: String,
    /// The text shown in the list of proposals, where it differs.
    pub display: Option<String>,
    /// What follows the completion.
    pub suffix: Suffix,
}

/// What a [`Completion`] holds.
pub ghost struct CompletionModel {
    pub completion: Seq<char>,
    pub display: Option<Seq<char>>,
    pub suffix: Suffix,
}

impl CompletionModel {
    /// The text shown for the proposal.
    pub open spec fn shown(self) -> Seq<char> {
        match self.display {
            Some(d) => d,
            None => self.completion,
        }
    }
}

impl View for Completion {
    type V = CompletionModel;

    open spec fn view(&self) -> CompletionModel {
        CompletionModel {
            completion: self.completion@,
            display: match self.display {
                Some(d) => Some(d@),
                None => None,
            },
            suffix: self.suffix,
        }
    }
}

impl Completion {
    /// A proposal shown as it is inserted, followed by the usual suffix.
    pub fn simple(completion: String) -> (r: Completion)
        ensures
            r@ == (CompletionModel {
                completion: completion@,
                display: None,
                suffix: Suffix::Standard,
            }),
    {
        Completion { completion, display: None, suffix: Suffix::Standard }
    }

    /// The text shown for the proposal.
    pub fn display(&self) -> (r: String)
        ensures
            r@ == self@.shown(),
    {
        match &self.display {
            Some(d) => d.clone(),
            None => self.completion.clone(),
        }
    }
}

/// The proposals that `list` holds.
pub open spec fn completions(list: Seq<Completion>) -> Seq<CompletionModel> {
    Seq::new(list.len(), |i: int| list[i]@)
}

/// Whether the proposals stand in ascending order of the texts shown.
pub open spec fn sorted_by_display(list: Seq<CompletionModel>) -> bool {
    forall|i: int, j: int| 0 <= i < j < list.len() ==> lex_le(list[i].shown(), list[j].shown())
}

/// The index of the first child from `from` on whose key is `key`, or the
/// number of children where there is none.
pub open spec fn position(children: Seq<Node>, key: Seq<char>, from: int) -> int
    decreases children.len() - from,
{
    if from < 0 || from >= children.len() {
        children.len() as int
    } else if children[from].key == key {
        from
    } else {
        position(children, key, from + 1)
    }
}

/// What [`position`] finds.
pub proof fn lemma_position(children: Seq<Node>, key: Seq<char>, from: int)
    requires
        0 <= from <= children.len(),
    ensures
        from <= position(children, key, from) <= children.len(),
        position(children, key, from) < children.len() ==> children[position(
            children,
            key,
            from,
        )].key == key,
        forall|j: int|
            from <= j < position(children, key, from) ==> (#[trigger] children[j]).key != key,
    decreases children.len() - from,
{
    if from < children.len() && children[from].key != key {
        lemma_position(children, key, from + 1);
    }
}

/// The path of a segment below a node whose own path is `parent`.
pub open spec fn joined(parent: Seq<char>, part: Seq<char>) -> Seq<char> {
    if parent.len() == 0 {
        part
    } else {
        parent + seq!['.'] + part
    }
}

/// A node for the segment `part`, first seen below a node whose path is
/// `parent`.
pub open spec fn fresh(parent: Seq<char>, part: Seq<char>) -> Node {
    Node {
        rel_path: part,
        full_path: joined(parent, part),
        key: folded(part),
        children: Seq::empty(),
    }
}

/// A node for the segment `part` under the key `key`, first seen below a
/// node whose path is `parent`.
pub open spec fn fresh_keyed(parent: Seq<char>, part: Seq<char>, key: Seq<char>) -> Node {
    Node { rel_path: part, full_path: joined(parent, part), key, children: Seq::empty() }
}

/// The keys of the segments of a path: each segment in lower case.
pub open spec fn keys_of(parts: Seq<Seq<char>>) -> Seq<Seq<char>> {
    Seq::new(parts.len(), |i: int| folded(parts[i]))
}

/// The root of an empty trie.
pub open spec fn root() -> Node {
    Node {
        rel_path: Seq::empty(),
        full_path: Seq::empty(),
        key: Seq::empty(),
        children: Seq::empty(),
    }
}

/// `node` after the path made of the segments `parts` has been entered below
/// it: each segment descends into the child with its key, which is added
/// behind the others where it is missing.
pub open spec fn inserted(node: Node, parts: Seq<Seq<char>>) -> Node
    decreases parts.len(),
{
    if parts.len() == 0 {
        node
    } else {
        let p = position(node.children, folded(parts[0]), 0);
        if p < node.children.len() {
            Node {
                children: node.children.update(p, inserted(node.children[p], parts.skip(1))),
                ..node
            }
        } else {
            Node {
                children: node.children.push(
                    inserted(fresh(node.full_path, parts[0]), parts.skip(1)),
                ),
                ..node
            }
        }
    }
}

/// `node` after the path made of the segments `parts` has been entered below
/// it, each segment under the key that `keys` gives for it: a segment
/// descends into the child with its key, which is added behind the others
/// where it is missing. Segments for which `keys` holds no key are left out.
pub open spec fn entered(node: Node, parts: Seq<Seq<char>>, keys: Seq<Seq<char>>) -> Node
    decreases parts.len(),
{
    if parts.len() == 0 || keys.len() == 0 {
        node
    } else {
        let p = position(node.children, keys[0], 0);
        if p < node.children.len() {
            Node {
                children: node.children.update(
                    p,
                    entered(node.children[p], parts.skip(1), keys.skip(1)),
                ),
                ..node
            }
        } else {
            Node {
                children: node.children.push(
                    entered(
                        fresh_keyed(node.full_path, parts[0], keys[0]),
                        parts.skip(1),
                        keys.skip(1),
                    ),
                ),
                ..node
            }
        }
    }
}

/// Entering a path is entering its segments under their lower-case forms.
pub proof fn lemma_inserted_is_entered(node: Node, parts: Seq<Seq<char>>)
    ensures
        inserted(node, parts) == entered(node, parts, keys_of(parts)),
    decreases parts.len(),
{
    if parts.len() > 0 {
        let keys = keys_of(parts);
        let p = position(node.children, keys[0], 0);
        assert(keys.skip(1) =~= keys_of(parts.skip(1)));
        assert(fresh(node.full_path, parts[0]) == fresh_keyed(node.full_path, parts[0], keys[0]));
        if p < node.children.len() {
            lemma_inserted_is_entered(node.children[p], parts.skip(1));
        } else {
            lemma_inserted_is_entered(fresh(node.full_path, parts[0]), parts.skip(1));
        }
    }
}

/// The trie of the given names, entered in their order.
pub open spec fn built(paths: Seq<Seq<char>>) -> Node
    decreases paths.len(),
{
    if paths.len() == 0 {
        root()
    } else {
        inserted(built(paths.drop_last()), split(paths.last(), Delimiter::Char('.')))
    }
}

/// Whether a segment holds no dot.
pub open spec fn dotless(part: Seq<char>) -> bool {
    forall|i: int| 0 <= i < part.len() ==> #[trigger] part[i] != '.'
}

/// Whether the children of `node`, and theirs in turn, are keyed by their own
/// segment in lower case, hold no dot in their segment, have their parent's
/// path and their own segment as their path, and differ from their siblings
/// in their key.
pub open spec fn well_formed(node: Node) -> bool
    decreases node,
{
    &&& forall|i: int, j: int|
        0 <= i < j < node.children.len() ==> (#[trigger] node.children[i]).key != (
        #[trigger] node.children[j]).key
    &&& forall|i: int|
        0 <= i < node.children.len() ==> {
            &&& (#[trigger] node.children[i]).key == folded(node.children[i].rel_path)
            &&& dotless(node.children[i].rel_path)
            &&& node.children[i].full_path == joined(node.full_path, node.children[i].rel_path)
            &&& well_formed(node.children[i])
        }
}

/// Entering a path leaves the node's own segment, path and key as they were.
pub proof fn lemma_inserted_keeps_node(node: Node, parts: Seq<Seq<char>>)
    ensures
        inserted(node, parts).rel_path == node.rel_path,
        inserted(node, parts).full_path == node.full_path,
        inserted(node, parts).key == node.key,
        inserted(node, parts).children.len() >= node.children.len(),
{
    if parts.len() > 0 {
        lemma_position(node.children, folded(parts[0]), 0);
    }
}

/// Entering a path of dotless segments keeps a trie well formed.
pub proof fn lemma_inserted_well_formed(node: Node, parts: Seq<Seq<char>>)
    requires
        well_formed(node),
        forall|i: int| 0 <= i < parts.len() ==> dotless(#[trigger] parts[i]),
    ensures
        well_formed(inserted(node, parts)),
    decreases parts.len(),
{
    if parts.len() > 0 {
        let key = folded(parts[0]);
        let p = position(node.children, key, 0);
        let rest = parts.skip(1);
        let after = inserted(node, parts);
        lemma_position(node.children, key, 0);
        assert forall|i: int| 0 <= i < rest.len() implies dotless(#[trigger] rest[i]) by {
            assert(rest[i] == parts[i + 1]);
        }
        if p < node.children.len() {
            let child = node.children[p];
            lemma_inserted_well_formed(child, rest);
            lemma_inserted_keeps_node(child, rest);
            assert forall|i: int| 0 <= i < after.children.len() implies {
                &&& (#[trigger] after.children[i]).key == folded(after.children[i].rel_path)
                &&& dotless(after.children[i].rel_path)
                &&& after.children[i].full_path == joined(
                    after.full_path,
                    after.children[i].rel_path,
                )
                &&& well_formed(after.children[i])
            } by {
                if i != p {
                    assert(after.children[i] == node.children[i]);
                }
            }
            assert forall|i: int, j: int| 0 <= i < j < after.children.len() implies (
            #[trigger] after.children[i]).key != (#[trigger] after.children[j]).key by {
                assert(after.children[i].key == node.children[i].key);
                assert(after.children[j].key == node.children[j].key);
            }
        } else {
            let child = fresh(node.full_path, parts[0]);
            assert(well_formed(child));
            lemma_inserted_well_formed(child, rest);
            lemma_inserted_keeps_node(child, rest);
            assert forall|i: int| 0 <= i < after.children.len() implies {
                &&& (#[trigger] after.children[i]).key == folded(after.children[i].rel_path)
                &&& dotless(after.children[i].rel_path)
                &&& after.children[i].full_path == joined(
                    after.full_path,
                    after.children[i].rel_path,
                )
                &&& well_formed(after.children[i])
            } by {
                if i < node.children.len() {
                    assert(after.children[i] == node.children[i]);
                }
            }
            assert forall|i: int, j: int| 0 <= i < j < after.children.len() implies (
            #[trigger] after.children[i]).key != (#[trigger] after.children[j]).key by {
                assert(after.children[i] == node.children[i]);
                if j < node.children.len() {
                    assert(after.children[j] == node.children[j]);
                }
            }
        }
    }
}

/// The trie of any names is well formed, and the segment, path and key of
/// its root are empty.
pub proof fn lemma_built_well_formed(paths: Seq<Seq<char>>)
    ensures
        well_formed(built(paths)),
        built(paths).rel_path == Seq::<char>::empty(),
        built(paths).full_path == Seq::<char>::empty(),
        built(paths).key == Seq::<char>::empty(),
    decreases paths.len(),
{
    if paths.len() > 0 {
        lemma_built_well_formed(paths.drop_last());
        lemma_split_pieces_hold_no_separator(paths.last(), Delimiter::Char('.'));
        let parts = split(paths.last(), Delimiter::Char('.'));
        assert forall|i: int| 0 <= i < parts.len() implies dotless(#[trigger] parts[i]) by {
            assert forall|j: int| 0 <= j < parts[i].len() implies #[trigger] parts[i][j] != '.' by {
                assert(!Delimiter::Char('.').matches(parts[i][j]));
            }
        }
        lemma_inserted_well_formed(built(paths.drop_last()), parts);
    }
}

/// The proposal that stands for a node: a node with children is a branch,
/// proposed with a dot behind its path and no suffix, so that the next
/// segment can follow; a node without is a leaf, proposed as it is.
pub open spec fn proposal(node: Node) -> CompletionModel {
    if node.children.len() > 0 {
        CompletionModel {
            completion: node.full_path + seq!['.'],
            display: Some(node.rel_path + seq!['.']),
            suffix: Suffix::Absent,
        }
    } else {
        CompletionModel {
            completion: node.full_path,
            display: Some(node.rel_path),
            suffix: Suffix::Standard,
        }
    }
}

/// The proposals that stand for the nodes, in their order.
pub open spec fn proposals(nodes: Seq<Node>) -> Seq<CompletionModel> {
    Seq::new(nodes.len(), |i: int| proposal(nodes[i]))
}

/// The children of `node` whose key begins with `prefix`.
pub open spec fn with_prefix(node: Node, prefix: Seq<char>) -> Seq<Node> {
    node.children.filter(|c: Node| prefix.is_prefix_of(c.key))
}

/// The nodes that complete the path whose lower-cased segments are `tokens`,
/// seen from `node`.
///
/// A last token that is empty asks for every child of the node. Any other
/// token descends into the child with that key; where there is none, the
/// children whose key begins with the token are the answer, and the tokens
/// behind it are not looked at. When the tokens are used up, every child of
/// the node reached is the answer.
pub open spec fn candidates(node: Node, tokens: Seq<Seq<char>>) -> Seq<Node>
    decreases tokens.len(),
{
    if tokens.len() == 0 {
        node.children
    } else if tokens.len() == 1 && tokens[0].len() == 0 {
        node.children
    } else {
        let p = position(node.children, tokens[0], 0);
        if p < node.children.len() {
            candidates(node.children[p], tokens.skip(1))
        } else {
            with_prefix(node, tokens[0])
        }
    }
}

/// The proposals for the partly typed path `word`, before they are sorted.
pub open spec fn offered(trie: Node, word: Seq<char>) -> Seq<CompletionModel> {
    proposals(candidates(trie, split(folded(word), Delimiter::Char('.'))))
}

/// For the empty word every child of the root is proposed, and nothing else.
pub proof fn lemma_empty_word_offers_root_children(trie: Node)
    ensures
        offered(trie, Seq::empty()) == proposals(trie.children),
{
    let tokens = split(folded(Seq::<char>::empty()), Delimiter::Char('.'));
    assert(tokens =~= seq![Seq::<char>::empty()]);
}

/// In a well-formed trie no two children of a node are shown alike.
pub proof fn lemma_children_shown_apart(node: Node, i: int, j: int)
    requires
        well_formed(node),
        0 <= i < j < node.children.len(),
    ensures
        proposal(node.children[i]).shown() != proposal(node.children[j]).shown(),
{
    let a = node.children[i];
    let b = node.children[j];
    assert(a.key != b.key);
    assert(a.rel_path != b.rel_path);
    let sa = proposal(a).shown();
    let sb = proposal(b).shown();
    if a.children.len() > 0 && b.children.len() > 0 {
        if sa == sb {
            assert(a.rel_path =~= sa.drop_last());
            assert(b.rel_path =~= sb.drop_last());
        }
    } else if a.children.len() > 0 {
        if sa == sb {
            assert(sa.last() == '.');
            assert(b.rel_path[b.rel_path.len() - 1] == '.');
        }
    } else if b.children.len() > 0 {
        if sa == sb {
            assert(sb.last() == '.');
            assert(a.rel_path[a.rel_path.len() - 1] == '.');
        }
    }
}

/// A proposal while it is gathered and sorted.
struct Candidate {
    completion: Vec<char>,
    display: Vec<char>,
    branch: bool,
}

impl View for Candidate {
    type V = CompletionModel;

    closed spec fn view(&self) -> CompletionModel {
        CompletionModel {
            completion: self.completion@,
            display: Some(self.display@),
            suffix: if self.branch {
                Suffix::Absent
            } else {
                Suffix::Standard
            },
        }
    }
}

/// The proposals that `list` holds.
spec fn gathered(list: Seq<Candidate>) -> Seq<CompletionModel> {
    Seq::new(list.len(), |i: int| list[i]@)
}

impl PathPart {
    /// The root of an empty trie.
    pub fn new() -> (r: PathPart)
        ensures
            r@ == root(),
    {
        let r = PathPart {
            rel_path: String::new(),
            full_path: String::new(),
            key: Vec::new(),
            children: Vec::new(),
        };
        assert(r@.children =~= Seq::empty());
        r
    }

    /// A node for the segment `part` under the key `key`, below a node whose
    /// path is `parent`.
    fn leaf(parent: &String, part: &Vec<char>, key: Vec<char>) -> (r: PathPart)
        ensures
            r@ == fresh_keyed(parent@, part@, key@),
    {
        let mut full = chars_of(parent.as_str());
        if full.len() > 0 {
            full.push('.');
            append_chars(&mut full, part);
        } else {
            full = slice_of_all(part);
        }
        let r = PathPart {
            rel_path: string_of(part),
            full_path: string_of(&full),
            key,
            children: Vec::new(),
        };
        assert(r@.children =~= Seq::empty());
        assert(full@ =~= joined(parent@, part@));
        r
    }

    /// The index of the child whose key is `key`, or the number of children
    /// where there is none.
    fn find(&self, key: &Vec<char>) -> (p: usize)
        ensures
            p == position(self@.children, key@, 0),
            p <= self.children.len(),
    {
        let mut i: usize = 0;
        while i < self.children.len()
            invariant
                i <= self.children.len(),
                position(self@.children, key@, 0) == position(self@.children, key@, i as int),
            decreases self.children.len() - i,
        {
            assert(self@.children[i as int] == self.children[i as int]@);
            if same_text(&self.children[i].key, key) {
                return i;
            }
            i += 1;
        }
        i
    }

    /// The child whose lower-cased segment is `key`.
    pub fn child(&self, key: &str) -> (r: Option<&PathPart>)
        ensures
            match r {
                Some(c) => {
                    let p = position(self@.children, key@, 0);
                    p < self@.children.len() && c@ == self@.children[p]
                },
                None => position(self@.children, key@, 0) == self@.children.len(),
            },
    {
        let k = chars_of(key);
        let p = self.find(&k);
        if p < self.children.len() {
            assert(self@.children[p as int] == self.children[p as int]@);
            Some(&self.children[p])
        } else {
            None
        }
    }

    /// Enters the path made of the segments `parts[from..]` below this node,
    /// each under its key in `keys`.
    fn enter(&mut self, parts: &Vec<Vec<char>>, keys: &Vec<Vec<char>>, from: usize)
        requires
            from <= parts.len(),
            from <= keys.len(),
        ensures
            final(self)@ == entered(
                old(self)@,
                texts(parts@).skip(from as int),
                texts(keys@).skip(from as int),
            ),
        decreases parts.len() - from,
    {
        let ghost rest = texts(parts@).skip(from as int);
        let ghost rest_keys = texts(keys@).skip(from as int);
        if from == parts.len() || from == keys.len() {
            return ;
        }
        let ghost before = self@;
        assert(rest[0] == parts@[from as int]@);
        assert(rest_keys[0] == keys@[from as int]@);
        assert(rest.skip(1) =~= texts(parts@).skip(from + 1));
        assert(rest_keys.skip(1) =~= texts(keys@).skip(from + 1));
        let p = self.find(&keys[from]);
        if p == self.children.len() {
            let child = PathPart::leaf(&self.full_path, &parts[from], slice_of_all(&keys[from]));
            self.children.push(child);
        }
        let ghost middle = self@;
        let ghost target = self.children[p as int]@;
        self.children[p].enter(parts, keys, from + 1);
        proof {
            let want = entered(before, rest, rest_keys);
            assert(self@.children.len() == want.children.len());
            assert forall|i: int| 0 <= i < want.children.len() implies self@.children[i]
                == want.children[i] by {
                assert(self@.children[i] == self.children[i]@);
                if i != p {
                    assert(middle.children[i] == self.children[i]@);
                    if i < before.children.len() {
                        assert(before.children[i] == middle.children[i]);
                    }
                } else {
                    assert(middle.children[i] == target);
                }
            }
            assert(self@.children =~= want.children);
        }
    }

    /// Enters the path made of the segments `parts` below this node, each
    /// under the key that `keys` gives for it; segments for which `keys`
    /// holds no key are left out.
    pub fn insert_keyed(&mut self, parts: &Vec<Vec<char>>, keys: &Vec<Vec<char>>)
        ensures
            final(self)@ == entered(old(self)@, texts(parts@), texts(keys@)),
    {
        assert(texts(parts@).skip(0) =~= texts(parts@));
        assert(texts(keys@).skip(0) =~= texts(keys@));
        self.enter(parts, keys, 0);
    }

    /// Enters the path made of the segments `parts` below this node, each
    /// under its lower-case form.
    fn insert(&mut self, parts: &Vec<Vec<char>>)
        ensures
            final(self)@ == inserted(old(self)@, texts(parts@)),
    {
        let mut keys: Vec<Vec<char>> = Vec::new();
        let mut i: usize = 0;
        while i < parts.len()
            invariant
                i <= parts.len(),
                keys.len() == i,
                forall|k: int| 0 <= k < i ==> (#[trigger] keys@[k])@ == folded(parts@[k]@),
            decreases parts.len() - i,
        {
            keys.push(fold_case(&parts[i]));
            i += 1;
        }
        proof {
            assert(texts(keys@) =~= keys_of(texts(parts@)));
            lemma_inserted_is_entered(self@, texts(parts@));
        }
        self.insert_keyed(parts, &keys);
    }

    /// The proposal that stands for this node.
    fn propose(&self) -> (r: Candidate)
        ensures
            r@ == proposal(self@),
    {
        let mut completion = chars_of(self.full_path.as_str());
        let mut display = chars_of(self.rel_path.as_str());
        let branch = self.children.len() > 0;
        if branch {
            completion.push('.');
            display.push('.');
            assert(completion@ =~= self.full_path@ + seq!['.']);
            assert(display@ =~= self.rel_path@ + seq!['.']);
        }
        Candidate { completion, display, branch }
    }

    /// The proposals for every child of this node.
    fn propose_children(&self) -> (r: Vec<Candidate>)
        ensures
            gathered(r@) == proposals(self@.children),
    {
        let mut out: Vec<Candidate> = Vec::new();
        let mut i: usize = 0;
        while i < self.children.len()
            invariant
                i <= self.children.len(),
                out.len() == i,
                forall|k: int| 0 <= k < i ==> (#[trigger] out@[k])@ == proposal(self@.children[k]),
            decreases self.children.len() - i,
        {
            assert(self@.children[i as int] == self.children[i as int]@);
            out.push(self.children[i].propose());
            i += 1;
        }
        assert(gathered(out@) =~= proposals(self@.children));
        out
    }

    /// The proposals for the children of this node whose key begins with
    /// `prefix`.
    fn propose_matching(&self, prefix: &Vec<char>) -> (r: Vec<Candidate>)
        ensures
            gathered(r@) == proposals(with_prefix(self@, prefix@)),
    {
        let ghost keep = |c: Node| prefix@.is_prefix_of(c.key);
        let ghost all = self@.children;
        let mut out: Vec<Candidate> = Vec::new();
        let mut i: usize = 0;
        proof {
            reveal(Seq::filter);
            assert(all.take(0) =~= Seq::<Node>::empty());
        }
        while i < self.children.len()
            invariant
                i <= self.children.len(),
                all == self@.children,
                keep == |c: Node| prefix@.is_prefix_of(c.key),
                gathered(out@) == proposals(all.take(i as int).filter(keep)),
            decreases self.children.len() - i,
        {
            let ghost before = out@;
            let ghost picked = all.take(i as int).filter(keep);
            proof {
                reveal(Seq::filter);
                assert(all[i as int] == self.children[i as int]@);
                assert(all.take(i + 1).drop_last() =~= all.take(i as int));
                assert(all.take(i + 1).last() == all[i as int]);
            }
            if starts_with(&self.children[i].key, prefix) {
                out.push(self.children[i].propose());
                assert(gathered(out@) =~= gathered(before).push(proposal(all[i as int])));
                assert(gathered(out@) =~= proposals(picked.push(all[i as int])));
            }
            i += 1;
        }
        assert(all.take(self.children.len() as int) =~= all);
        out
    }

    /// The proposals for the path whose lower-cased segments are
    /// `tokens[from..]`, seen from this node.
    fn gather(&self, tokens: &Vec<Vec<char>>, from: usize) -> (r: Vec<Candidate>)
        requires
            from <= tokens.len(),
        ensures
            gathered(r@) == proposals(candidates(self@, texts(tokens@).skip(from as int))),
        decreases tokens.len() - from,
    {
        let ghost rest = texts(tokens@).skip(from as int);
        if from == tokens.len() {
            return self.propose_children();
        }
        assert(rest[0] == tokens@[from as int]@);
        assert(rest.skip(1) =~= texts(tokens@).skip(from + 1));
        if from + 1 == tokens.len() && tokens[from].len() == 0 {
            return self.propose_children();
        }
        let p = self.find(&tokens[from]);
        if p < self.children.len() {
            assert(self@.children[p as int] == self.children[p as int]@);
            self.children[p].gather(tokens, from + 1)
        } else {
            self.propose_matching(&tokens[from])
        }
    }
}

/// A copy of `v`.
fn slice_of_all(v: &Vec<char>) -> (r: Vec<char>)
    ensures
        r@ == v@,
{
    let mut r: Vec<char> = Vec::new();
    append_chars(&mut r, v);
    assert(r@ =~= v@);
    r
}

/// Puts `c` into the sorted list behind every proposal that is not shown
/// after it.
fn insert_sorted(out: &mut Vec<Candidate>, c: Candidate)
    requires
        sorted_by_display(gathered(old(out)@)),
    ensures
        sorted_by_display(gathered(final(out)@)),
        gathered(final(out)@).to_multiset() == gathered(old(out)@).to_multiset().insert(c@),
{
    let ghost before = gathered(out@);
    let mut p: usize = 0;
    while p < out.len() && !text_less(&c.display, &out[p].display)
        invariant
            p <= out.len(),
            gathered(out@) == before,
            forall|k: int| 0 <= k < p ==> !lex_less(c@.shown(), (#[trigger] before[k]).shown()),
        decreases out.len() - p,
    {
        assert(before[p as int] == out@[p as int]@);
        p += 1;
    }
    let ghost item = c@;
    proof {
        if p < out.len() {
            assert(before[p as int] == out@[p as int]@);
        }
    }
    out.insert(p, c);
    proof {
        let after = gathered(out@);
        assert(after =~= before.insert(p as int, item));
        to_multiset_insert(before, p as int, item);
        assert forall|i: int, j: int| 0 <= i < j < after.len() implies lex_le(
            after[i].shown(),
            after[j].shown(),
        ) by {
            if j < p {
                assert(after[i] == before[i] && after[j] == before[j]);
            } else if j == p {
                assert(after[i] == before[i]);
                lemma_lex_total(before[i].shown(), item.shown());
            } else if i < p {
                assert(after[i] == before[i] && after[j] == before[j - 1]);
            } else if i == p {
                assert(after[j] == before[j - 1]);
                assert(lex_less(item.shown(), before[p as int].shown()));
                if j - 1 > p {
                    assert(lex_le(before[p as int].shown(), before[j - 1].shown()));
                }
                lemma_lex_transitive(item.shown(), before[p as int].shown(), before[j - 1].shown());
            } else {
                assert(after[i] == before[i - 1] && after[j] == before[j - 1]);
            }
        }
    }
}

/// The same proposals in ascending order of the texts shown.
fn sort_by_display(list: Vec<Candidate>) -> (r: Vec<Candidate>)
    ensures
        sorted_by_display(gathered(r@)),
        gathered(r@).to_multiset() == gathered(list@).to_multiset(),
{
    let ghost all = gathered(list@);
    let mut list = list;
    let mut out: Vec<Candidate> = Vec::new();
    proof {
        assert(gathered(out@) =~= all.skip(all.len() as int));
    }
    while list.len() > 0
        invariant
            list.len() <= all.len(),
            gathered(list@) == all.take(list.len() as int),
            sorted_by_display(gathered(out@)),
            gathered(out@).to_multiset() == all.skip(list.len() as int).to_multiset(),
        decreases list.len(),
    {
        let ghost n = list.len() as int;
        let ghost before = gathered(list@);
        let c = list.pop().unwrap();
        proof {
            assert(c@ == before[n - 1]);
            assert(gathered(list@) =~= all.take(n - 1));
            assert(all.skip(n - 1) =~= all.skip(n).insert(0, c@));
            to_multiset_insert(all.skip(n), 0, c@);
        }
        insert_sorted(&mut out, c);
    }
    proof {
        assert(all.skip(0) =~= all);
    }
    out
}

/// The proposals as the caller receives them.
fn publish(list: &Vec<Candidate>) -> (r: Vec<Completion>)
    ensures
        completions(r@) == gathered(list@),
{
    let mut out: Vec<Completion> = Vec::new();
    let mut i: usize = 0;
    while i < list.len()
        invariant
            i <= list.len(),
            out.len() == i,
            forall|k: int| 0 <= k < i ==> (#[trigger] out@[k])@ == list@[k]@,
        decreases list.len() - i,
    {
        let c = &list[i];
        let item = Completion {
            completion: string_of(&c.completion),
            display: Some(string_of(&c.display)),
            suffix: if c.branch {
                Suffix::Absent
            } else {
                Suffix::Standard
            },
        };
        out.push(item);
        i += 1;
    }
    assert(completions(out@) =~= gathered(list@));
    out
}

/// Completes signal paths from the names of the known signals.
#[derive(Debug)]
pub struct CliCompleter {
    pub paths: PathPart,
}

impl CliCompleter {
    /// A completer that knows no signal.
    pub fn new() -> (r: CliCompleter)
        ensures
            r.paths@ == root(),
    {
        CliCompleter { paths: PathPart::new() }
    }

    /// The completer for the given signals: the trie of their names.
    pub fn from_metadata(metadata: &[Metadata]) -> (r: CliCompleter)
        ensures
            r.paths@ == built(names(descriptors(metadata@))),
            well_formed(r.paths@),
    {
        let ghost all = names(descriptors(metadata@));
        let mut root = PathPart::new();
        let mut i: usize = 0;
        assert(all.take(0) =~= Seq::<Seq<char>>::empty());
        while i < metadata.len()
            invariant
                i <= metadata.len(),
                all == names(descriptors(metadata@)),
                root@ == built(all.take(i as int)),
            decreases metadata.len() - i,
        {
            let name = chars_of(metadata[i].name.as_str());
            let parts = split_text(&name, Delimiter::Char('.'));
            proof {
                assert(all.take(i + 1).drop_last() =~= all.take(i as int));
                assert(all.take(i + 1).last() == name@);
            }
            root.insert(&parts);
            i += 1;
        }
        proof {
            assert(all.take(metadata.len() as int) =~= all);
            lemma_built_well_formed(all);
        }
        CliCompleter { paths: root }
    }

    /// The proposals for the path whose segments, in lower case, are
    /// `tokens`: none at all while no signal is known; else the proposals
    /// for the nodes that [`candidates`] gives, in ascending order of the
    /// texts shown.
    pub fn complete_tokens(&self, tokens: &Vec<Vec<char>>) -> (r: Option<Vec<Completion>>)
        ensures
            match r {
                None => self.paths@.children.len() == 0,
                Some(list) => {
                    &&& self.paths@.children.len() > 0
                    &&& sorted_by_display(completions(list@))
                    &&& completions(list@).to_multiset() == proposals(
                        candidates(self.paths@, texts(tokens@)),
                    ).to_multiset()
                },
            },
    {
        if self.paths.children.len() == 0 {
            return None;
        }
        assert(texts(tokens@).skip(0) =~= texts(tokens@));
        let found = self.paths.gather(tokens, 0);
        let sorted = sort_by_display(found);
        Some(publish(&sorted))
    }

    /// The proposals for the partly typed path `word`: none at all while no
    /// signal is known; else those that [`offered`] gives, in ascending
    /// order of the texts shown.
    pub fn complete_entry_path(&self, word: &str) -> (r: Option<Vec<Completion>>)
        ensures
            match r {
                None => self.paths@.children.len() == 0,
                Some(list) => {
                    &&& self.paths@.children.len() > 0
                    &&& sorted_by_display(completions(list@))
                    &&& completions(list@).to_multiset() == offered(
                        self.paths@,
                        word@,
                    ).to_multiset()
                },
            },
    {
        let typed = chars_of(word);
        let lower = fold_case(&typed);
        let tokens = split_text(&lower, Delimiter::Char('.'));
        self.complete_tokens(&tokens)
    }
}

} // verus!
