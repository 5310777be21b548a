//! Name patterns: a signal path in which `*` stands for any run of
//! characters is turned into an anchored regular expression, and the known
//! signals are filtered by it.
//!
//! The regular expressions are those of the `regex` crate. Whether an
//! expression compiles, and what it matches, is that crate's business: the
//! contracts here speak of both by name only.

use crate::metadata::{descriptors, Metadata, MetadataModel};
use crate::text::{append_literal, chars_of, string_of};
use vstd::prelude::*;

verus! {

/// Whether `regex::Regex::new` accepts the expression.
pub uninterp spec fn compiles(expression: Seq<char>) -> bool;

/// Whether the expression, once compiled, matches somewhere in `text`, as
/// `regex::Regex::is_match` decides it.
pub uninterp spec fn found_in(expression: Seq<char>, text: Seq<char>) -> bool;

/// The text with which the expression is refused: what `regex::Error`
/// writes of the error that `regex::Regex::new` gives for it.
pub uninterp spec fn refusal(expression: Seq<char>) -> Seq<char>;

/// Compiles the expression with `regex::Regex::new` and asks
/// `regex::Regex::is_match` whether it matches somewhere in the text; of an
/// expression that is refused it hands back the error as `regex::Error`
/// writes it. All three depend on their arguments alone: whether the
/// expression compiles does not depend on the text, and the answer and the
/// error's text are only named here.
#[verifier::external_body]
fn is_match(expression: &str, text: &str) -> (r: Result<bool, String>)
    ensures
        r is Ok <==> compiles(expression@),
        r matches Ok(found) ==> found == found_in(expression@, text@),
        r matches Err(why) ==> why@ == refusal(expression@),
{
    match regex::Regex::new(expression) {
        Ok(re) => Ok(re.is_match(text)),
        Err(e) => Err(e.to_string()),
    }
}

/// The regular expression for one character of a path: a dot stands for
/// itself, a star for any run of characters, anything else is left as the
/// expression syntax reads it.
pub open spec fn char_pattern(c: char) -> Seq<char> {
    if c == '.' {
        seq!['\\', '.']
    } else if c == '*' {
        seq!['(', '.', '*', ')']
    } else {
        seq![c]
    }
}

/// The regular expressions for the characters of a path, one after another.
pub open spec fn body_pattern(path: Seq<char>) -> Seq<char>
    decreases path.len(),
{
    if path.len() == 0 {
        Seq::empty()
    } else {
        body_pattern(path.drop_last()) + char_pattern(path.last())
    }
}

/// The regular expression that matches a whole name against a path.
pub open spec fn regex_text(path: Seq<char>) -> Seq<char> {
    seq!['^'] + body_pattern(path) + seq!['$']
}

/// The regular expression that matches a whole name against `path`.
pub fn path_to_regex(path: &str) -> (r: String)
    ensures
        r@ == regex_text(path@),
{
    let p = chars_of(path);
    let mut out: Vec<char> = Vec::new();
    out.push('^');
    let mut i: usize = 0;
    assert(p@.take(0) =~= Seq::<char>::empty());
    while i < p.len()
        invariant
            i <= p.len(),
            out@ == seq!['^'] + body_pattern(p@.take(i as int)),
        decreases p.len() - i,
    {
        let c = p[i];
        proof {
            assert(p@.take(i + 1).drop_last() =~= p@.take(i as int));
            assert(p@.take(i + 1).last() == c);
        }
        let ghost before = out@;
        if c == '.' {
            out.push('\\');
            out.push('.');
        } else if c == '*' {
            out.push('(');
            out.push('.');
            out.push('*');
            out.push(')');
        } else {
            out.push(c);
        }
        assert(out@ =~= before + char_pattern(c));
        assert(out@ =~= seq!['^'] + body_pattern(p@.take(i + 1)));
        i += 1;
    }
    assert(p@.take(p.len() as int) =~= p@);
    out.push('$');
    assert(out@ =~= regex_text(path@));
    string_of(&out)
}

/// Whether the name matches the path taken as a pattern; no name matches a
/// path whose expression does not compile.
pub open spec fn path_matches(path: Seq<char>, name: Seq<char>) -> bool {
    compiles(regex_text(path)) && found_in(regex_text(path), name)
}

/// Whether `name` matches `path` taken as a pattern, or the text with which
/// the expression of the path was refused.
pub fn matches_path(path: &str, name: &str) -> (r: Result<bool, String>)
    ensures
        r is Ok <==> compiles(regex_text(path@)),
        r matches Ok(found) ==> found == path_matches(path@, name@),
        r matches Err(why) ==> why@ == refusal(regex_text(path@)),
{
    let expression = path_to_regex(path);
    is_match(expression.as_str(), name)
}

/// The entries whose name matches `path`, in their order.
pub open spec fn matching(entries: Seq<MetadataModel>, path: Seq<char>) -> Seq<MetadataModel> {
    entries.filter(|e: MetadataModel| path_matches(path, e.name))
}

/// The entries that match the first path, then those that match the second,
/// and so on: an entry that matches several paths is listed once for each.
pub open spec fn selected(entries: Seq<MetadataModel>, paths: Seq<Seq<char>>) -> Seq<
    MetadataModel,
>
    decreases paths.len(),
{
    if paths.len() == 0 {
        Seq::empty()
    } else {
        selected(entries, paths.drop_last()) + matching(entries, paths.last())
    }
}

/// The complaint about a path whose expression is refused.
pub open spec fn complaint(path: Seq<char>) -> Seq<char> {
    "Invalid path: "@ + refusal(regex_text(path))
}

/// The complaints about the paths whose expression is refused, one for each
/// such path, in their order.
pub open spec fn complaints(paths: Seq<Seq<char>>) -> Seq<Seq<char>>
    decreases paths.len(),
{
    if paths.len() == 0 {
        Seq::empty()
    } else {
        let before = complaints(paths.drop_last());
        if compiles(regex_text(paths.last())) {
            before
        } else {
            before.push(complaint(paths.last()))
        }
    }
}

/// What filtering the known signals by some paths gives.
pub struct Selection<'a> {
    /// The entries that matched, path by path.
    pub entries: Vec<&'a Metadata>,
    /// For each path that was refused, why.
    pub complaints: Vec<String>,
}

/// The descriptors that `picked` refers to.
pub open spec fn referred(picked: Seq<&Metadata>) -> Seq<MetadataModel> {
    Seq::new(picked.len(), |i: int| picked[i]@)
}

/// The texts that the strings of `v` hold.
pub open spec fn texts_of(v: Seq<String>) -> Seq<Seq<char>> {
    Seq::new(v.len(), |i: int| v[i]@)
}

/// A path whose expression does not compile matches no entry.
pub proof fn lemma_no_match(entries: Seq<MetadataModel>, path: Seq<char>)
    requires
        !compiles(regex_text(path)),
    ensures
        matching(entries, path).len() == 0,
    decreases entries.len(),
{
    reveal(Seq::filter);
    if entries.len() > 0 {
        lemma_no_match(entries.drop_last(), path);
    }
}

/// Appends to `out` the entries whose name matches `path`, whose expression
/// compiles.
fn collect_matching<'a>(out: &mut Vec<&'a Metadata>, properties: &'a [Metadata], path: &str)
    requires
        compiles(regex_text(path@)),
    ensures
        referred(final(out)@) == referred(old(out)@) + matching(descriptors(properties@), path@),
{
    let ghost all = descriptors(properties@);
    let ghost keep = |e: MetadataModel| path_matches(path@, e.name);
    let ghost start = referred(out@);
    let mut i: usize = 0;
    proof {
        reveal(Seq::filter);
        assert(all.take(0) =~= Seq::<MetadataModel>::empty());
        assert(referred(out@) =~= start + all.take(0).filter(keep));
    }
    while i < properties.len()
        invariant
            i <= properties.len(),
            all == descriptors(properties@),
            keep == |e: MetadataModel| path_matches(path@, e.name),
            compiles(regex_text(path@)),
            referred(out@) == start + all.take(i as int).filter(keep),
        decreases properties.len() - i,
    {
        let ghost before = referred(out@);
        proof {
            reveal(Seq::filter);
            assert(all[i as int] == properties@[i as int]@);
            assert(all.take(i + 1).drop_last() =~= all.take(i as int));
            assert(all.take(i + 1).last() == all[i as int]);
        }
        let found = match matches_path(path, properties[i].name.as_str()) {
            Ok(found) => found,
            Err(_) => false,
        };
        if found {
            out.push(&properties[i]);
            assert(referred(out@) =~= before.push(all[i as int]));
        }
        assert(referred(out@) =~= start + all.take(i + 1).filter(keep));
        i += 1;
    }
    assert(all.take(properties.len() as int) =~= all);
}

/// Filters the known signals by the given paths, each taken as a pattern.
/// A path whose expression is refused selects nothing and is complained of
/// once; the other paths are applied all the same.
pub fn select<'a>(properties: &'a [Metadata], paths: &Vec<String>) -> (r: Selection<'a>)
    ensures
        referred(r.entries@) == selected(descriptors(properties@), texts_of(paths@)),
        texts_of(r.complaints@) == complaints(texts_of(paths@)),
{
    let ghost all = descriptors(properties@);
    let ghost given = texts_of(paths@);
    let mut entries: Vec<&'a Metadata> = Vec::new();
    let mut said: Vec<String> = Vec::new();
    let mut i: usize = 0;
    proof {
        assert(given.take(0) =~= Seq::<Seq<char>>::empty());
        assert(referred(entries@) =~= selected(all, given.take(0)));
        assert(texts_of(said@) =~= complaints(given.take(0)));
    }
    while i < paths.len()
        invariant
            i <= paths.len(),
            all == descriptors(properties@),
            given == texts_of(paths@),
            referred(entries@) == selected(all, given.take(i as int)),
            texts_of(said@) == complaints(given.take(i as int)),
        decreases paths.len() - i,
    {
        proof {
            assert(given[i as int] == paths@[i as int]@);
            assert(given.take(i + 1).drop_last() =~= given.take(i as int));
            assert(given.take(i + 1).last() == given[i as int]);
        }
        let ghost before = referred(entries@);
        let ghost heard = texts_of(said@);
        // Whether the expression compiles does not depend on the name.
        match matches_path(paths[i].as_str(), "") {
            Ok(_) => {
                collect_matching(&mut entries, properties, paths[i].as_str());
            },
            Err(why) => {
                let mut text: Vec<char> = Vec::new();
                append_literal(&mut text, "Invalid path: ");
                append_literal(&mut text, why.as_str());
                assert(text@ =~= complaint(given[i as int]));
                said.push(string_of(&text));
                proof {
                    assert(texts_of(said@) =~= heard.push(complaint(given[i as int])));
                    let none = matching(all, given[i as int]);
                    assert(none.len() == 0) by {
                        lemma_no_match(all, given[i as int]);
                    }
                    assert(referred(entries@) =~= before + none);
                }
            },
        }
        i += 1;
    }
    assert(given.take(paths.len() as int) =~= given);
    Selection { entries, complaints: said }
}

} // verus!
