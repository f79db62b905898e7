//! Markdown notes of the knowledge base: which files count as notes, and
//! their ids and titles. Listing and reading files is left to the caller.

use crate::nvm::{lemma_text_lt_irreflexive, lemma_text_lt_transitive, text_less, text_lt};
use crate::shell::{replace_char, replaced};
use crate::text::{is_prefix, lines_of, slice_text, split_lines, starts_with_text, trim_text, trimmed};
use vstd::multiset::Multiset;
use vstd::prelude::*;

verus! {

pub struct KnowledgeFile {
    pub id: String,
    pub title: String,
    pub path: String,
}

/// The extension of the last component of a path, as `Path::extension` gives it.
pub uninterp spec fn extension_of(path: Seq<char>) -> Option<Seq<char>>;

/// The last component of a path without its extension, as `Path::file_stem` gives it.
pub uninterp spec fn stem_of(path: Seq<char>) -> Option<Seq<char>>;

/// Relies on `Path::extension`: a function of the path text alone. The
/// extension of a path given as `str` is valid UTF-8.
#[verifier::external_body]
fn path_extension(path: &str) -> (r: Option<String>)
    ensures
        match r {
            Some(e) => extension_of(path@) == Some(e@),
            None => extension_of(path@) is None,
        },
{
    std::path::Path::new(path).extension().and_then(|e| e.to_str()).map(|e| e.to_string())
}

/// Relies on `Path::file_stem`: a function of the path text alone. The
/// stem of a path given as `str` is valid UTF-8.
#[verifier::external_body]
fn path_stem(path: &str) -> (r: Option<String>)
    ensures
        match r {
            Some(e) => stem_of(path@) == Some(e@),
            None => stem_of(path@) is None,
        },
{
    std::path::Path::new(path).file_stem().and_then(|e| e.to_str()).map(|e| e.to_string())
}

/// `md` in any mix of upper and lower case.
pub open spec fn is_md_ext(e: Seq<char>) -> bool {
    e.len() == 2 && (e[0] == 'm' || e[0] == 'M') && (e[1] == 'd' || e[1] == 'D')
}

pub fn is_md_extension(ext: &str) -> (r: bool)
    ensures
        r == is_md_ext(ext@),
{
    if ext.unicode_len() != 2 {
        return false;
    }
    let a = ext.get_char(0);
    let b = ext.get_char(1);
    (a == 'm' || a == 'M') && (b == 'd' || b == 'D')
}

/// Whether `path` names a Markdown note.
pub fn is_md_file(path: &str) -> (r: bool)
    ensures
        r == (extension_of(path@) matches Some(e) && is_md_ext(e)),
{
    match path_extension(path) {
        Some(e) => is_md_extension(e.as_str()),
        None => false,
    }
}

pub open spec fn stem_or_untitled(path: Seq<char>) -> Seq<char> {
    match stem_of(path) {
        Some(s) => s,
        None => "untitled"@,
    }
}

fn stem_text(path: &str) -> (r: String)
    ensures
        r@ == stem_or_untitled(path@),
{
    match path_stem(path) {
        Some(s) => s,
        None => String::from_str("untitled"),
    }
}

/// The id of a note: its file name without extension.
pub fn file_id_from_path(path: &str) -> (r: String)
    ensures
        r@ == stem_or_untitled(path@),
{
    stem_text(path)
}

/// A readable title made from a file stem: dashes and underscores become
/// spaces, and the result is trimmed.
pub open spec fn title_of_stem(stem: Seq<char>) -> Seq<char> {
    trimmed(replaced(replaced(stem, '-', " "@), '_', " "@))
}

pub fn title_from_stem(stem: &str) -> (r: String)
    ensures
        r@ == title_of_stem(stem@),
{
    let a = replace_char(stem, '-', " ");
    let b = replace_char(a.as_str(), '_', " ");
    trim_text(b.as_str())
}

/// The title of a note without a heading, made from its file name.
pub fn title_from_filename(path: &str) -> (r: String)
    ensures
        r@ == title_of_stem(stem_or_untitled(path@)),
{
    let stem = stem_text(path);
    title_from_stem(stem.as_str())
}

/// The text of the first level-one heading (`# ...`) among `lines`, trimmed.
pub open spec fn first_heading(lines: Seq<Seq<char>>) -> Option<Seq<char>>
    decreases lines.len(),
{
    if lines.len() == 0 {
        None
    } else if is_prefix("# "@, lines[0]) {
        Some(trimmed(lines[0].subrange(2, lines[0].len() as int)))
    } else {
        first_heading(lines.drop_first())
    }
}

/// The title a note's text gives itself, if it has a level-one heading.
pub fn title_from_text(content: &str) -> (r: Option<String>)
    ensures
        r is None <==> first_heading(lines_of(content@)) is None,
        r is Some ==> first_heading(lines_of(content@)) == Some(r->0@),
{
    let lines = split_lines(content);
    let ghost ls = lines_of(content@);
    let n = lines.len();
    let mut i: usize = 0;
    assert(ls.subrange(0, n as int) =~= ls);
    while i < n
        invariant
            n == lines@.len(),
            i <= n,
            lines@.len() == ls.len(),
            ls == lines_of(content@),
            forall|j: int| 0 <= j < n ==> (#[trigger] lines@[j])@ == ls[j],
            first_heading(ls) == first_heading(ls.subrange(i as int, n as int)),
        decreases n - i,
    {
        let line = lines[i].as_str();
        assert(ls.subrange(i as int, n as int)[0] == ls[i as int]);
        proof {
            reveal_strlit("# ");
        }
        if starts_with_text(line, "# ") {
            let rest = slice_text(line, 2, line.unicode_len());
            let t = trim_text(rest.as_str());
            assert(first_heading(ls.subrange(i as int, n as int)) == Some(t@));
            return Some(t);
        }
        assert(ls.subrange(i as int, n as int).drop_first() =~= ls.subrange(i + 1, n as int));
        i = i + 1;
    }
    None
}

/// Titles never decrease along `v`.
pub open spec fn sorted_by_title(v: Seq<KnowledgeFile>) -> bool {
    forall|i: int, j: int| 0 <= i < j < v.len() ==> !text_lt(v[j].title@, v[i].title@)
}

/// The notes ordered by title; notes of equal title keep their order.
pub fn sort_by_title(files: Vec<KnowledgeFile>) -> (r: Vec<KnowledgeFile>)
    ensures
        sorted_by_title(r@),
        r@.to_multiset() == files@.to_multiset(),
{
    broadcast use vstd::multiset::group_multiset_axioms, vstd::seq_lib::group_to_multiset_ensures;

    let ghost all = files@;
    let mut rest = files;
    let mut out: Vec<KnowledgeFile> = Vec::new();
    assert(out@.to_multiset() =~= Multiset::empty());
    assert(out@.to_multiset().add(rest@.to_multiset()) =~= all.to_multiset());
    while rest.len() > 0
        invariant
            sorted_by_title(out@),
            out@.to_multiset().add(rest@.to_multiset()) == all.to_multiset(),
        decreases rest@.len(),
    {
        let ghost before_rest = rest@;
        proof {
            vstd::seq_lib::to_multiset_remove(before_rest, 0);
        }
        let x = rest.remove(0);
        proof {
            assert(before_rest[0] == x);
            assert(before_rest.contains(x));
            vstd::seq_lib::to_multiset_contains(before_rest, x);
            assert(before_rest.to_multiset().count(x) > 0);
        }
        let mut p: usize = 0;
        while p < out.len() && !text_less(x.title.as_str(), out[p].title.as_str())
            invariant
                p <= out@.len(),
                forall|k: int| 0 <= k < p ==> !text_lt(x.title@, (#[trigger] out@[k]).title@),
            decreases out@.len() - p,
        {
            p = p + 1;
        }
        let ghost old_out = out@;
        proof {
            vstd::seq_lib::to_multiset_insert(old_out, p as int, x);
        }
        out.insert(p, x);
        proof {
            assert forall|i: int, j: int| 0 <= i < j < out@.len() implies !text_lt(
                out@[j].title@,
                out@[i].title@,
            ) by {
                if j < p {
                    assert(out@[i] == old_out[i] && out@[j] == old_out[j]);
                } else if j == p {
                    assert(out@[i] == old_out[i]);
                } else if i == p {
                    let m = j - 1;
                    assert(out@[j] == old_out[m]);
                    assert(text_lt(x.title@, old_out[p as int].title@));
                    if text_lt(old_out[m].title@, x.title@) {
                        lemma_text_lt_transitive(old_out[m].title@, x.title@, old_out[p as int].title@);
                        if m == p {
                            lemma_text_lt_irreflexive(old_out[m].title@);
                        }
                    }
                } else if i < p {
                    assert(out@[i] == old_out[i] && out@[j] == old_out[j - 1]);
                } else {
                    assert(out@[i] == old_out[i - 1] && out@[j] == old_out[j - 1]);
                }
            }
            assert(out@.to_multiset().add(rest@.to_multiset()) =~= all.to_multiset());
        }
    }
    assert(rest@.to_multiset() =~= Multiset::empty());
    assert(out@.to_multiset() =~= out@.to_multiset().add(rest@.to_multiset()));
    out
}

} // verus!
