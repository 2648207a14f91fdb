//! The search box: from the text that was typed to the patterns that a
//! search runs with.

use vstd::prelude::*;
use crate::types::{opt_text, views};

verus! {

/// A word of the search text that begins with this limits the search to
/// the projects whose name contains the rest of the word.
pub const PROJECT_FILTER_PREFIX: &'static str = "prj:";

/// What a search runs with: a pattern for the items, and the lower-case
/// text that a project's name must contain, if the search names one.
#[derive(PartialEq, Eq, Debug)]
pub struct SearchSpec {
    pub search_pattern: String,
    pub project_pattern: Option<String>,
}

/// What a [`SearchSpec`] holds, with texts as character sequences.
pub struct SearchSpecView {
    pub search_pattern: Seq<char>,
    pub project_pattern: Option<Seq<char>>,
}

impl View for SearchSpec {
    type V = SearchSpecView;

    open spec fn view(&self) -> SearchSpecView {
        SearchSpecView {
            search_pattern: self.search_pattern@,
            project_pattern: opt_text(self.project_pattern),
        }
    }
}

// ---------------------------------------------------------------------------
// Words
// ---------------------------------------------------------------------------
/// The words of a text: what stands between its spaces. A text with `n`
/// spaces has `n + 1` words, some of them empty where spaces touch or stand
/// at an end.
pub open spec fn words(s: Seq<char>) -> Seq<Seq<char>>
    decreases s.len(),
{
    if s.len() == 0 {
        seq![Seq::empty()]
    } else {
        let before = words(s.drop_last());
        if s.last() == ' ' {
            before.push(Seq::empty())
        } else {
            before.drop_last().push(before.last().push(s.last()))
        }
    }
}

/// The words put together again with one space between each two.
pub open spec fn joined(words: Seq<Seq<char>>) -> Seq<char>
    decreases words.len(),
{
    if words.len() == 0 {
        Seq::empty()
    } else if words.len() == 1 {
        words[0]
    } else {
        joined(words.drop_last()) + seq![' '] + words.last()
    }
}

/// Whether a word begins with `prj:`.
pub open spec fn is_project_filter(word: Seq<char>) -> bool {
    word.len() >= 4 && word[0] == 'p' && word[1] == 'r' && word[2] == 'j' && word[3] == ':'
}

/// The test that the words which name a project pass.
pub open spec fn naming_project() -> spec_fn(Seq<char>) -> bool {
    |word: Seq<char>| is_project_filter(word)
}

/// The test that the other words pass.
pub open spec fn not_naming_project() -> spec_fn(Seq<char>) -> bool {
    |word: Seq<char>| !is_project_filter(word)
}

/// The text to look for. Where a word of the search names a project, it
/// is the other words, one space between each two; otherwise it is the
/// search as it was typed.
pub open spec fn search_text(s: Seq<char>) -> Seq<char> {
    if words(s).filter(naming_project()).len() > 0 {
        joined(words(s).filter(not_naming_project()))
    } else {
        s
    }
}

/// The project that the search names: what follows `prj:` in the first
/// word that begins with it, as it was typed.
pub open spec fn project_filter(s: Seq<char>) -> Option<Seq<char>> {
    let naming = words(s).filter(naming_project());
    if naming.len() > 0 {
        Some(naming[0].skip(4))
    } else {
        None
    }
}

/// The text with a backslash in front of every percent sign.
pub open spec fn escaped(t: Seq<char>) -> Seq<char>
    decreases t.len(),
{
    if t.len() == 0 {
        Seq::empty()
    } else if t.last() == '%' {
        escaped(t.drop_last()) + seq!['\\', '%']
    } else {
        escaped(t.drop_last()).push(t.last())
    }
}

/// The pattern that matches whatever contains the text: the text between
/// two percent signs, its own percent signs escaped.
pub open spec fn like_pattern(t: Seq<char>) -> Seq<char> {
    seq!['%'] + escaped(t) + seq!['%']
}

/// The text in lower case, as the standard library converts it.
pub uninterp spec fn lowercase(s: Seq<char>) -> Seq<char>;

/// `str::to_lowercase` of the standard library: the lower-case form of a
/// text, which depends on the text alone.
#[verifier::external_body]
pub(crate) fn lowercased(s: &str) -> (r: String)
    ensures
        r@ == lowercase(s@),
{
    s.to_lowercase()
}

/// Splits a text at its spaces.
pub fn split_words(search: &str) -> (r: Vec<String>)
    ensures
        views(r@) == words(search@),
{
    let n = search.unicode_len();
    let mut done: Vec<String> = Vec::new();
    let mut start: usize = 0;
    let mut i: usize = 0;
    proof {
        assert(search@.take(0) =~= Seq::empty());
        assert(views(done@).push(search@.subrange(0, 0)) =~= seq![Seq::<char>::empty()]);
    }
    while i < n
        invariant
            n == search@.len(),
            start <= i <= n,
            words(search@.take(i as int)) == views(done@).push(
                search@.subrange(start as int, i as int),
            ),
        decreases n - i,
    {
        let c = search.get_char(i);
        proof {
            assert(search@.take(i + 1).drop_last() =~= search@.take(i as int));
            assert(search@.take(i + 1).last() == c);
        }
        if c == ' ' {
            let word = search.substring_char(start, i);
            let ghost before = views(done@);
            done.push(String::from_str(word));
            proof {
                assert(views(done@) =~= before.push(search@.subrange(start as int, i as int)));
                assert(search@.subrange(i + 1, i + 1) =~= Seq::empty());
            }
            start = i + 1;
        } else {
            proof {
                let before = views(done@).push(search@.subrange(start as int, i as int));
                assert(before.drop_last() =~= views(done@));
                assert(search@.subrange(start as int, i as int).push(c) =~= search@.subrange(
                    start as int,
                    i + 1,
                ));
            }
        }
        i += 1;
    }
    let word = search.substring_char(start, n);
    let ghost before = views(done@);
    done.push(String::from_str(word));
    proof {
        assert(views(done@) =~= before.push(search@.subrange(start as int, n as int)));
        assert(search@.take(n as int) =~= search@);
    }
    done
}

/// Puts words together with one space between each two.
pub fn join_words(words: &Vec<String>) -> (r: String)
    ensures
        r@ == joined(views(words@)),
{
    let mut out = String::new();
    let mut i: usize = 0;
    assert(views(words@).take(0) =~= Seq::empty());
    while i < words.len()
        invariant
            i <= words.len(),
            out@ == joined(views(words@).take(i as int)),
        decreases words.len() - i,
    {
        proof {
            reveal_strlit(" ");
            assert(views(words@).take(i + 1).drop_last() =~= views(words@).take(i as int));
            assert(views(words@).take(i + 1).last() == words@[i as int]@);
            if i == 0 {
                assert(views(words@).take(1)[0] == words@[0]@);
                assert(Seq::<char>::empty() + words@[0]@ =~= words@[0]@);
            }
        }
        if i > 0 {
            out.append(" ");
            assert(out@ =~= joined(views(words@).take(i as int)) + seq![' ']);
        }
        out.append(words[i].as_str());
        i += 1;
    }
    assert(views(words@).take(words.len() as int) =~= views(words@));
    out
}

/// Whether a word begins with `prj:`.
pub fn starts_with_project_filter(word: &str) -> (r: bool)
    ensures
        r == is_project_filter(word@),
{
    word.unicode_len() >= 4 && word.get_char(0) == 'p' && word.get_char(1) == 'r' && word.get_char(
        2,
    ) == 'j' && word.get_char(3) == ':'
}

/// Puts a backslash in front of every percent sign of a text.
pub fn escape_like(t: &str) -> (r: String)
    ensures
        r@ == escaped(t@),
{
    let n = t.unicode_len();
    let mut out = String::new();
    let mut i: usize = 0;
    assert(t@.take(0) =~= Seq::empty());
    while i < n
        invariant
            n == t@.len(),
            i <= n,
            out@ == escaped(t@.take(i as int)),
        decreases n - i,
    {
        let c = t.get_char(i);
        proof {
            reveal_strlit("\\%");
            assert(t@.take(i + 1).drop_last() =~= t@.take(i as int));
            assert(t@.take(i + 1).last() == c);
        }
        if c == '%' {
            out.append("\\%");
            assert(out@ =~= escaped(t@.take(i as int)) + seq!['\\', '%']);
        } else {
            out.append(t.substring_char(i, i + 1));
            assert(t@.subrange(i as int, i + 1) =~= seq![c]);
            assert(out@ =~= escaped(t@.take(i as int)).push(c));
        }
        i += 1;
    }
    assert(t@.take(n as int) =~= t@);
    out
}

/// Splits a search into the text to look for and the project that it
/// names, if a word of it begins with `prj:`. The project is returned as it
/// was typed.
pub fn split_search(search: &str) -> (r: (String, Option<String>))
    ensures
        r.0@ == search_text(search@),
        opt_text(r.1) == project_filter(search@),
{
    let all = split_words(search);
    let ghost naming = naming_project();
    let ghost others = not_naming_project();
    let mut rest: Vec<String> = Vec::new();
    let mut project: Option<String> = None;
    let mut i: usize = 0;
    proof {
        assert(views(all@).take(0) =~= Seq::empty());
        views(all@).take(0).lemma_filter_len(naming);
        views(all@).take(0).lemma_filter_len(others);
        assert(views(rest@) =~= views(all@).take(0).filter(others));
    }
    while i < all.len()
        invariant
            i <= all.len(),
            naming == naming_project(),
            others == not_naming_project(),
            views(rest@) == views(all@).take(i as int).filter(others),
            match project {
                Some(p) => views(all@).take(i as int).filter(naming).len() > 0 && p@ == views(
                    all@,
                ).take(i as int).filter(naming)[0].skip(4),
                None => views(all@).take(i as int).filter(naming).len() == 0,
            },
        decreases all.len() - i,
    {
        let word = &all[i];
        proof {
            assert(views(all@).take(i + 1) =~= views(all@).take(i as int).push(word@));
            views(all@).take(i as int).lemma_filter_push(word@, naming);
            views(all@).take(i as int).lemma_filter_push(word@, others);
        }
        if starts_with_project_filter(word.as_str()) {
            if project.is_none() {
                let len = word.as_str().unicode_len();
                let name = word.as_str().substring_char(4, len);
                assert(name@ =~= word@.skip(4));
                project = Some(String::from_str(name));
            }
        } else {
            let ghost before = views(rest@);
            rest.push(word.clone());
            assert(views(rest@) =~= before.push(word@));
        }
        i += 1;
    }
    assert(views(all@).take(all.len() as int) =~= views(all@));
    match project {
        Some(p) => (join_words(&rest), Some(p)),
        None => (String::from_str(search), None),
    }
}

/// The search that runs for a text to look for and a project filter that
/// is already in lower case.
pub fn search_spec_for(text: &str, project_pattern: Option<String>) -> (r: SearchSpec)
    ensures
        r@.search_pattern == like_pattern(text@),
        r@.project_pattern == opt_text(project_pattern),
{
    let mut search_pattern = String::from_str("%");
    let body = escape_like(text);
    search_pattern.append(body.as_str());
    search_pattern.append("%");
    proof {
        reveal_strlit("%");
        assert(search_pattern@ =~= like_pattern(text@));
    }
    SearchSpec { search_pattern, project_pattern }
}

/// What a search for the typed text runs with.
pub open spec fn spec_search_parse(s: Seq<char>) -> SearchSpecView {
    SearchSpecView {
        search_pattern: like_pattern(search_text(s)),
        project_pattern: match project_filter(s) {
            Some(name) => Some(lowercase(name)),
            None => None,
        },
    }
}

/// Reads a search as it was typed.
///
/// The items are matched against the typed text between two percent
/// signs, its own percent signs escaped. Where a word of the text begins
/// with `prj:`, the rest of the first such word, in lower case, is the
/// project filter, and the text to match is made of the words that do not
/// begin with `prj:`.
pub fn search_parse(search: &str) -> (r: SearchSpec)
    ensures
        r@ == spec_search_parse(search@),
{
    let (text, project) = split_search(search);
    let project_pattern = match project {
        Some(name) => Some(lowercased(name.as_str())),
        None => None,
    };
    search_spec_for(text.as_str(), project_pattern)
}

} // verus!
