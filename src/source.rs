use vstd::prelude::*;

use crate::chars::{
    find_char, index_of, last_index_of, lemma_index_of, lemma_index_of_props, lemma_last_index_of,
    lemma_last_index_of_props, rfind_char,
};
use crate::text::{chars_of, concat, string_of, substring, views};

verus! {

/// Why a manifest line or a whole manifest was rejected.
#[derive(Debug)]
pub enum SourceError {
    /// The line does not hold exactly one `/`.
    MalformedLine(String),
    /// No line of the manifest named a repository.
    Empty,
}

/// A repository identifier, `owner/name`.
#[derive(Debug)]
pub struct Repo {
    pub user: String,
    pub name: String,
}

/// The owner and name of a manifest entry: the parts before and after its
/// only `/`; none when it holds no `/` or more than one.
pub open spec fn parsed(line: Seq<char>) -> Option<(Seq<char>, Seq<char>)> {
    let k = index_of(line, '/');
    if k < line.len() && k == last_index_of(line, '/') {
        Some((line.subrange(0, k), line.subrange(k + 1, line.len() as int)))
    } else {
        None
    }
}

/// Splits `owner/name` into its two parts.
pub fn parse_line(line: &str) -> (r: Result<Repo, SourceError>)
    ensures
        match parsed(line@) {
            Some((user, name)) => r matches Ok(repo) && repo.user@ == user && repo.name@ == name,
            None => r matches Err(SourceError::MalformedLine(l)) && l@ == line@,
        },
{
    let cs = chars_of(line);
    let k = find_char(&cs, '/');
    let last = rfind_char(&cs, '/');
    let single = match last {
        Some(j) => k < cs.len() && j == k,
        None => false,
    };
    if single {
        Ok(Repo { user: substring(&cs, 0, k), name: substring(&cs, k + 1, cs.len()) })
    } else {
        proof {
            lemma_index_of_props(cs@, '/');
        }
        Err(SourceError::MalformedLine(line.to_owned()))
    }
}

/// A line holding a single `/` splits into the parts around it; a line with
/// no `/` or with two or more gives no entry.
pub proof fn lemma_parse_line_law(line: Seq<char>, a: Seq<char>, b: Seq<char>)
    ensures
        (forall|j: int| 0 <= j < a.len() ==> a[j] != '/') && (forall|j: int|
            0 <= j < b.len() ==> b[j] != '/') ==> parsed(a + seq!['/'] + b) == Some((a, b)),
        parsed(line) is Some <==> exists|i: int|
            0 <= i < line.len() && line[i] == '/' && forall|j: int|
                0 <= j < line.len() && j != i ==> #[trigger] line[j] != '/',
{
    let s = a + seq!['/'] + b;
    if (forall|j: int| 0 <= j < a.len() ==> a[j] != '/') && (forall|j: int|
        0 <= j < b.len() ==> b[j] != '/') {
        let k = a.len() as int;
        assert forall|j: int| 0 <= j < k implies s[j] != '/' by {
            assert(s[j] == a[j]);
        }
        assert forall|j: int| k < j < s.len() implies s[j] != '/' by {
            assert(s[j] == b[j - k - 1]);
        }
        lemma_index_of(s, '/', k);
        lemma_last_index_of(s, '/', k);
        assert(s.subrange(0, k) =~= a);
        assert(s.subrange(k + 1, s.len() as int) =~= b);
    }
    lemma_index_of_props(line, '/');
    lemma_last_index_of_props(line, '/');
    let k = index_of(line, '/');
    if parsed(line) is Some {
        assert(line[k] == '/');
        assert forall|j: int| 0 <= j < line.len() && j != k implies #[trigger] line[j] != '/' by {}
    }
    if exists|i: int|
        0 <= i < line.len() && line[i] == '/' && forall|j: int|
            0 <= j < line.len() && j != i ==> #[trigger] line[j] != '/' {
        let i = choose|i: int|
            0 <= i < line.len() && line[i] == '/' && forall|j: int|
                0 <= j < line.len() && j != i ==> #[trigger] line[j] != '/';
        lemma_index_of(line, '/', i);
        lemma_last_index_of(line, '/', i);
    }
}

/// The lines of `s`, split at each `\n`; the last line is what follows the
/// final `\n` (empty when `s` ends with one).
pub open spec fn lines_of(s: Seq<char>) -> Seq<Seq<char>>
    decreases s.len(),
{
    if s.len() == 0 {
        seq![Seq::empty()]
    } else {
        let prev = lines_of(s.drop_last());
        if s.last() == '\n' {
            prev.push(Seq::empty())
        } else {
            prev.update(prev.len() - 1, prev.last().push(s.last()))
        }
    }
}

proof fn lemma_lines_of_nonempty(s: Seq<char>)
    ensures
        lines_of(s).len() >= 1,
    decreases s.len(),
{
    if s.len() > 0 {
        lemma_lines_of_nonempty(s.drop_last());
    }
}

/// Splits `s` at each `\n`.
pub fn split_lines(s: &str) -> (lines: Vec<String>)
    ensures
        views(lines@) == lines_of(s@),
{
    let cs = chars_of(s);
    let mut lines: Vec<String> = Vec::new();
    let mut cur: Vec<char> = Vec::new();
    let mut i: usize = 0;
    while i < cs.len()
        invariant
            i <= cs@.len(),
            cs@ == s@,
            views(lines@).push(cur@) == lines_of(cs@.subrange(0, i as int)),
        decreases cs@.len() - i,
    {
        let c = cs[i];
        let ghost prefix = cs@.subrange(0, i as int);
        let ghost next = cs@.subrange(0, i + 1);
        assert(next.drop_last() =~= prefix);
        proof {
            lemma_lines_of_nonempty(prefix);
        }
        if c == '\n' {
            let line = string_of(cur.as_slice());
            lines.push(line);
            cur = Vec::new();
            assert(views(lines@).push(cur@) =~= lines_of(next));
        } else {
            let ghost before = views(lines@).push(cur@);
            cur.push(c);
            assert(views(lines@).push(cur@) =~= before.update(
                before.len() - 1,
                before.last().push(c),
            ));
        }
        i = i + 1;
    }
    let last = string_of(cur.as_slice());
    lines.push(last);
    assert(cs@.subrange(0, i as int) =~= s@);
    assert(views(lines@) =~= lines_of(s@));
    lines
}

/// What a JSON text decodes to when it is a single JSON string.
pub uninterp spec fn json_string_of(s: Seq<char>) -> Option<Seq<char>>;

/// Relies on `serde_json::from_str::<String>`: decodes `s` when it is one JSON
/// string, surrounding whitespace allowed; the outcome depends on `s` alone,
/// and a text without a `"` (the empty text too) holds no JSON string.
#[verifier::external_body]
fn decode_json_string(s: &str) -> (r: Option<String>)
    ensures
        match r {
            Some(v) => json_string_of(s@) == Some(v@),
            None => json_string_of(s@) is None,
        },
        (forall|i: int| 0 <= i < s@.len() ==> s@[i] != '"') ==> r is None,
{
    serde_json::from_str::<String>(s).ok()
}

/// The repository of a manifest line: the line must decode as a JSON
/// string of the form `owner/name`.
pub open spec fn line_entry(line: Seq<char>) -> Option<(Seq<char>, Seq<char>)> {
    match json_string_of(line) {
        Some(v) => parsed(v),
        None => None,
    }
}

/// The repositories named by the lines, in order; other lines are skipped.
pub open spec fn entries_of(lines: Seq<Seq<char>>) -> Seq<(Seq<char>, Seq<char>)>
    decreases lines.len(),
{
    if lines.len() == 0 {
        Seq::empty()
    } else {
        let prev = entries_of(lines.drop_last());
        match line_entry(lines.last()) {
            Some(e) => prev.push(e),
            None => prev,
        }
    }
}

/// The repositories named by a manifest text, in order.
pub open spec fn manifest_entries(input: Seq<char>) -> Seq<(Seq<char>, Seq<char>)> {
    entries_of(lines_of(input))
}

/// The views of a sequence of string pairs.
pub open spec fn pair_views(v: Seq<(String, String)>) -> Seq<(Seq<char>, Seq<char>)> {
    Seq::new(v.len(), |i: int| (v[i].0@, v[i].1@))
}

/// The entry of one manifest line, if it names a repository.
pub fn read_line_entry(line: &str) -> (r: Option<(String, String)>)
    ensures
        match r {
            Some((u, n)) => line_entry(line@) == Some((u@, n@)),
            None => line_entry(line@) is None,
        },
        (forall|i: int| 0 <= i < line@.len() ==> line@[i] != '"') ==> r is None,
{
    match decode_json_string(line) {
        Some(v) => match parse_line(v.as_str()) {
            Ok(repo) => Some((repo.user, repo.name)),
            Err(_) => None,
        },
        None => None,
    }
}

/// The repositories named by a manifest, one JSON string `"owner/name"` per
/// line, in order. Lines that are not such a string are skipped; a manifest
/// that names none is rejected.
pub fn parse_source(input: &str) -> (r: Result<Vec<(String, String)>, SourceError>)
    ensures
        match r {
            Ok(v) => pair_views(v@) == manifest_entries(input@) && v@.len() > 0,
            Err(e) => e is Empty && manifest_entries(input@).len() == 0,
        },
        input@.len() == 0 ==> r matches Err(SourceError::Empty),
{
    let lines = split_lines(input);
    proof {
        if input@.len() == 0 {
            assert(lines_of(input@) == seq![Seq::<char>::empty()]);
            assert(views(lines@)[0] == lines@[0]@);
        }
    }
    let mut repos: Vec<(String, String)> = Vec::new();
    let mut i: usize = 0;
    while i < lines.len()
        invariant
            i <= lines@.len(),
            views(lines@) == lines_of(input@),
            pair_views(repos@) == entries_of(views(lines@).subrange(0, i as int)),
            input@.len() == 0 ==> repos@.len() == 0 && lines@.len() == 1 && lines@[0]@.len()
                == 0,
        decreases lines@.len() - i,
    {
        let ghost ls = views(lines@);
        assert(ls.subrange(0, i + 1).drop_last() =~= ls.subrange(0, i as int));
        assert(ls.subrange(0, i + 1).last() == lines@[i as int]@);
        let entry = read_line_entry(lines[i].as_str());
        match entry {
            Some(e) => {
                let ghost before = pair_views(repos@);
                repos.push(e);
                assert(pair_views(repos@) =~= before.push((e.0@, e.1@)));
            },
            None => {},
        }
        i = i + 1;
    }
    assert(views(lines@).subrange(0, i as int) =~= views(lines@));
    if repos.len() == 0 {
        Err(SourceError::Empty)
    } else {
        Ok(repos)
    }
}

/// The keys `owner-name` of the repositories named by a manifest, in order.
pub fn parse_source_as_hashset(input: &str) -> (keys: Vec<String>)
    ensures
        keys@.len() == manifest_entries(input@).len(),
        forall|i: int|
            0 <= i < keys@.len() ==> #[trigger] keys@[i]@ == manifest_entries(input@)[i].0 + seq![
                '-',
            ] + manifest_entries(input@)[i].1,
{
    let mut keys: Vec<String> = Vec::new();
    match parse_source(input) {
        Ok(repos) => {
            let mut i: usize = 0;
            while i < repos.len()
                invariant
                    i <= repos@.len(),
                    pair_views(repos@) == manifest_entries(input@),
                    keys@.len() == i,
                    forall|j: int|
                        0 <= j < i ==> #[trigger] keys@[j]@ == manifest_entries(input@)[j].0
                            + seq!['-'] + manifest_entries(input@)[j].1,
                decreases repos@.len() - i,
            {
                let joined = concat(repos[i].0.as_str(), "-");
                let key = concat(joined.as_str(), repos[i].1.as_str());
                proof {
                    reveal_strlit("-");
                }
                keys.push(key);
                i = i + 1;
            }
        },
        Err(_) => {},
    }
    keys
}

} // verus!
