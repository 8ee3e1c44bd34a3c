use vstd::prelude::*;

use crate::extract::{ExtractionError, LanguageEntry};

verus! {

/// The kind of language whose files extraction takes.
pub open spec fn programming() -> Seq<char> {
    seq!['p', 'r', 'o', 'g', 'r', 'a', 'm', 'm', 'i', 'n', 'g']
}

fn programming_string() -> (r: String)
    ensures
        r@ == programming(),
{
    let r = "programming".to_owned();
    proof {
        reveal_strlit("programming");
        assert(r@ =~= programming());
    }
    r
}

/// The table rows of one language: each of its extensions with the
/// programming category, when the language is a programming language.
pub open spec fn rows_of(lang: LanguageEntry) -> Seq<(Seq<char>, Seq<char>)> {
    if lang.kind is Some && lang.kind->0@ == programming() {
        Seq::new(lang.extensions@.len(), |i: int| (lang.extensions@[i]@, programming()))
    } else {
        Seq::empty()
    }
}

/// The rows of all programming languages, in table order.
pub open spec fn programming_rows(langs: Seq<LanguageEntry>) -> Seq<(Seq<char>, Seq<char>)>
    decreases langs.len(),
{
    if langs.len() == 0 {
        Seq::empty()
    } else {
        programming_rows(langs.drop_last()) + rows_of(langs.last())
    }
}

/// The first language of the table with the given name.
pub open spec fn find_language(langs: Seq<LanguageEntry>, name: Seq<char>) -> Option<LanguageEntry>
    decreases langs.len(),
{
    if langs.len() == 0 {
        None
    } else if langs[0].name@ == name {
        Some(langs[0])
    } else {
        find_language(langs.drop_first(), name)
    }
}

/// The rows of the selected languages, in the order of the selection;
/// names the table does not hold contribute nothing.
pub open spec fn selected_rows(langs: Seq<LanguageEntry>, names: Seq<String>) -> Seq<
    (Seq<char>, Seq<char>),
>
    decreases names.len(),
{
    if names.len() == 0 {
        Seq::empty()
    } else {
        selected_rows(langs, names.drop_last()) + match find_language(langs, names.last()@) {
            Some(l) => rows_of(l),
            None => Seq::empty(),
        }
    }
}

/// The views of an extension table.
pub open spec fn table_view(t: Seq<(String, String)>) -> Seq<(Seq<char>, Seq<char>)> {
    Seq::new(t.len(), |i: int| (t[i].0@, t[i].1@))
}

/// Appends the rows of one language to a table.
fn push_rows(table: &mut Vec<(String, String)>, lang: &LanguageEntry)
    ensures
        table_view(final(table)@) == table_view(old(table)@) + rows_of(*lang),
{
    let mut is_programming = false;
    match &lang.kind {
        Some(k) => {
            let p = programming_string();
            is_programming = *k == p;
        },
        None => {},
    }
    if !is_programming {
        assert(table_view(table@) + rows_of(*lang) =~= table_view(table@));
        return;
    }
    let ghost start = table_view(table@);
    let mut i: usize = 0;
    while i < lang.extensions.len()
        invariant
            i <= lang.extensions@.len(),
            lang.kind is Some && lang.kind->0@ == programming(),
            table_view(table@) == start + rows_of(*lang).subrange(0, i as int),
        decreases lang.extensions@.len() - i,
    {
        let ghost before = table_view(table@);
        table.push((lang.extensions[i].clone(), programming_string()));
        assert(table_view(table@) =~= start + rows_of(*lang).subrange(0, i + 1)) by {
            assert(table_view(table@) =~= before.push((lang.extensions@[i as int]@, programming())));
        }
        i = i + 1;
    }
    assert(rows_of(*lang).subrange(0, i as int) =~= rows_of(*lang));
}

/// The extension table of every programming language of the classification
/// table; fails when it is empty.
pub fn get_ext_ft(doc: &Vec<LanguageEntry>) -> (r: Result<Vec<(String, String)>, ExtractionError>)
    ensures
        match r {
            Ok(t) => table_view(t@) == programming_rows(doc@) && t@.len() > 0,
            Err(e) => e is Validation && programming_rows(doc@).len() == 0,
        },
{
    let mut table: Vec<(String, String)> = Vec::new();
    let mut i: usize = 0;
    while i < doc.len()
        invariant
            i <= doc@.len(),
            table_view(table@) == programming_rows(doc@.subrange(0, i as int)),
        decreases doc@.len() - i,
    {
        assert(doc@.subrange(0, i + 1).drop_last() =~= doc@.subrange(0, i as int));
        push_rows(&mut table, &doc[i]);
        i = i + 1;
    }
    assert(doc@.subrange(0, i as int) =~= doc@);
    if table.len() == 0 {
        Err(ExtractionError::Validation { message: "Linguist yml is empty".to_owned() })
    } else {
        Ok(table)
    }
}

fn find_language_index(doc: &Vec<LanguageEntry>, name: &String) -> (r: Option<usize>)
    ensures
        match r {
            Some(i) => i < doc@.len() && find_language(doc@, name@) == Some(doc@[i as int]),
            None => find_language(doc@, name@) is None,
        },
{
    let mut i: usize = 0;
    assert(doc@.subrange(0, doc@.len() as int) =~= doc@);
    while i < doc.len()
        invariant
            i <= doc@.len(),
            find_language(doc@, name@) == find_language(
                doc@.subrange(i as int, doc@.len() as int),
                name@,
            ),
        decreases doc@.len() - i,
    {
        let ghost rest = doc@.subrange(i as int, doc@.len() as int);
        assert(rest.drop_first() =~= doc@.subrange(i + 1, doc@.len() as int));
        if doc[i].name == *name {
            return Some(i);
        }
        i = i + 1;
    }
    None
}

/// The extension table restricted to the selected programming languages,
/// or, when they give no row, the table of every programming language.
pub fn get_ext_pl(doc: &Vec<LanguageEntry>, langs: &Vec<String>) -> (r: Result<
    Vec<(String, String)>,
    ExtractionError,
>)
    ensures
        selected_rows(doc@, langs@).len() > 0 ==> (r matches Ok(t) && table_view(t@)
            == selected_rows(doc@, langs@)),
        selected_rows(doc@, langs@).len() == 0 ==> match r {
            Ok(t) => table_view(t@) == programming_rows(doc@) && t@.len() > 0,
            Err(e) => e is Validation && programming_rows(doc@).len() == 0,
        },
{
    let mut table: Vec<(String, String)> = Vec::new();
    let mut i: usize = 0;
    while i < langs.len()
        invariant
            i <= langs@.len(),
            table_view(table@) == selected_rows(doc@, langs@.subrange(0, i as int)),
        decreases langs@.len() - i,
    {
        assert(langs@.subrange(0, i + 1).drop_last() =~= langs@.subrange(0, i as int));
        match find_language_index(doc, &langs[i]) {
            Some(k) => {
                push_rows(&mut table, &doc[k]);
            },
            None => {
                assert(table_view(table@) =~= table_view(table@) + Seq::<(Seq<char>, Seq<char>)>::empty());
            },
        }
        i = i + 1;
    }
    assert(langs@.subrange(0, i as int) =~= langs@);
    if table.len() == 0 {
        get_ext_ft(doc)
    } else {
        Ok(table)
    }
}

} // verus!
