use vstd::prelude::*;

use crate::chars::{find_char, index_of, last_index_of, rfind_char};
use crate::record::Record;
use crate::text::{chars_of, concat, contains_string, is_listed, substring, trim_text, trimmed, views};

verus! {

/// The largest entry size, in bytes, that extraction takes by default (128 KiB).
pub const DEFAULT_MAX_FILE_SIZE: u64 = 131072;

/// Why an archive entry, or a whole extraction, produced no record.
#[derive(Debug)]
pub enum ExtractionError {
    /// The entry is a directory, too large, or has an extension outside the table.
    NotCandidate { message: String },
    /// The entry's path cannot be confined to the extraction root.
    UnsafePath { message: String },
    /// The tokenizer could not encode the entry's text.
    Tokenizer { message: String },
    /// A whole stage produced nothing.
    Validation { message: String },
}

/// What extraction reads of an archive entry before opening it.
#[derive(Debug)]
pub struct EntryMeta {
    /// The entry's name inside the archive.
    pub name: String,
    /// A regular file, not a directory marker.
    pub is_file: bool,
    /// Uncompressed size in bytes.
    pub size: u64,
}

/// Where an entry lands once its path is confined to the archive root:
/// the sanitized relative path and its last component.
#[derive(Debug)]
pub struct EntryPath {
    pub file_path: String,
    pub file_name: String,
}

/// A language of the classification table: its name, its kind
/// ("programming", "markup", ...) and its file extensions.
#[derive(Debug)]
pub struct LanguageEntry {
    pub name: String,
    pub kind: Option<String>,
    pub extensions: Vec<String>,
}

/// The extension of an entry name: the text after its first `.`, with the
/// `.` put back in front; none when the name has no `.`.
pub open spec fn extension_of(name: Seq<char>) -> Option<Seq<char>> {
    let k = index_of(name, '.');
    if k < name.len() {
        Some(seq!['.'] + name.subrange(k + 1, name.len() as int))
    } else {
        None
    }
}

/// The extension of an entry name, if it has one.
pub fn parse_ext(name: &str) -> (r: Option<String>)
    ensures
        match r {
            Some(e) => extension_of(name@) == Some(e@),
            None => extension_of(name@) is None,
        },
{
    let cs = chars_of(name);
    let k = find_char(&cs, '.');
    if k < cs.len() {
        let rest = substring(&cs, k + 1, cs.len());
        let ext = concat(".", rest.as_str());
        proof {
            reveal_strlit(".");
        }
        Some(ext)
    } else {
        None
    }
}

/// The last component of a path: what follows its last `/`.
pub open spec fn base_name(path: Seq<char>) -> Seq<char> {
    path.subrange(last_index_of(path, '/') + 1, path.len() as int)
}

/// A file's stem: its base name without the part from the last `.`, unless
/// that `.` is the first character.
pub open spec fn stem_of(path: Seq<char>) -> Seq<char> {
    let base = base_name(path);
    let d = last_index_of(base, '.');
    if d > 0 {
        base.subrange(0, d)
    } else {
        base
    }
}

/// The stem of a path.
pub fn file_stem(path: &str) -> (r: String)
    ensures
        r@ == stem_of(path@),
{
    let cs = chars_of(path);
    let slash = rfind_char(&cs, '/');
    let len = cs.len();
    let start = match slash {
        Some(j) => {
            assert(j < len);
            j + 1
        },
        None => 0,
    };
    let base_s = substring(&cs, start, cs.len());
    let base = chars_of(base_s.as_str());
    match rfind_char(&base, '.') {
        Some(d) => {
            if d > 0 {
                substring(&base, 0, d)
            } else {
                base_s
            }
        },
        None => base_s,
    }
}

/// The repository an archive belongs to: its stem, cut at the last `_`
/// (which precedes a cache-version tag), or the whole stem.
pub open spec fn zip_name_of(path: Seq<char>) -> Seq<char> {
    let stem = stem_of(path);
    let j = last_index_of(stem, '_');
    if j >= 0 {
        stem.subrange(0, j)
    } else {
        stem
    }
}

/// The repository an archive belongs to.
pub fn get_zip_name(zip_path: &str) -> (r: String)
    ensures
        r@ == zip_name_of(zip_path@),
{
    let stem_s = file_stem(zip_path);
    let stem = chars_of(stem_s.as_str());
    match rfind_char(&stem, '_') {
        Some(j) => substring(&stem, 0, j),
        None => stem_s,
    }
}

/// The manifest key of a listed file: its stem up to the first `_`.
pub open spec fn listing_key(path: Seq<char>) -> Seq<char> {
    let stem = stem_of(path);
    stem.subrange(0, index_of(stem, '_'))
}

/// The paths, in order, whose listing key is among the manifest keys.
pub open spec fn listed_paths(paths: Seq<String>, keys: Seq<String>) -> Seq<Seq<char>>
    decreases paths.len(),
{
    if paths.len() == 0 {
        Seq::empty()
    } else {
        let prev = listed_paths(paths.drop_last(), keys);
        if is_listed(keys, listing_key(paths.last()@)) {
            prev.push(paths.last()@)
        } else {
            prev
        }
    }
}

/// Keeps the listed files whose stem, up to its first `_`, is a manifest key
/// (`owner-name`); fails when none is kept.
pub fn filter_listdir_by_source(paths: &Vec<String>, source_hs: &Vec<String>) -> (r: Result<
    Vec<String>,
    ExtractionError,
>)
    ensures
        match r {
            Ok(v) => views(v@) == listed_paths(paths@, source_hs@) && v@.len() > 0,
            Err(e) => e is Validation && listed_paths(paths@, source_hs@).len() == 0,
        },
{
    let mut filtered: Vec<String> = Vec::new();
    let mut i: usize = 0;
    while i < paths.len()
        invariant
            i <= paths@.len(),
            views(filtered@) == listed_paths(paths@.subrange(0, i as int), source_hs@),
        decreases paths@.len() - i,
    {
        assert(paths@.subrange(0, i + 1).drop_last() =~= paths@.subrange(0, i as int));
        let stem_s = file_stem(paths[i].as_str());
        let stem = chars_of(stem_s.as_str());
        let k = find_char(&stem, '_');
        let prefix = substring(&stem, 0, k);
        if contains_string(source_hs, &prefix) {
            let ghost before = views(filtered@);
            filtered.push(paths[i].clone());
            assert(views(filtered@) =~= before.push(paths@[i as int]@));
        }
        i = i + 1;
    }
    assert(paths@.subrange(0, i as int) =~= paths@);
    if filtered.len() == 0 {
        Err(ExtractionError::Validation { message: "0 Filtered repos".to_string() })
    } else {
        Ok(filtered)
    }
}

/// The category the table gives an extension, if any (the first matching entry).
pub open spec fn lookup(table: Seq<(String, String)>, ext: Seq<char>) -> Option<Seq<char>>
    decreases table.len(),
{
    if table.len() == 0 {
        None
    } else if table[0].0@ == ext {
        Some(table[0].1@)
    } else {
        lookup(table.drop_first(), ext)
    }
}

/// Looks up the category of an extension.
pub fn lookup_category(table: &Vec<(String, String)>, ext: &String) -> (r: Option<String>)
    ensures
        match r {
            Some(c) => lookup(table@, ext@) == Some(c@),
            None => lookup(table@, ext@) is None,
        },
{
    let mut i: usize = 0;
    assert(table@.subrange(0, table@.len() as int) =~= table@);
    while i < table.len()
        invariant
            i <= table@.len(),
            lookup(table@, ext@) == lookup(table@.subrange(i as int, table@.len() as int), ext@),
        decreases table@.len() - i,
    {
        let ghost rest = table@.subrange(i as int, table@.len() as int);
        assert(rest.drop_first() =~= table@.subrange(i + 1, table@.len() as int));
        if table[i].0 == *ext {
            return Some(table[i].1.clone());
        }
        i = i + 1;
    }
    None
}

/// An entry is extracted when it is a regular file of at most `max_size`
/// bytes whose extension the table knows; this gives that extension and its
/// category.
pub open spec fn candidate(meta: EntryMeta, table: Seq<(String, String)>, max_size: u64) -> Option<
    (Seq<char>, Seq<char>),
> {
    match extension_of(meta.name@) {
        Some(ext) => if meta.is_file && meta.size <= max_size && lookup(table, ext) is Some {
            Some((ext, lookup(table, ext)->0))
        } else {
            None
        },
        None => None,
    }
}

/// The extension and category of an entry that qualifies for extraction.
pub fn candidate_extension(meta: &EntryMeta, file_types: &Vec<(String, String)>, max_size: u64) -> (r:
    Option<(String, String)>)
    ensures
        match r {
            Some((e, c)) => candidate(*meta, file_types@, max_size) == Some((e@, c@)),
            None => candidate(*meta, file_types@, max_size) is None,
        },
{
    match parse_ext(meta.name.as_str()) {
        Some(ext) => {
            if meta.is_file && meta.size <= max_size {
                match lookup_category(file_types, &ext) {
                    Some(cat) => Some((ext, cat)),
                    None => None,
                }
            } else {
                None
            }
        },
        None => None,
    }
}

/// The record extracted from a qualifying entry, given its content, a fresh
/// id, its confined path (none when it cannot be confined) and its token
/// count (none when the tokenizer failed). The text is trimmed.
pub fn build_record(
    meta: &EntryMeta,
    text: &str,
    id: String,
    path: Option<EntryPath>,
    tokens: Option<usize>,
    file_extension: String,
    category: String,
) -> (r: Result<Record, ExtractionError>)
    ensures
        path is None ==> r matches Err(ExtractionError::UnsafePath { .. }),
        path is Some && tokens is None ==> r matches Err(ExtractionError::Tokenizer { .. }),
        path is Some && tokens is Some ==> (r matches Ok(rec) && rec.text@ == trimmed(text@)
            && rec.id == id && rec.file_extension == file_extension && rec.category == category
            && rec.file_path == path->0.file_path && rec.file_name == path->0.file_name
            && rec.size_in_bytes == meta.size && rec.tokens == tokens->0),
{
    match path {
        None => Err(
            ExtractionError::UnsafePath {
                message: concat("Cannot safely extract path and filename from ", meta.name.as_str()),
            },
        ),
        Some(p) => match tokens {
            None => Err(
                ExtractionError::Tokenizer {
                    message: concat("Unable to tokenize ", meta.name.as_str()),
                },
            ),
            Some(n) => Ok(
                Record {
                    text: trim_text(text),
                    id,
                    file_extension,
                    category,
                    file_path: p.file_path,
                    size_in_bytes: meta.size,
                    file_name: p.file_name,
                    tokens: n,
                },
            ),
        },
    }
}

/// Turns one archive entry into a record: only a qualifying entry (see
/// `candidate`) gives one, with its extension and category.
pub fn extract_entry(
    meta: &EntryMeta,
    text: &str,
    id: String,
    path: Option<EntryPath>,
    tokens: Option<usize>,
    file_types: &Vec<(String, String)>,
    max_size: u64,
) -> (r: Result<Record, ExtractionError>)
    ensures
        candidate(*meta, file_types@, max_size) is None ==> r matches Err(
            ExtractionError::NotCandidate { .. },
        ),
        candidate(*meta, file_types@, max_size) is Some && path is None ==> r matches Err(
            ExtractionError::UnsafePath { .. },
        ),
        candidate(*meta, file_types@, max_size) is Some && path is Some && tokens is None
            ==> r matches Err(ExtractionError::Tokenizer { .. }),
        candidate(*meta, file_types@, max_size) is Some && path is Some && tokens is Some
            ==> (r matches Ok(rec) && rec.text@ == trimmed(text@) && rec.id == id
            && rec.file_extension@ == extension_of(meta.name@)->0 && rec.category@ == lookup(
            file_types@,
            rec.file_extension@,
        )->0 && rec.file_path == path->0.file_path && rec.file_name == path->0.file_name
            && rec.size_in_bytes == meta.size && rec.tokens == tokens->0),
{
    match candidate_extension(meta, file_types, max_size) {
        None => Err(
            ExtractionError::NotCandidate {
                message: concat("Not a candidate for extraction: ", meta.name.as_str()),
            },
        ),
        Some((ext, cat)) => build_record(meta, text, id, path, tokens, ext, cat),
    }
}

#[verifier::external_type_specification]
#[verifier::external_body]
pub struct ExTokenizer(tokenizers::Tokenizer);

/// Relies on `tokenizers::Tokenizer::encode` (no special tokens added) and
/// `Encoding::len`: the number of tokens of `text`, or none when encoding fails.
#[verifier::external_body]
fn count_tokens(tokenizer: &tokenizers::Tokenizer, text: &String) -> (r: Option<usize>) {
    match tokenizer.encode(text.as_str(), false) {
        Ok(encoding) => Some(tokenizers::Encoding::len(&encoding)),
        Err(_) => None,
    }
}

/// Relies on `uuid::Uuid::new_v4` and its hyphenated text form: a fresh
/// random id of 36 characters.
#[verifier::external_body]
fn fresh_id() -> (r: String)
    ensures
        r@.len() == 36,
{
    uuid::Uuid::new_v4().to_string()
}

/// Turns one archive entry into a record, with a fresh id and the token
/// count of its trimmed text. Only a qualifying entry (see `candidate`)
/// with a confined path gives one; a tokenizer failure skips the entry.
pub fn process_valid_file(
    meta: &EntryMeta,
    text: &str,
    path: Option<EntryPath>,
    tokenizer: &tokenizers::Tokenizer,
    file_types: &Vec<(String, String)>,
    max_size: u64,
) -> (r: Result<Record, ExtractionError>)
    ensures
        candidate(*meta, file_types@, max_size) is None ==> r matches Err(
            ExtractionError::NotCandidate { .. },
        ),
        candidate(*meta, file_types@, max_size) is Some && path is None ==> r matches Err(
            ExtractionError::UnsafePath { .. },
        ),
        r is Ok ==> candidate(*meta, file_types@, max_size) is Some && path is Some,
        r matches Ok(rec) ==> rec.text@ == trimmed(text@) && rec.id@.len() == 36
            && rec.file_extension@ == extension_of(meta.name@)->0 && rec.category@ == lookup(
            file_types@,
            rec.file_extension@,
        )->0 && rec.file_path == path->0.file_path && rec.file_name == path->0.file_name
            && rec.size_in_bytes == meta.size,
        r matches Err(ExtractionError::NotCandidate { .. }) ==> candidate(
            *meta,
            file_types@,
            max_size,
        ) is None,
        r matches Err(ExtractionError::UnsafePath { .. }) ==> candidate(
            *meta,
            file_types@,
            max_size,
        ) is Some && path is None,
        r matches Err(ExtractionError::Tokenizer { .. }) ==> candidate(
            *meta,
            file_types@,
            max_size,
        ) is Some && path is Some,
        !(r matches Err(ExtractionError::Validation { .. })),
{
    if candidate_extension(meta, file_types, max_size).is_none() || path.is_none() {
        return extract_entry(meta, text, String::new(), path, None, file_types, max_size);
    }
    let trimmed_text = trim_text(text);
    let tokens = count_tokens(tokenizer, &trimmed_text);
    let id = fresh_id();
    extract_entry(meta, text, id, path, tokens, file_types, max_size)
}

/// How the entries of an archive fared: turned into records, left out by the
/// size/extension filter, or skipped on an error (unsafe path, tokenizer).
#[derive(Debug, Clone, Copy, PartialEq, Eq, Structural)]
pub struct ExtractCounts {
    pub extracted: u64,
    pub filtered: u64,
    pub skipped: u64,
}

impl ExtractCounts {
    /// No entry counted yet.
    pub fn new() -> (r: Self)
        ensures
            r == (ExtractCounts { extracted: 0, filtered: 0, skipped: 0 }),
    {
        ExtractCounts { extracted: 0, filtered: 0, skipped: 0 }
    }

    /// Counts one entry's outcome.
    pub fn tally(&mut self, outcome: &Result<Record, ExtractionError>)
        requires
            old(self).extracted < u64::MAX,
            old(self).filtered < u64::MAX,
            old(self).skipped < u64::MAX,
        ensures
            *final(self) == (match outcome {
                Ok(_) => ExtractCounts { extracted: (old(self).extracted + 1) as u64, ..*old(self) },
                Err(ExtractionError::NotCandidate { .. }) => ExtractCounts {
                    filtered: (old(self).filtered + 1) as u64,
                    ..*old(self)
                },
                Err(_) => ExtractCounts { skipped: (old(self).skipped + 1) as u64, ..*old(self) },
            }),
    {
        match outcome {
            Ok(_) => self.extracted = self.extracted + 1,
            Err(ExtractionError::NotCandidate { .. }) => self.filtered = self.filtered + 1,
            Err(_) => self.skipped = self.skipped + 1,
        }
    }
}

/// An extracted record always comes from a regular file of at most
/// `max_size` bytes whose extension the table knows, and carries that extension.
pub proof fn lemma_extraction_filter(meta: EntryMeta, table: Seq<(String, String)>, max_size: u64)
    requires
        candidate(meta, table, max_size) is Some,
    ensures
        meta.is_file,
        meta.size <= max_size,
        extension_of(meta.name@) is Some,
        lookup(table, extension_of(meta.name@)->0) is Some,
        candidate(meta, table, max_size) == Some(
            (extension_of(meta.name@)->0, lookup(table, extension_of(meta.name@)->0)->0),
        ),
{
}

} // verus!
