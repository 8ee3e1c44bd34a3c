use vstd::prelude::*;

use crate::extract::DEFAULT_MAX_FILE_SIZE;

verus! {

/// The subcommands and their arguments, as the command line gives them.
#[derive(Debug)]
pub enum Command {
    Download {
        source: String,
        zip_dir: Option<String>,
        user_agent: Option<String>,
        workers: Option<usize>,
    },
    Extract {
        source: String,
        zip_dir: Option<String>,
        jsonl_dir: Option<String>,
        linguist_path: Option<String>,
        max_file_size: Option<u64>,
        languages: Option<Vec<String>>,
    },
    Dedupe {
        source: String,
        jsonl_dir: Option<String>,
        exact_dedup_dir: Option<String>,
        dest_dir: Option<String>,
    },
}

/// The parsed command line.
#[derive(Debug)]
pub struct Opt {
    pub cmd: Command,
}

/// Settings of the download stage.
#[derive(Debug, Clone)]
pub struct DownloadConfig {
    pub source: String,
    pub zip_dir: String,
    pub user_agent: String,
    pub workers: usize,
}

/// Settings of the extraction stage.
#[derive(Debug, Clone)]
pub struct ExtractionConfig {
    pub source: String,
    pub zip_dir: String,
    pub jsonl_dir: String,
    pub linguist_path: String,
    pub max_file_size: u64,
    pub languages: Option<Vec<String>>,
}

/// Settings of the two deduplication stages. Near-duplicates are records
/// whose estimated similarity reaches `threshold_num / threshold_den`.
#[derive(Debug, Clone)]
pub struct DedupeConfig {
    pub source: String,
    pub jsonl_dir: String,
    pub exact_dedup_dir: String,
    pub dest_dir: String,
    pub threshold_num: u64,
    pub threshold_den: u64,
    pub signature_size: usize,
    pub ngram_size: usize,
}

/// Number of downloads in flight by default.
pub const DEFAULT_WORKERS: usize = 16;

/// Default fuzzy-deduplication threshold, `8 / 10`.
pub const DEFAULT_THRESHOLD_NUM: u64 = 8;

/// Denominator of the default threshold.
pub const DEFAULT_THRESHOLD_DEN: u64 = 10;

/// Default number of hash functions of a signature.
pub const DEFAULT_SIGNATURE_SIZE: usize = 128;

/// Default shingle length, in characters.
pub const DEFAULT_NGRAM_SIZE: usize = 5;

fn owned(s: &str) -> (r: String)
    ensures
        r@ == s@,
{
    s.to_owned()
}

fn copy_strings(v: &Vec<String>) -> (r: Vec<String>)
    ensures
        r@ == v@,
{
    let mut r: Vec<String> = Vec::new();
    let mut i: usize = 0;
    while i < v.len()
        invariant
            i <= v@.len(),
            r@ == v@.subrange(0, i as int),
        decreases v@.len() - i,
    {
        r.push(v[i].clone());
        i = i + 1;
        assert(r@ =~= v@.subrange(0, i as int));
    }
    assert(v@.subrange(0, i as int) =~= v@);
    r
}

impl Default for DownloadConfig {
    fn default() -> (r: Self)
        ensures
            r.source@ == "./config/example.jsonl"@,
            r.zip_dir@ == "./zip"@,
            r.user_agent@ == "CodeCurator"@,
            r.workers == DEFAULT_WORKERS,
    {
        DownloadConfig {
            source: owned("./config/example.jsonl"),
            zip_dir: owned("./zip"),
            user_agent: owned("CodeCurator"),
            workers: DEFAULT_WORKERS,
        }
    }
}

impl Default for ExtractionConfig {
    fn default() -> (r: Self)
        ensures
            r.source@ == "./config/repos.jsonl"@,
            r.zip_dir@ == "./zip"@,
            r.jsonl_dir@ == "./jsonl"@,
            r.linguist_path@ == "./vendor/languages.yml"@,
            r.max_file_size == DEFAULT_MAX_FILE_SIZE,
            r.languages is None,
    {
        ExtractionConfig {
            source: owned("./config/repos.jsonl"),
            zip_dir: owned("./zip"),
            jsonl_dir: owned("./jsonl"),
            linguist_path: owned("./vendor/languages.yml"),
            max_file_size: DEFAULT_MAX_FILE_SIZE,
            languages: None,
        }
    }
}

impl Default for DedupeConfig {
    fn default() -> (r: Self)
        ensures
            r.source@ == "./config/example.jsonl"@,
            r.jsonl_dir@ == "./jsonl"@,
            r.exact_dedup_dir@ == "./exact"@,
            r.dest_dir@ == "./dedup"@,
            r.threshold_num == DEFAULT_THRESHOLD_NUM,
            r.threshold_den == DEFAULT_THRESHOLD_DEN,
            r.signature_size == DEFAULT_SIGNATURE_SIZE,
            r.ngram_size == DEFAULT_NGRAM_SIZE,
    {
        DedupeConfig {
            source: owned("./config/example.jsonl"),
            jsonl_dir: owned("./jsonl"),
            exact_dedup_dir: owned("./exact"),
            dest_dir: owned("./dedup"),
            threshold_num: DEFAULT_THRESHOLD_NUM,
            threshold_den: DEFAULT_THRESHOLD_DEN,
            signature_size: DEFAULT_SIGNATURE_SIZE,
            ngram_size: DEFAULT_NGRAM_SIZE,
        }
    }
}

/// The given value, or the default.
pub open spec fn or_default<T>(given: Option<T>, default: T) -> T {
    match given {
        Some(v) => v,
        None => default,
    }
}

fn pick(given: &Option<String>, default: String) -> (r: String)
    ensures
        r@ == match given {
            Some(v) => v@,
            None => default@,
        },
{
    match given {
        Some(v) => v.clone(),
        None => default,
    }
}

impl DownloadConfig {
    /// The download settings: each option given on the command line, else
    /// its default. Another subcommand gives the defaults.
    pub fn from_cli(opts_cmd: &Command) -> (config: DownloadConfig)
        ensures
            match opts_cmd {
                Command::Download { source, zip_dir, user_agent, workers } => {
                    &&& config.source@ == source@
                    &&& config.zip_dir@ == match zip_dir {
                        Some(z) => z@,
                        None => "./zip"@,
                    }
                    &&& config.user_agent@ == match user_agent {
                        Some(u) => u@,
                        None => "CodeCurator"@,
                    }
                    &&& config.workers == or_default(*workers, DEFAULT_WORKERS)
                },
                _ => config.source@ == "./config/example.jsonl"@ && config.zip_dir@ == "./zip"@
                    && config.user_agent@ == "CodeCurator"@ && config.workers == DEFAULT_WORKERS,
            },
    {
        let config = DownloadConfig::default();
        match opts_cmd {
            Command::Download { source, zip_dir, user_agent, workers } => DownloadConfig {
                source: source.clone(),
                zip_dir: pick(zip_dir, config.zip_dir),
                user_agent: pick(user_agent, config.user_agent),
                workers: match workers {
                    Some(w) => *w,
                    None => config.workers,
                },
            },
            _ => config,
        }
    }
}

impl ExtractionConfig {
    /// The extraction settings: each option given on the command line, else
    /// its default. Another subcommand gives the defaults.
    pub fn from_cli(opts_cmd: &Command) -> (config: ExtractionConfig)
        ensures
            match opts_cmd {
                Command::Extract {
                    source,
                    zip_dir,
                    jsonl_dir,
                    linguist_path,
                    max_file_size,
                    languages,
                } => {
                    &&& config.source@ == source@
                    &&& config.zip_dir@ == match zip_dir {
                        Some(z) => z@,
                        None => "./zip"@,
                    }
                    &&& config.jsonl_dir@ == match jsonl_dir {
                        Some(j) => j@,
                        None => "./jsonl"@,
                    }
                    &&& config.linguist_path@ == match linguist_path {
                        Some(l) => l@,
                        None => "./vendor/languages.yml"@,
                    }
                    &&& config.max_file_size == or_default(*max_file_size, DEFAULT_MAX_FILE_SIZE)
                    &&& config.languages is Some == languages is Some
                    &&& config.languages is Some ==> config.languages->0@ == languages->0@
                },
                _ => config.source@ == "./config/repos.jsonl"@ && config.zip_dir@ == "./zip"@
                    && config.jsonl_dir@ == "./jsonl"@ && config.linguist_path@
                    == "./vendor/languages.yml"@ && config.max_file_size == DEFAULT_MAX_FILE_SIZE
                    && config.languages is None,
            },
    {
        let config = ExtractionConfig::default();
        match opts_cmd {
            Command::Extract {
                source,
                zip_dir,
                jsonl_dir,
                linguist_path,
                max_file_size,
                languages,
            } => ExtractionConfig {
                source: source.clone(),
                zip_dir: pick(zip_dir, config.zip_dir),
                jsonl_dir: pick(jsonl_dir, config.jsonl_dir),
                linguist_path: pick(linguist_path, config.linguist_path),
                max_file_size: match max_file_size {
                    Some(m) => *m,
                    None => config.max_file_size,
                },
                languages: match languages {
                    Some(ls) => Some(copy_strings(ls)),
                    None => None,
                },
            },
            _ => config,
        }
    }
}

impl DedupeConfig {
    /// The deduplication settings: each directory given on the command
    /// line, else its default; the similarity settings are the defaults.
    /// Another subcommand gives the defaults.
    pub fn from_cli(opts_cmd: &Command) -> (config: DedupeConfig)
        ensures
            config.threshold_num == DEFAULT_THRESHOLD_NUM,
            config.threshold_den == DEFAULT_THRESHOLD_DEN,
            config.signature_size == DEFAULT_SIGNATURE_SIZE,
            config.ngram_size == DEFAULT_NGRAM_SIZE,
            match opts_cmd {
                Command::Dedupe { source, jsonl_dir, exact_dedup_dir, dest_dir } => {
                    &&& config.source@ == source@
                    &&& config.jsonl_dir@ == match jsonl_dir {
                        Some(j) => j@,
                        None => "./jsonl"@,
                    }
                    &&& config.exact_dedup_dir@ == match exact_dedup_dir {
                        Some(e) => e@,
                        None => "./exact"@,
                    }
                    &&& config.dest_dir@ == match dest_dir {
                        Some(d) => d@,
                        None => "./dedup"@,
                    }
                },
                _ => config.source@ == "./config/example.jsonl"@ && config.jsonl_dir@
                    == "./jsonl"@ && config.exact_dedup_dir@ == "./exact"@ && config.dest_dir@
                    == "./dedup"@,
            },
    {
        let config = DedupeConfig::default();
        match opts_cmd {
            Command::Dedupe { source, jsonl_dir, exact_dedup_dir, dest_dir } => DedupeConfig {
                source: source.clone(),
                jsonl_dir: pick(jsonl_dir, config.jsonl_dir),
                exact_dedup_dir: pick(exact_dedup_dir, config.exact_dedup_dir),
                dest_dir: pick(dest_dir, config.dest_dir),
                threshold_num: config.threshold_num,
                threshold_den: config.threshold_den,
                signature_size: config.signature_size,
                ngram_size: config.ngram_size,
            },
            _ => config,
        }
    }
}

/// Severity of a console message.
#[derive(Clone, Copy, Debug, PartialEq, Eq, Structural)]
pub enum Level {
    Info,
    Warn,
    Error,
}

impl Level {
    /// The tag printed before a message of this level.
    pub fn label(&self) -> (r: String)
        ensures
            r@ == match *self {
                Level::Info => "[INFO]"@,
                Level::Warn => "[WARNING]"@,
                Level::Error => "[ERROR]"@,
            },
    {
        match self {
            Level::Info => owned("[INFO]"),
            Level::Warn => owned("[WARNING]"),
            Level::Error => owned("[ERROR]"),
        }
    }
}

} // verus!
