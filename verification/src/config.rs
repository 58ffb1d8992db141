//! Runtime configuration: the object key sanitization and the parameters of a run.

use crate::cron_schedule::{cron_accepts, parse_cron, CronSchedule};
use vstd::prelude::*;

verus! {

/// Appending one character to a `String` makes its view one longer by that character.
pub assume_specification[ String::push ](s: &mut String, ch: char)
    ensures
        final(s)@ == old(s)@.push(ch),
;

/// The most characters a sanitized object key keeps.
pub const MAX_FILENAME_CHARS: usize = 1000;

/// Punctuation that S3 recommends as safe in object keys: `!-_.*'()/`.
pub open spec fn is_key_punctuation(c: char) -> bool {
    c == '!' || c == '-' || c == '_' || c == '.' || c == '*' || c == '\'' || c == '('
        || c == ')' || c == '/'
}

/// A character that a sanitized object key keeps: ASCII alphanumeric or safe punctuation.
pub open spec fn is_key_char(c: char) -> bool {
    ('a' <= c && c <= 'z') || ('A' <= c && c <= 'Z') || ('0' <= c && c <= '9')
        || is_key_punctuation(c)
}

/// The key characters are exactly the ASCII digits, the ASCII letters of either case, and the
/// punctuation `!-_.*'()/`, told apart by their code points.
pub proof fn lemma_key_char_class(c: char)
    ensures
        is_key_char(c) <==> {
            ||| 48 <= c as u32 <= 57
            ||| 65 <= c as u32 <= 90
            ||| 97 <= c as u32 <= 122
            ||| c as u32 == 33
            ||| c as u32 == 45
            ||| c as u32 == 95
            ||| c as u32 == 46
            ||| c as u32 == 42
            ||| c as u32 == 39
            ||| c as u32 == 40
            ||| c as u32 == 41
            ||| c as u32 == 47
        },
{
}

/// The first `n` elements of `s`, or all of `s` when it is shorter.
pub open spec fn prefix_upto(s: Seq<char>, n: nat) -> Seq<char> {
    if s.len() <= n {
        s
    } else {
        s.take(n as int)
    }
}

/// The characters of `s` that are key characters, in order.
pub open spec fn key_chars(s: Seq<char>) -> Seq<char> {
    s.filter(|c: char| is_key_char(c))
}

/// A sanitized object key: the key characters of `s`, cut to `MAX_FILENAME_CHARS`.
pub open spec fn sanitized(s: Seq<char>) -> Seq<char> {
    prefix_upto(key_chars(s), MAX_FILENAME_CHARS as nat)
}

fn is_key_char_exec(c: char) -> (b: bool)
    ensures
        b == is_key_char(c),
        b <==> (48 <= c as u32 <= 57 || 65 <= c as u32 <= 90 || 97 <= c as u32 <= 122
            || c as u32 == 33 || c as u32 == 45 || c as u32 == 95 || c as u32 == 46 || c as u32
            == 42 || c as u32 == 39 || c as u32 == 40 || c as u32 == 41 || c as u32 == 47),
{
    ('a' <= c && c <= 'z') || ('A' <= c && c <= 'Z') || ('0' <= c && c <= '9') || c == '!'
        || c == '-' || c == '_' || c == '.' || c == '*' || c == '\'' || c == '(' || c == ')'
        || c == '/'
}

/// Only keep recommended chars for S3 object keys and truncate to 1000 chars.
pub fn sanitize_filename(filename: &str) -> (res: String)
    ensures
        res@ == sanitized(filename@),
{
    let mut res = String::new();
    let mut count: usize = 0;
    let ghost s = filename@;
    for c in it: filename.chars()
        invariant
            it.seq() == s,
            count as nat == res@.len(),
            res@ == prefix_upto(key_chars(s.take(it.index())), MAX_FILENAME_CHARS as nat),
    {
        proof {
            reveal(Seq::filter);
            assert(s.take(it.index() + 1).drop_last() =~= s.take(it.index()));
        }
        if count < MAX_FILENAME_CHARS && is_key_char_exec(c) {
            res.push(c);
            count = count + 1;
        }
    }
    proof {
        assert(s.take(s.len() as int) =~= s);
    }
    res
}

/// Keeping only key characters leaves a sequence made of key characters unchanged.
pub proof fn lemma_key_chars_of_key_chars(s: Seq<char>)
    requires
        forall|i: int| 0 <= i < s.len() ==> is_key_char(#[trigger] s[i]),
    ensures
        key_chars(s) == s,
    decreases s.len(),
{
    reveal(Seq::filter);
    if s.len() > 0 {
        lemma_key_chars_of_key_chars(s.drop_last());
        assert(s.drop_last().push(s.last()) =~= s);
    }
}

/// Every character of a sanitized key is a key character, and it has at most
/// `MAX_FILENAME_CHARS` characters.
pub proof fn lemma_sanitized_is_clean(s: Seq<char>)
    ensures
        sanitized(s).len() <= MAX_FILENAME_CHARS,
        forall|i: int| 0 <= i < sanitized(s).len() ==> is_key_char(#[trigger] sanitized(s)[i]),
{
    broadcast use vstd::seq_lib::group_filter_ensures;

    let k = key_chars(s);
    assert forall|i: int| 0 <= i < sanitized(s).len() implies is_key_char(
        #[trigger] sanitized(s)[i],
    ) by {
        assert(sanitized(s)[i] == k[i]);
        s.lemma_filter_pred(|c: char| is_key_char(c), i);
    }
}

/// A name that holds only key characters and is short enough is left as it is.
pub proof fn lemma_clean_name_unchanged(s: Seq<char>)
    requires
        s.len() <= MAX_FILENAME_CHARS,
        forall|i: int| 0 <= i < s.len() ==> is_key_char(#[trigger] s[i]),
    ensures
        sanitized(s) == s,
{
    lemma_key_chars_of_key_chars(s);
}

/// Sanitizing twice gives what sanitizing once gives.
pub proof fn lemma_sanitize_idempotent(s: Seq<char>)
    ensures
        sanitized(sanitized(s)) == sanitized(s),
{
    lemma_sanitized_is_clean(s);
    lemma_clean_name_unchanged(sanitized(s));
}


/// The object key asked for on the command line, sanitized; `None` when none was asked for or
/// when nothing of it survives sanitization (the default key is used then).
pub fn clean_filename(filename: Option<String>) -> (res: Option<String>)
    ensures
        filename is None ==> res is None,
        filename matches Some(f) ==> (sanitized(f@).len() == 0 <==> res is None),
        filename matches Some(f) ==> (res matches Some(r) ==> r@ == sanitized(f@)),
{
    match filename {
        None => None,
        Some(f) => {
            let s = sanitize_filename(f.as_str());
            if s.as_str().unicode_len() == 0 {
                None
            } else {
                Some(s)
            }
        },
    }
}

/// What was asked for on the command line or in the environment; command arguments take
/// precedence over environment variables.
pub struct ConfigArgs {
    /// Path to the folder to backup, as given.
    pub folder: String,
    /// A cron expression to run the backup on a schedule.
    pub cron: Option<String>,
    /// The name of the archive that will be uploaded to S3, without extension.
    pub filename: Option<String>,
    /// The AWS S3 region.
    pub aws_region: String,
    /// The AWS S3 bucket name.
    pub aws_bucket: String,
    /// The AWS S3 access key ID.
    pub aws_key_id: String,
    /// The AWS S3 secret access key.
    pub aws_key: String,
}

/// What resolving the folder to back up found.
#[derive(Debug, Clone, PartialEq, Eq)]
pub enum FolderCheck {
    /// The path resolves to a directory.
    Directory,
    /// The path resolves, to the given canonical path, but that is no directory.
    NotADirectory(String),
    /// The path could not be resolved.
    Unresolved,
}

/// Why the configuration was refused.
#[derive(Debug, Clone, PartialEq, Eq)]
pub enum ConfigError {
    /// The cron expression could not be parsed.
    InvalidCron(String),
    /// The folder path could not be resolved.
    UnresolvedFolder(String),
    /// The folder path does not lead to a directory.
    NotAFolder(String),
}

/// The text of a configuration error.
pub open spec fn config_error_text(e: ConfigError) -> Seq<char> {
    match e {
        ConfigError::InvalidCron(expr) => "Could not parse cron expression '"@ + expr@ + "'"@,
        ConfigError::UnresolvedFolder(path) => "Could not resolve path "@ + path@,
        ConfigError::NotAFolder(path) => "'"@ + path@ + "' is not a folder"@,
    }
}

impl ConfigError {
    /// The message shown for this error.
    pub fn message(&self) -> (res: String)
        ensures
            res@ == config_error_text(*self),
    {
        match self {
            ConfigError::InvalidCron(expr) => {
                let mut m = String::from_str("Could not parse cron expression '");
                m.append(expr.as_str());
                m.append("'");
                m
            },
            ConfigError::UnresolvedFolder(path) => {
                let mut m = String::from_str("Could not resolve path ");
                m.append(path.as_str());
                m
            },
            ConfigError::NotAFolder(path) => {
                let mut m = String::from_str("'");
                m.append(path.as_str());
                m.append("' is not a folder");
                m
            },
        }
    }
}

/// Runtime parameters, parsed, validated and ready to be used.
pub struct Params {
    /// An optional schedule to run the backup on.
    pub schedule: Option<CronSchedule>,
    /// The optional name of the archive that will be uploaded to S3 (without extension).
    pub filename: Option<String>,
    /// The AWS S3 region to upload to.
    pub aws_region: String,
    /// The AWS S3 bucket name.
    pub aws_bucket: String,
    /// The AWS S3 access key ID.
    pub aws_key_id: String,
    /// The AWS S3 access key.
    pub aws_key: String,
}

/// Maps the outcome of parsing the cron expression `expression` to the configuration's terms.
pub fn schedule_from_parse(
    expression: String,
    parsed: Result<CronSchedule, cron::error::Error>,
) -> (res: Result<CronSchedule, ConfigError>)
    ensures
        parsed is Ok <==> res is Ok,
        parsed matches Ok(s) ==> res == Ok::<CronSchedule, ConfigError>(s),
        parsed is Err ==> res == Err::<CronSchedule, ConfigError>(
            ConfigError::InvalidCron(expression),
        ),
{
    match parsed {
        Ok(schedule) => Ok(schedule),
        Err(_) => Err(ConfigError::InvalidCron(expression)),
    }
}

/// Parses the optional cron expression into a schedule.
pub fn parse_schedule(cron: Option<String>) -> (res: Result<Option<CronSchedule>, ConfigError>)
    ensures
        cron is None ==> res matches Ok(None),
        cron matches Some(c) ==> (res is Ok <==> cron_accepts(c@)),
        cron matches Some(c) ==> (res is Ok ==> (res matches Ok(Some(s)) && s@ == c@)),
        cron matches Some(c) ==> (res is Err ==> res == Err::<Option<CronSchedule>, ConfigError>(
            ConfigError::InvalidCron(c),
        )),
{
    match cron {
        None => Ok(None),
        Some(c) => {
            let parsed = parse_cron(c.clone());
            match schedule_from_parse(c, parsed) {
                Ok(s) => Ok(Some(s)),
                Err(e) => Err(e),
            }
        },
    }
}

/// Validates the arguments into runtime parameters. `folder` is what resolving `args.folder`
/// found. The cron expression is checked first, then the folder; the object key is sanitized,
/// and dropped when nothing of it is left.
pub fn parse_config(args: ConfigArgs, folder: FolderCheck) -> (res: Result<Params, ConfigError>)
    ensures
        args.cron matches Some(c) ==> (!cron_accepts(c@) ==> res == Err::<Params, ConfigError>(
            ConfigError::InvalidCron(c),
        )),
        (args.cron matches Some(c) ==> cron_accepts(c@)) ==> match folder {
            FolderCheck::Unresolved => res == Err::<Params, ConfigError>(
                ConfigError::UnresolvedFolder(args.folder),
            ),
            FolderCheck::NotADirectory(path) => res == Err::<Params, ConfigError>(
                ConfigError::NotAFolder(path),
            ),
            FolderCheck::Directory => res is Ok,
        },
        res matches Ok(p) ==> {
            &&& (p.schedule is Some <==> args.cron is Some)
            &&& (args.cron matches Some(c) ==> (p.schedule matches Some(s) && s@ == c@))
            &&& (p.filename is None <==> (args.filename matches Some(f) ==> sanitized(f@).len()
                == 0))
            &&& (args.filename matches Some(f) ==> (p.filename matches Some(n) ==> n@ == sanitized(
                f@,
            )))
            &&& p.aws_region == args.aws_region
            &&& p.aws_bucket == args.aws_bucket
            &&& p.aws_key_id == args.aws_key_id
            &&& p.aws_key == args.aws_key
        },
{
    let schedule = match parse_schedule(args.cron) {
        Ok(s) => s,
        Err(e) => return Err(e),
    };
    match folder {
        FolderCheck::Unresolved => return Err(ConfigError::UnresolvedFolder(args.folder)),
        FolderCheck::NotADirectory(path) => return Err(ConfigError::NotAFolder(path)),
        FolderCheck::Directory => {},
    }
    let filename = clean_filename(args.filename);
    Ok(
        Params {
            schedule,
            filename,
            aws_region: args.aws_region,
            aws_bucket: args.aws_bucket,
            aws_key_id: args.aws_key_id,
            aws_key: args.aws_key,
        },
    )
}

} // verus!
