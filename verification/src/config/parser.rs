//! The readers of the values of a program section: each turns the text of one
//! value into the setting it stands for, or refuses it.

use crate::config::program::AutoRestart;
use crate::decimal::{decimal_in_range, parse_decimal};
use crate::errors::{refuses, ConfigParseError};
use crate::text::{
    chars_of, fields, is_white_space, is_whitespace, lemma_texts_push, lowercase_of, push_char,
    same_text, split_fields, texts, to_lowercase, Separators,
};
use vstd::prelude::*;
use vstd::string::StringExecFns;

verus! {

/// The readers of the values of a program section.
pub struct ProgramParser;

/// Where the reader of an environment value stands.
#[derive(Debug, Clone, Copy, PartialEq, Eq, Structural)]
pub enum EnvMode {
    /// Between entries, before a key.
    Start,
    /// Inside a key, before its `=`.
    Key,
    /// Inside a value, outside quotes.
    Value,
    /// Inside a quoted part of a value; the payload is the quote that closes it.
    Quoted(char),
    /// Just behind the separator that ended an entry.
    End,
}

/// What the reader of an environment value has seen so far.
pub struct EnvScan {
    pub mode: EnvMode,
    /// The key of the entry being read.
    pub key: Seq<char>,
    /// The value of the entry being read, quotes removed.
    pub value: Seq<char>,
    /// The entries that are complete.
    pub entries: Seq<Seq<char>>,
}

/// An entry as it is handed on: key, `=`, value.
pub open spec fn env_entry(key: Seq<char>, value: Seq<char>) -> Seq<char> {
    key.push('=') + value
}

/// The reader before the first character.
pub open spec fn env_initial() -> EnvScan {
    EnvScan { mode: EnvMode::Start, key: Seq::empty(), value: Seq::empty(), entries: Seq::empty() }
}

/// Reads one character inside a key: `=` ends the key, which must not be
/// empty; any other character belongs to it.
pub open spec fn env_key_step(scan: EnvScan, c: char) -> Option<EnvScan> {
    if c == '=' {
        if scan.key.len() == 0 {
            None
        } else {
            Some(EnvScan { mode: EnvMode::Value, ..scan })
        }
    } else {
        Some(EnvScan { mode: EnvMode::Key, key: scan.key.push(c), ..scan })
    }
}

/// Reads one character. Whitespace between entries is skipped; the first
/// other character starts a key. In a value, a quote opens a quoted part, a
/// comma or whitespace completes the entry, and any other character belongs
/// to the value. In a quoted part only the same quote is special: it closes
/// the part. `None` where an `=` comes with no key before it.
pub open spec fn env_step(scan: EnvScan, c: char) -> Option<EnvScan> {
    match scan.mode {
        EnvMode::Start => if is_white_space(c) {
            Some(scan)
        } else {
            env_key_step(scan, c)
        },
        EnvMode::End => {
            let fresh = EnvScan {
                mode: EnvMode::Start,
                key: Seq::empty(),
                value: Seq::empty(),
                ..scan
            };
            if is_white_space(c) {
                Some(fresh)
            } else {
                env_key_step(fresh, c)
            }
        },
        EnvMode::Key => env_key_step(scan, c),
        EnvMode::Value => if c == '\'' || c == '"' {
            Some(EnvScan { mode: EnvMode::Quoted(c), ..scan })
        } else if is_white_space(c) || c == ',' {
            Some(
                EnvScan {
                    mode: EnvMode::End,
                    entries: scan.entries.push(env_entry(scan.key, scan.value)),
                    ..scan
                },
            )
        } else {
            Some(EnvScan { value: scan.value.push(c), ..scan })
        },
        EnvMode::Quoted(quote) => if c == quote {
            Some(EnvScan { mode: EnvMode::Value, ..scan })
        } else {
            Some(EnvScan { value: scan.value.push(c), ..scan })
        },
    }
}

/// The reader after all of `s`, or `None` where a key is empty.
pub open spec fn env_scan(s: Seq<char>) -> Option<EnvScan>
    decreases s.len(),
{
    if s.len() == 0 {
        Some(env_initial())
    } else {
        match env_scan(s.drop_last()) {
            Some(scan) => env_step(scan, s.last()),
            None => None,
        }
    }
}

/// The entries once the text has ended. An entry whose value is not empty is
/// listed at the end of the text, also where its separator has listed it
/// already. `None` where the text ends inside a key or before any character
/// of a value.
pub open spec fn env_finish(scan: EnvScan) -> Option<Seq<Seq<char>>> {
    if scan.value.len() > 0 {
        Some(scan.entries.push(env_entry(scan.key, scan.value)))
    } else if scan.mode == EnvMode::Start || scan.mode == EnvMode::End {
        Some(scan.entries)
    } else {
        None
    }
}

/// Whether `e` has the shape of an entry: an `=` with a key before it.
pub open spec fn keyed(e: Seq<char>) -> bool {
    exists|k: int| 0 < k < e.len() && #[trigger] e[k] == '='
}

/// Whether the reader is in order: a key that is complete is not empty, and
/// every entry that is complete has a key.
pub open spec fn env_inv(scan: EnvScan) -> bool {
    &&& (scan.mode is Value || scan.mode is Quoted || scan.mode is End) ==> scan.key.len() > 0
    &&& scan.value.len() > 0 ==> scan.key.len() > 0
    &&& forall|i: int| 0 <= i < scan.entries.len() ==> keyed(#[trigger] scan.entries[i])
}

/// An entry with a key has the shape of an entry.
pub proof fn lemma_entry_keyed(key: Seq<char>, value: Seq<char>)
    requires
        key.len() > 0,
    ensures
        keyed(env_entry(key, value)),
{
    let e = env_entry(key, value);
    assert(e[key.len() as int] == '=');
}

/// The reader stays in order over any text.
pub proof fn lemma_env_scan_inv(s: Seq<char>)
    ensures
        env_scan(s) matches Some(scan) ==> env_inv(scan),
    decreases s.len(),
{
    if s.len() > 0 {
        lemma_env_scan_inv(s.drop_last());
        match env_scan(s.drop_last()) {
            Some(before) => {
                match env_step(before, s.last()) {
                    Some(after) => {
                        if before.key.len() > 0 {
                            lemma_entry_keyed(before.key, before.value);
                        }
                        assert forall|i: int| 0 <= i < after.entries.len() implies keyed(
                            #[trigger] after.entries[i],
                        ) by {
                            if i < before.entries.len() {
                                assert(after.entries[i] == before.entries[i]);
                            }
                        }
                    },
                    None => {},
                }
            },
            None => {},
        }
    }
}

/// Every entry that is read from an environment has a key before its `=`.
pub proof fn lemma_environment_keyed(v: Seq<char>)
    ensures
        environment_read(v) is Ok ==> forall|i: int|
            0 <= i < environment_read(v)->Ok_0.len() ==> keyed(
                #[trigger] environment_read(v)->Ok_0[i],
            ),
{
    lemma_env_scan_inv(v);
    match env_scan(v) {
        Some(scan) => {
            if scan.value.len() > 0 {
                lemma_entry_keyed(scan.key, scan.value);
            }
            match env_finish(scan) {
                Some(entries) => {
                    assert forall|i: int| 0 <= i < entries.len() implies keyed(
                        #[trigger] entries[i],
                    ) by {
                        if i < scan.entries.len() {
                            assert(entries[i] == scan.entries[i]);
                        }
                    }
                },
                None => {},
            }
        },
        None => {},
    }
}

/// The boolean that a lowercased text names.
pub open spec fn flag_of(lowered: Seq<char>) -> Option<bool> {
    if lowered == "true"@ {
        Some(true)
    } else if lowered == "false"@ {
        Some(false)
    } else {
        None
    }
}

/// The restart policy that a lowercased text names.
pub open spec fn policy_of(lowered: Seq<char>) -> Option<AutoRestart> {
    if lowered == "true"@ {
        Some(AutoRestart::True)
    } else if lowered == "false"@ {
        Some(AutoRestart::False)
    } else if lowered == "unexpected"@ {
        Some(AutoRestart::Unexpected)
    } else {
        None
    }
}

/// Whether the field `t` is an exit code: a decimal literal of 32 bits.
pub open spec fn exit_code_of(t: Seq<char>) -> Option<int> {
    decimal_in_range(t, true, i32::MIN as int, i32::MAX as int)
}

/// What a number setting reads from `v`: the literal's value where it lies in
/// `min..=max`; else `v` is the offender.
pub open spec fn number_read(v: Seq<char>, signed: bool, min: int, max: int) -> Result<
    int,
    Seq<char>,
> {
    match decimal_in_range(v, signed, min, max) {
        Some(n) => Ok(n),
        None => Err(v),
    }
}

/// What a flag reads from `v`.
pub open spec fn flag_read(v: Seq<char>) -> Result<bool, Seq<char>> {
    match flag_of(lowercase_of(v)) {
        Some(b) => Ok(b),
        None => Err(v),
    }
}

/// What a restart policy reads from `v`.
pub open spec fn policy_read(v: Seq<char>) -> Result<AutoRestart, Seq<char>> {
    match policy_of(lowercase_of(v)) {
        Some(p) => Ok(p),
        None => Err(v),
    }
}

/// What a command reads from `v`: its words, at least one.
pub open spec fn command_read(v: Seq<char>) -> Result<Seq<Seq<char>>, Seq<char>> {
    let words = fields(v, Separators::Blank);
    if words.len() == 0 {
        Err(v)
    } else {
        Ok(words)
    }
}

/// The exit codes that the fields `f` denote, or the first field that
/// denotes none.
pub open spec fn codes_of(f: Seq<Seq<char>>) -> Result<Seq<i32>, Seq<char>>
    decreases f.len(),
{
    if f.len() == 0 {
        Ok(Seq::empty())
    } else {
        match codes_of(f.drop_last()) {
            Err(t) => Err(t),
            Ok(codes) => match exit_code_of(f.last()) {
                Some(n) => Ok(codes.push(n as i32)),
                None => Err(f.last()),
            },
        }
    }
}

/// What the expected exit codes read from `v`: one code per field, at least
/// one; the offender is the first field that is no code, or `v` itself where
/// it has no field.
pub open spec fn exit_codes_read(v: Seq<char>) -> Result<Seq<i32>, Seq<char>> {
    let f = fields(v, Separators::BlankOrComma);
    match codes_of(f) {
        Err(t) => Err(t),
        Ok(codes) => if codes.len() == 0 {
            Err(v)
        } else {
            Ok(codes)
        },
    }
}

/// What the environment reads from `v`: its entries; the offender is empty
/// where a key is empty, and `v` itself where the text ends too early.
pub open spec fn environment_read(v: Seq<char>) -> Result<Seq<Seq<char>>, Seq<char>> {
    match env_scan(v) {
        None => Err(Seq::empty()),
        Some(scan) => match env_finish(scan) {
            Some(entries) => Ok(entries),
            None => Err(v),
        },
    }
}

/// Once a field is no exit code, no longer list of fields has codes.
pub proof fn lemma_codes_of_fails(f: Seq<Seq<char>>, k: int)
    requires
        0 <= k <= f.len(),
        codes_of(f.take(k)) is Err,
    ensures
        codes_of(f) == codes_of(f.take(k)),
    decreases f.len() - k,
{
    if k == f.len() {
        assert(f.take(k) == f);
    } else {
        assert(f.take(k + 1).drop_last() == f.take(k));
        lemma_codes_of_fails(f, k + 1);
    }
}

impl ProgramParser {
    /// Reads a command line: its words are the fields between spaces and
    /// tabs. A text without a word is refused.
    pub fn parse_command(command: &str) -> (r: Result<Vec<String>, ConfigParseError>)
        ensures
            match command_read(command@) {
                Ok(words) => r matches Ok(list) && texts(list@) == words,
                Err(t) => refuses(r, t),
            },
    {
        let chars = chars_of(command);
        let list = split_fields(&chars, Separators::Blank);
        if list.len() == 0 {
            return Err(ConfigParseError::UnexpectedValue(command.to_owned()));
        }
        Ok(list)
    }

    /// Reads a number of processes: a decimal literal of 8 bits.
    pub fn parse_numprocs(numprocs: &str) -> (r: Result<u8, ConfigParseError>)
        ensures
            match number_read(numprocs@, false, 0, 255) {
                Ok(v) => r matches Ok(n) && n == v,
                Err(t) => refuses(r, t),
            },
    {
        match parse_decimal(&chars_of(numprocs), false, 0, 255) {
            Some(v) => Ok(v as u8),
            None => Err(ConfigParseError::UnexpectedValue(numprocs.to_owned())),
        }
    }

    /// Decides a flag from the lowercase form of its text; `written` is the
    /// text as it was written, which a refusal reports.
    pub fn autostart_from_lowercase(lowered: &str, written: &str) -> (r: Result<
        bool,
        ConfigParseError,
    >)
        ensures
            match flag_of(lowered@) {
                Some(b) => r matches Ok(x) && x == b,
                None => refuses(r, written@),
            },
    {
        if same_text(lowered, "true") {
            Ok(true)
        } else if same_text(lowered, "false") {
            Ok(false)
        } else {
            Err(ConfigParseError::UnexpectedValue(written.to_owned()))
        }
    }

    /// Reads the flag `autostart`: `true` or `false`, in any case.
    pub fn parse_autostart(auto_start: &str) -> (r: Result<bool, ConfigParseError>)
        ensures
            match flag_read(auto_start@) {
                Ok(b) => r matches Ok(x) && x == b,
                Err(t) => refuses(r, t),
            },
    {
        let lowered = to_lowercase(auto_start);
        Self::autostart_from_lowercase(lowered.as_str(), auto_start)
    }

    /// Decides a restart policy from the lowercase form of its text;
    /// `written` is the text as it was written, which a refusal reports.
    pub fn autorestart_from_lowercase(lowered: &str, written: &str) -> (r: Result<
        AutoRestart,
        ConfigParseError,
    >)
        ensures
            match policy_of(lowered@) {
                Some(p) => r matches Ok(x) && x == p,
                None => refuses(r, written@),
            },
    {
        if same_text(lowered, "true") {
            Ok(AutoRestart::True)
        } else if same_text(lowered, "false") {
            Ok(AutoRestart::False)
        } else if same_text(lowered, "unexpected") {
            Ok(AutoRestart::Unexpected)
        } else {
            Err(ConfigParseError::UnexpectedValue(written.to_owned()))
        }
    }

    /// Reads the policy `autorestart`: `true`, `false` or `unexpected`, in
    /// any case.
    pub fn parse_autorestart(autorestart: &str) -> (r: Result<AutoRestart, ConfigParseError>)
        ensures
            match policy_read(autorestart@) {
                Ok(p) => r matches Ok(x) && x == p,
                Err(t) => refuses(r, t),
            },
    {
        let lowered = to_lowercase(autorestart);
        Self::autorestart_from_lowercase(lowered.as_str(), autorestart)
    }

    /// Reads the expected exit codes: the fields between commas, spaces and
    /// tabs, each a decimal literal of 32 bits. The first field that is none
    /// is refused; so is a text without a field.
    pub fn parse_exitcodes(exitcodes: &str) -> (r: Result<Vec<i32>, ConfigParseError>)
        ensures
            match exit_codes_read(exitcodes@) {
                Ok(codes) => r matches Ok(list) && list@ == codes,
                Err(t) => refuses(r, t),
            },
    {
        let chars = chars_of(exitcodes);
        let list = split_fields(&chars, Separators::BlankOrComma);
        let ghost f = fields(exitcodes@, Separators::BlankOrComma);
        let mut codes: Vec<i32> = Vec::new();
        let mut i: usize = 0;
        proof {
            assert(f.take(0).len() == 0);
        }
        while i < list.len()
            invariant
                i <= list@.len(),
                texts(list@) == f,
                f == fields(exitcodes@, Separators::BlankOrComma),
                codes_of(f.take(i as int)) == Ok::<Seq<i32>, Seq<char>>(codes@),
            decreases list@.len() - i,
        {
            let field = &list[i];
            proof {
                assert(field@ == f[i as int]);
                assert(f.take(i + 1).drop_last() == f.take(i as int));
                assert(f.take(i + 1).last() == f[i as int]);
            }
            match parse_decimal(&chars_of(field.as_str()), true, -0x8000_0000, 0x7fff_ffff) {
                Some(v) => {
                    codes.push(v as i32);
                },
                None => {
                    proof {
                        lemma_codes_of_fails(f, i + 1);
                    }
                    return Err(ConfigParseError::UnexpectedValue(field.clone()));
                },
            }
            i += 1;
        }
        proof {
            assert(f.take(i as int) == f);
        }
        if codes.len() == 0 {
            return Err(ConfigParseError::UnexpectedValue(exitcodes.to_owned()));
        }
        Ok(codes)
    }

    /// Reads the seconds a process must stay up: a decimal literal of 8 bits.
    pub fn parse_startsecs(startsecs: &str) -> (r: Result<u8, ConfigParseError>)
        ensures
            match number_read(startsecs@, false, 0, 255) {
                Ok(v) => r matches Ok(n) && n == v,
                Err(t) => refuses(r, t),
            },
    {
        match parse_decimal(&chars_of(startsecs), false, 0, 255) {
            Some(v) => Ok(v as u8),
            None => Err(ConfigParseError::UnexpectedValue(startsecs.to_owned())),
        }
    }

    /// Reads the number of start retries: a decimal literal of 8 bits.
    pub fn parse_startretries(startretries: &str) -> (r: Result<u8, ConfigParseError>)
        ensures
            match number_read(startretries@, false, 0, 255) {
                Ok(v) => r matches Ok(n) && n == v,
                Err(t) => refuses(r, t),
            },
    {
        match parse_decimal(&chars_of(startretries), false, 0, 255) {
            Some(v) => Ok(v as u8),
            None => Err(ConfigParseError::UnexpectedValue(startretries.to_owned())),
        }
    }

    /// Reads the number of the stop signal: a signed decimal literal of 32
    /// bits.
    pub fn parse_stopsignal(stopsignal: &str) -> (r: Result<i32, ConfigParseError>)
        ensures
            match number_read(stopsignal@, true, i32::MIN as int, i32::MAX as int) {
                Ok(v) => r matches Ok(n) && n == v,
                Err(t) => refuses(r, t),
            },
    {
        match parse_decimal(&chars_of(stopsignal), true, -0x8000_0000, 0x7fff_ffff) {
            Some(v) => Ok(v as i32),
            None => Err(ConfigParseError::UnexpectedValue(stopsignal.to_owned())),
        }
    }

    /// Reads the seconds of grace on a stop: a decimal literal of 32 bits.
    pub fn parse_stopwaitsecs(stopwaitsecs: &str) -> (r: Result<u32, ConfigParseError>)
        ensures
            match number_read(stopwaitsecs@, false, 0, u32::MAX as int) {
                Ok(v) => r matches Ok(n) && n == v,
                Err(t) => refuses(r, t),
            },
    {
        match parse_decimal(&chars_of(stopwaitsecs), false, 0, 0xffff_ffff) {
            Some(v) => Ok(v as u32),
            None => Err(ConfigParseError::UnexpectedValue(stopwaitsecs.to_owned())),
        }
    }

    /// Reads the path of the standard output log: the text as it is.
    pub fn parse_stdout_logfile(stdout_logfile: &str) -> (r: Result<String, ConfigParseError>)
        ensures
            r matches Ok(path) && path@ == stdout_logfile@,
    {
        Ok(stdout_logfile.to_owned())
    }

    /// Reads the path of the standard error log: the text as it is.
    pub fn parse_stderr_logfile(stderr_logfile: &str) -> (r: Result<String, ConfigParseError>)
        ensures
            r matches Ok(path) && path@ == stderr_logfile@,
    {
        Ok(stderr_logfile.to_owned())
    }

    /// Checks the key of an environment entry: it must not be empty.
    pub fn parse_enviroment_key(key: &str) -> (r: Result<(), ConfigParseError>)
        ensures
            key@.len() > 0 ==> r is Ok,
            key@.len() == 0 ==> refuses(r, key@),
    {
        if key.unicode_len() == 0 {
            return Err(ConfigParseError::UnexpectedValue(key.to_owned()));
        }
        Ok(())
    }

    /// Reads the environment: entries `KEY=value`, separated by commas or
    /// whitespace. Inside single or double quotes a value may hold both; the
    /// quotes themselves are dropped. An `=` without a key is refused with an
    /// empty report; a text that ends inside a key or right behind an `=` is
    /// refused as a whole.
    pub fn parse_environment(environment: &str) -> (r: Result<Vec<String>, ConfigParseError>)
        ensures
            match environment_read(environment@) {
                Ok(entries) => r matches Ok(list) && texts(list@) == entries,
                Err(t) => refuses(r, t),
            },
            r matches Ok(list) ==> forall|i: int| 0 <= i < list@.len() ==> keyed((#[trigger] list@[i])@),
    {
        let chars = chars_of(environment);
        let n = chars.len();
        let mut list: Vec<String> = Vec::new();
        let mut key = String::new();
        let mut value = String::new();
        let mut mode = EnvMode::Start;
        let mut i: usize = 0;
        proof {
            assert(chars@.take(0).len() == 0);
            assert(texts(list@) =~= Seq::<Seq<char>>::empty());
        }
        while i < n
            invariant
                n == chars@.len(),
                chars@ == environment@,
                i <= n,
                env_scan(chars@.take(i as int)) == Some(
                    EnvScan { mode, key: key@, value: value@, entries: texts(list@) },
                ),
            decreases n - i,
        {
            let c = chars[i];
            let ghost before = EnvScan { mode, key: key@, value: value@, entries: texts(list@) };
            proof {
                let longer = chars@.take(i as int + 1);
                assert(longer.drop_last() == chars@.take(i as int));
                assert(longer.last() == c);
                assert(env_scan(longer) == env_step(before, c));
            }
            if mode == EnvMode::End {
                key = String::new();
                value = String::new();
                mode = EnvMode::Start;
            }
            match mode {
                EnvMode::Start | EnvMode::Key => {
                    if mode == EnvMode::Start && is_whitespace(c) {
                    } else if c == '=' {
                        match Self::parse_enviroment_key(key.as_str()) {
                            Ok(_) => {},
                            Err(e) => {
                                proof {
                                    assert(key@ =~= Seq::<char>::empty());
                                    assert(env_step(before, c) is None);
                                    assert(chars@.take(n as int) == chars@);
                                    lemma_env_scan_fails(chars@, i as int + 1);
                                }
                                return Err(e);
                            },
                        }
                        mode = EnvMode::Value;
                    } else {
                        push_char(&mut key, c);
                        mode = EnvMode::Key;
                    }
                },
                EnvMode::Value => {
                    if c == '\'' || c == '"' {
                        mode = EnvMode::Quoted(c);
                    } else if is_whitespace(c) || c == ',' {
                        let mut entry = key.clone();
                        push_char(&mut entry, '=');
                        entry.append(value.as_str());
                        proof {
                            lemma_texts_push(list@, entry);
                        }
                        list.push(entry);
                        mode = EnvMode::End;
                    } else {
                        push_char(&mut value, c);
                    }
                },
                EnvMode::Quoted(quote) => {
                    if c == quote {
                        mode = EnvMode::Value;
                    } else {
                        push_char(&mut value, c);
                    }
                },
                EnvMode::End => {},
            }
            i += 1;
        }
        proof {
            assert(chars@.take(n as int) == chars@);
        }
        if value.as_str().unicode_len() != 0 {
            let mut entry = key.clone();
            push_char(&mut entry, '=');
            entry.append(value.as_str());
            proof {
                lemma_texts_push(list@, entry);
            }
            list.push(entry);
            mode = EnvMode::End;
        }
        if mode != EnvMode::Start && mode != EnvMode::End {
            return Err(ConfigParseError::UnexpectedValue(environment.to_owned()));
        }
        proof {
            lemma_environment_keyed(environment@);
            let entries = texts(list@);
            assert(environment_read(environment@) == Ok::<Seq<Seq<char>>, Seq<char>>(entries));
            let read = environment_read(environment@)->Ok_0;
            assert(read == entries);
            assert forall|i: int| 0 <= i < list@.len() implies keyed((#[trigger] list@[i])@) by {
                assert(keyed(read[i]));
                assert(read[i] == list@[i]@);
            }
        }
        Ok(list)
    }

    /// Reads the working directory: the text as it is.
    pub fn parse_directory(directory: &str) -> (r: Result<String, ConfigParseError>)
        ensures
            r matches Ok(path) && path@ == directory@,
    {
        Ok(directory.to_owned())
    }

    /// Reads the file mode creation mask: a decimal literal of 16 bits.
    pub fn parse_umask(umask: &str) -> (r: Result<u16, ConfigParseError>)
        ensures
            match number_read(umask@, false, 0, 0xffff) {
                Ok(v) => r matches Ok(n) && n == v,
                Err(t) => refuses(r, t),
            },
    {
        match parse_decimal(&chars_of(umask), false, 0, 0xffff) {
            Some(v) => Ok(v as u16),
            None => Err(ConfigParseError::UnexpectedValue(umask.to_owned())),
        }
    }
}

/// Once the reader has failed on a prefix, it fails on the whole text.
pub proof fn lemma_env_scan_fails(s: Seq<char>, k: int)
    requires
        0 <= k <= s.len(),
        env_scan(s.take(k)) is None,
    ensures
        env_scan(s) is None,
    decreases s.len() - k,
{
    if k == s.len() {
        assert(s.take(k) == s);
    } else {
        assert(s.take(k + 1).drop_last() == s.take(k));
        lemma_env_scan_fails(s, k + 1);
    }
}

} // verus!
