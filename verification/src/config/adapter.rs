//! Fills a runtime context from a configuration written as an INI document.

use crate::config::config::{holds, ConfigView};
use crate::config::logger::{LogLevel, Logger};
use crate::config::parser::{
    command_read, environment_read, exit_codes_read, flag_read, number_read, policy_read,
    ProgramParser,
};
use crate::config::program::{Program, ProgramBuilder, ProgramSection, Settings};
use crate::config::runtimecontext::{RuntimeContext, RuntimeView};
use crate::config::taskmasterd::TaskmasterdSection;
use crate::errors::{answers, ConfigParseError, Fault, ProgramBuilderError};
use crate::text::{
    chars_of, has_prefix, run_len, same_text, scan_run, string_of, uppercase_of, Separators,
};
use vstd::prelude::*;

verus! {

/// A key and its value, as text.
pub type Pair = (Seq<char>, Seq<char>);

/// One section of an INI document: its name, which the leading section
/// lacks, and its properties in the order in which they are written.
#[derive(Debug)]
pub struct IniSection {
    pub name: Option<String>,
    pub properties: Vec<(String, String)>,
}

/// The views of a list of properties.
pub open spec fn pairs(v: Seq<(String, String)>) -> Seq<Pair> {
    Seq::new(v.len(), |i: int| (v[i].0@, v[i].1@))
}

/// The view of a section name.
pub open spec fn name_view(name: Option<String>) -> Option<Seq<char>> {
    match name {
        Some(s) => Some(s@),
        None => None,
    }
}

/// The views of a list of sections.
pub open spec fn sections_view(v: Seq<IniSection>) -> Seq<(Option<Seq<char>>, Seq<Pair>)> {
    Seq::new(v.len(), |i: int| (name_view(v[i].name), pairs(v[i].properties@)))
}

/// The sections that `ini::Ini::load_from_str` reads from a text, in the
/// order in which `Ini::iter` and `Properties::iter` walk them; `None` where
/// it reports a parse error.
pub uninterp spec fn ini_document(text: Seq<char>) -> Option<Seq<(Option<Seq<char>>, Seq<Pair>)>>;

/// Reads `text` with `ini::Ini::load_from_str` and copies out each section
/// and property in iteration order. The contract names the outcome: the
/// sections on success, a parse error otherwise.
#[verifier::external_body]
pub(crate) fn load_ini(text: &str) -> (r: Result<Vec<IniSection>, ini::Error>)
    ensures
        match r {
            Ok(sections) => ini_document(text@) == Some(sections_view(sections@)),
            Err(_) => ini_document(text@) is None,
        },
{
    let ini = ini::Ini::load_from_str(text).map_err(ini::Error::Parse)?;
    Ok(
        ini.iter().map(
            |(name, props)|
                IniSection {
                    name: name.map(String::from),
                    properties: props.iter().map(|(k, v)| (k.to_string(), v.to_string())).collect(),
                },
        ).collect(),
    )
}

/// What one property of the daemon's section does to the context: `logfile`
/// sets the log file; `loglevel` sets the level of the configuration and of
/// the logger. Either enables the logger. An unknown key or level is
/// refused and changes nothing.
pub open spec fn daemon_setting_read(rv: RuntimeView, key: Seq<char>, value: Seq<char>) -> (
    RuntimeView,
    Option<Fault>,
) {
    match TaskmasterdSection::named(key) {
        None => (rv, Some(Fault::UnexpectedValue(key))),
        Some(TaskmasterdSection::Logfile) => (
            RuntimeView {
                config: ConfigView { logfile: value, ..rv.config },
                logger: Logger { level: rv.logger.level, enabled: true },
            },
            None,
        ),
        Some(TaskmasterdSection::Loglevel) => match LogLevel::named(uppercase_of(value)) {
            None => (rv, Some(Fault::UnexpectedValue(value))),
            Some(level) => (
                RuntimeView {
                    config: ConfigView { loglevel: level, ..rv.config },
                    logger: Logger { level, enabled: true },
                },
                None,
            ),
        },
    }
}

/// What the properties of the daemon's section do to the context, one after
/// the other, up to the first that is refused.
pub open spec fn daemon_settings_read(rv: RuntimeView, props: Seq<Pair>) -> (
    RuntimeView,
    Option<Fault>,
)
    decreases props.len(),
{
    if props.len() == 0 {
        (rv, None)
    } else {
        let (next, fault) = daemon_setting_read(rv, props[0].0, props[0].1);
        if fault is Some {
            (next, fault)
        } else {
            daemon_settings_read(next, props.drop_first())
        }
    }
}

/// What one property of a program section adds to the settings: the key
/// selects the setting, and the value is read as that setting asks.
pub open spec fn setting_read(s: Settings, key: Seq<char>, value: Seq<char>) -> Result<
    Settings,
    Fault,
> {
    match ProgramSection::named(key) {
        None => Err(Fault::UnexpectedValue(key)),
        Some(ProgramSection::Command) => match command_read(value) {
            Ok(words) => Ok(Settings { command: Some(words), ..s }),
            Err(t) => Err(Fault::UnexpectedValue(t)),
        },
        Some(ProgramSection::NumProcs) => match number_read(value, false, 0, 255) {
            Ok(n) => Ok(Settings { numprocs: Some(n as u8), ..s }),
            Err(t) => Err(Fault::UnexpectedValue(t)),
        },
        Some(ProgramSection::AutoStart) => match flag_read(value) {
            Ok(b) => Ok(Settings { autostart: Some(b), ..s }),
            Err(t) => Err(Fault::UnexpectedValue(t)),
        },
        Some(ProgramSection::AutoRestart) => match policy_read(value) {
            Ok(p) => Ok(Settings { autorestart: Some(p), ..s }),
            Err(t) => Err(Fault::UnexpectedValue(t)),
        },
        Some(ProgramSection::ExitCodes) => match exit_codes_read(value) {
            Ok(codes) => Ok(Settings { exitcodes: Some(codes), ..s }),
            Err(t) => Err(Fault::UnexpectedValue(t)),
        },
        Some(ProgramSection::StartSecs) => match number_read(value, false, 0, 255) {
            Ok(n) => Ok(Settings { startsecs: Some(n as u8), ..s }),
            Err(t) => Err(Fault::UnexpectedValue(t)),
        },
        Some(ProgramSection::StartRetries) => match number_read(value, false, 0, 255) {
            Ok(n) => Ok(Settings { startretries: Some(n as u8), ..s }),
            Err(t) => Err(Fault::UnexpectedValue(t)),
        },
        Some(ProgramSection::StopSignal) => match number_read(
            value,
            true,
            i32::MIN as int,
            i32::MAX as int,
        ) {
            Ok(n) => Ok(Settings { stopsignal: Some(n as i32), ..s }),
            Err(t) => Err(Fault::UnexpectedValue(t)),
        },
        Some(ProgramSection::StopWaitSecs) => match number_read(value, false, 0, u32::MAX as int) {
            Ok(n) => Ok(Settings { stopwaitsecs: Some(n as u32), ..s }),
            Err(t) => Err(Fault::UnexpectedValue(t)),
        },
        Some(ProgramSection::StdoutLogfile) => Ok(Settings { stdout_logfile: Some(value), ..s }),
        Some(ProgramSection::StderrLogfile) => Ok(Settings { stderr_logfile: Some(value), ..s }),
        Some(ProgramSection::Environment) => match environment_read(value) {
            Ok(entries) => Ok(Settings { environment: Some(entries), ..s }),
            Err(t) => Err(Fault::UnexpectedValue(t)),
        },
        Some(ProgramSection::Directory) => Ok(Settings { directory: Some(value), ..s }),
        Some(ProgramSection::Umask) => match number_read(value, false, 0, 0xffff) {
            Ok(n) => Ok(Settings { umask: Some(n as u16), ..s }),
            Err(t) => Err(Fault::UnexpectedValue(t)),
        },
    }
}

/// What the properties of a program section add to the settings, one after
/// the other; a later value of a key replaces an earlier one. The first
/// property that is refused ends the reading.
pub open spec fn settings_read(s: Settings, props: Seq<Pair>) -> Result<Settings, Fault>
    decreases props.len(),
{
    if props.len() == 0 {
        Ok(s)
    } else {
        match setting_read(s, props[0].0, props[0].1) {
            Err(fault) => Err(fault),
            Ok(next) => settings_read(next, props.drop_first()),
        }
    }
}

/// Reading properties never touches the program's name.
pub proof fn lemma_settings_keep_name(s: Settings, props: Seq<Pair>)
    ensures
        settings_read(s, props) matches Ok(after) ==> after.programname == s.programname,
    decreases props.len(),
{
    if props.len() > 0 {
        match setting_read(s, props[0].0, props[0].1) {
            Err(_) => {},
            Ok(next) => {
                lemma_settings_keep_name(next, props.drop_first());
            },
        }
    }
}

/// The program name in a section header: what follows the colon, where the
/// header holds exactly one.
pub open spec fn program_name_of(header: Seq<char>) -> Option<Seq<char>> {
    let k = run_len(header, Separators::Colon) as int;
    if k < header.len() && run_len(header.skip(k + 1), Separators::Colon) == header.len() - k - 1 {
        Some(header.skip(k + 1))
    } else {
        None
    }
}

/// How a failure to build a program is reported for the section `name`.
pub open spec fn build_fault(e: ProgramBuilderError, name: Seq<char>) -> Fault {
    match e {
        ProgramBuilderError::MissingCommand => Fault::MissingCommand(name),
        ProgramBuilderError::MissingProgramName => Fault::Critical(e.text()),
        ProgramBuilderError::InvalidNumProcs => Fault::UnexpectedValue("numprocs"@),
        ProgramBuilderError::MissingExitCodes => Fault::UnexpectedValue("exitcodes"@),
    }
}

/// What a program section does to the context: the program it describes is
/// added under the name in its header. A header without exactly one colon,
/// a name that is taken, a property that is refused and a description that
/// cannot be built are faults, and change nothing.
pub open spec fn program_read(rv: RuntimeView, header: Seq<char>, props: Seq<Pair>) -> (
    RuntimeView,
    Option<Fault>,
) {
    match program_name_of(header) {
        None => (rv, Some(Fault::UnexpectedValue(header))),
        Some(name) => if holds(rv.config.programs, name) {
            (rv, Some(Fault::DuplicatedValue(name)))
        } else {
            match settings_read(Settings { programname: Some(name), ..Settings::empty() }, props) {
                Err(fault) => (rv, Some(fault)),
                Ok(settings) => match settings.outcome() {
                    Err(e) => (rv, Some(build_fault(e, name))),
                    Ok(program) => (
                        RuntimeView {
                            config: ConfigView {
                                programs: rv.config.programs.push(program),
                                ..rv.config
                            },
                            ..rv
                        },
                        None,
                    ),
                },
            }
        }
    }
}

/// What one section does to the context. The leading section without a name
/// is skipped; `taskmasterd` holds the daemon's settings; a section whose
/// name starts with `program` describes a program; any other is refused.
pub open spec fn section_read(rv: RuntimeView, name: Option<Seq<char>>, props: Seq<Pair>) -> (
    RuntimeView,
    Option<Fault>,
) {
    match name {
        None => (rv, None),
        Some(header) => if header == "taskmasterd"@ {
            daemon_settings_read(rv, props)
        } else if "program"@.is_prefix_of(header) {
            program_read(rv, header, props)
        } else {
            (rv, Some(Fault::UnexpectedValue(header)))
        },
    }
}

/// What the sections of a document do to the context, one after the other,
/// up to the first fault. What earlier sections and properties did stays.
pub open spec fn sections_read(rv: RuntimeView, sections: Seq<(Option<Seq<char>>, Seq<Pair>)>) -> (
    RuntimeView,
    Option<Fault>,
)
    decreases sections.len(),
{
    if sections.len() == 0 {
        (rv, None)
    } else {
        let (next, fault) = section_read(rv, sections[0].0, sections[0].1);
        if fault is Some {
            (next, fault)
        } else {
            sections_read(next, sections.drop_first())
        }
    }
}

/// Fills a runtime context from a configuration.
pub struct Adapter;

impl Adapter {
    /// Reads a configuration from the text of an INI document into `rc`.
    /// A text that is no INI document changes nothing.
    pub fn parse_config(rc: &mut RuntimeContext, text: &str) -> (r: Result<(), ConfigParseError>)
        requires
            old(rc).config.wf(),
        ensures
            final(rc).config.wf(),
            match ini_document(text@) {
                None => {
                    &&& final(rc)@ == old(rc)@
                    &&& r matches Err(e) && e@ == Fault::Ini
                },
                Some(sections) => {
                    &&& final(rc)@ == sections_read(old(rc)@, sections).0
                    &&& answers(r, sections_read(old(rc)@, sections).1)
                },
            },
    {
        match load_ini(text) {
            Ok(sections) => Self::apply_sections(rc, &sections),
            Err(e) => Err(ConfigParseError::IniError(e)),
        }
    }

    /// Reads the sections of a configuration into `rc`, in their order.
    pub fn apply_sections(rc: &mut RuntimeContext, sections: &Vec<IniSection>) -> (r: Result<
        (),
        ConfigParseError,
    >)
        requires
            old(rc).config.wf(),
        ensures
            final(rc).config.wf(),
            final(rc)@ == sections_read(old(rc)@, sections_view(sections@)).0,
            answers(r, sections_read(old(rc)@, sections_view(sections@)).1),
    {
        let ghost all = sections_view(sections@);
        let mut i: usize = 0;
        proof {
            assert(all.skip(0) == all);
        }
        while i < sections.len()
            invariant
                i <= sections@.len(),
                all == sections_view(sections@),
                rc.config.wf(),
                sections_read(old(rc)@, all) == sections_read(rc@, all.skip(i as int)),
            decreases sections@.len() - i,
        {
            let section = &sections[i];
            let ghost rest = all.skip(i as int);
            proof {
                assert(rest[0] == all[i as int]);
                assert(rest.drop_first() == all.skip(i + 1));
                assert(all[i as int] == (name_view(section.name), pairs(section.properties@)));
            }
            let ghost before = rc@;
            let step = match &section.name {
                None => Ok(()),
                Some(header) => {
                    if same_text(header.as_str(), "taskmasterd") {
                        Self::parse_taskmasterd(rc, &section.properties)
                    } else if has_prefix(&chars_of(header.as_str()), "program") {
                        Self::parse_program(rc, header.as_str(), &section.properties)
                    } else {
                        Err(ConfigParseError::UnexpectedValue(header.clone()))
                    }
                },
            };
            proof {
                let (next, fault) = section_read(before, rest[0].0, rest[0].1);
                assert(rc@ == next);
                assert(answers(step, fault));
            }
            match step {
                Ok(_) => {},
                Err(e) => {
                    return Err(e);
                },
            }
            i += 1;
        }
        proof {
            assert(all.skip(i as int).len() == 0);
        }
        Ok(())
    }

    /// Reads the daemon's section into `rc`.
    pub fn parse_taskmasterd(rc: &mut RuntimeContext, prop: &Vec<(String, String)>) -> (r: Result<
        (),
        ConfigParseError,
    >)
        ensures
            final(rc).config.wf() == old(rc).config.wf(),
            final(rc)@ == daemon_settings_read(old(rc)@, pairs(prop@)).0,
            answers(r, daemon_settings_read(old(rc)@, pairs(prop@)).1),
    {
        let ghost all = pairs(prop@);
        let mut i: usize = 0;
        proof {
            assert(all.skip(0) == all);
        }
        while i < prop.len()
            invariant
                i <= prop@.len(),
                all == pairs(prop@),
                rc.config.wf() == old(rc).config.wf(),
                daemon_settings_read(old(rc)@, all) == daemon_settings_read(rc@, all.skip(i as int)),
            decreases prop@.len() - i,
        {
            let key = &prop[i].0;
            let value = &prop[i].1;
            let ghost rest = all.skip(i as int);
            proof {
                assert(rest[0] == all[i as int]);
                assert(rest.drop_first() == all.skip(i + 1));
                assert(all[i as int] == (key@, value@));
            }
            match TaskmasterdSection::from_str(key.as_str()) {
                None => {
                    return Err(ConfigParseError::UnexpectedValue(key.clone()));
                },
                Some(TaskmasterdSection::Logfile) => {
                    rc.config.set_logfile(value.clone());
                },
                Some(TaskmasterdSection::Loglevel) => {
                    match LogLevel::from_str(value.as_str()) {
                        None => {
                            return Err(ConfigParseError::UnexpectedValue(value.clone()));
                        },
                        Some(level) => {
                            rc.config.set_loglevel(level);
                            rc.logger.change_level(level);
                        },
                    }
                },
            }
            rc.logger.enable();
            i += 1;
        }
        proof {
            assert(all.skip(i as int).len() == 0);
        }
        Ok(())
    }

    /// Reads the properties of a program section into `builder`.
    pub fn read_settings(builder: &mut ProgramBuilder, prop: &Vec<(String, String)>) -> (r: Result<
        (),
        ConfigParseError,
    >)
        ensures
            match settings_read(old(builder)@, pairs(prop@)) {
                Ok(settings) => r is Ok && final(builder)@ == settings,
                Err(fault) => r matches Err(e) && e@ == fault,
            },
    {
        let ghost all = pairs(prop@);
        let mut i: usize = 0;
        proof {
            assert(all.skip(0) == all);
        }
        while i < prop.len()
            invariant
                i <= prop@.len(),
                all == pairs(prop@),
                settings_read(old(builder)@, all) == settings_read(builder@, all.skip(i as int)),
            decreases prop@.len() - i,
        {
            let key = &prop[i].0;
            let value = prop[i].1.as_str();
            let ghost rest = all.skip(i as int);
            proof {
                assert(rest[0] == all[i as int]);
                assert(rest.drop_first() == all.skip(i + 1));
                assert(all[i as int] == (key@, value@));
            }
            let section = match ProgramSection::from_str(key.as_str()) {
                Some(section) => section,
                None => {
                    return Err(ConfigParseError::UnexpectedValue(key.clone()));
                },
            };
            match section {
                ProgramSection::Command => {
                    match ProgramParser::parse_command(value) {
                        Ok(v) => {
                            builder.command(v);
                        },
                        Err(e) => {
                            return Err(e);
                        },
                    }
                },
                ProgramSection::NumProcs => {
                    match ProgramParser::parse_numprocs(value) {
                        Ok(v) => {
                            builder.numprocs(v);
                        },
                        Err(e) => {
                            return Err(e);
                        },
                    }
                },
                ProgramSection::AutoStart => {
                    match ProgramParser::parse_autostart(value) {
                        Ok(v) => {
                            builder.autostart(v);
                        },
                        Err(e) => {
                            return Err(e);
                        },
                    }
                },
                ProgramSection::AutoRestart => {
                    match ProgramParser::parse_autorestart(value) {
                        Ok(v) => {
                            builder.autorestart(v);
                        },
                        Err(e) => {
                            return Err(e);
                        },
                    }
                },
                ProgramSection::ExitCodes => {
                    match ProgramParser::parse_exitcodes(value) {
                        Ok(v) => {
                            builder.exitcodes(v);
                        },
                        Err(e) => {
                            return Err(e);
                        },
                    }
                },
                ProgramSection::StartSecs => {
                    match ProgramParser::parse_startsecs(value) {
                        Ok(v) => {
                            builder.startsecs(v);
                        },
                        Err(e) => {
                            return Err(e);
                        },
                    }
                },
                ProgramSection::StartRetries => {
                    match ProgramParser::parse_startretries(value) {
                        Ok(v) => {
                            builder.startretries(v);
                        },
                        Err(e) => {
                            return Err(e);
                        },
                    }
                },
                ProgramSection::StopSignal => {
                    match ProgramParser::parse_stopsignal(value) {
                        Ok(v) => {
                            builder.stopsignal(v);
                        },
                        Err(e) => {
                            return Err(e);
                        },
                    }
                },
                ProgramSection::StopWaitSecs => {
                    match ProgramParser::parse_stopwaitsecs(value) {
                        Ok(v) => {
                            builder.stopwaitsecs(v);
                        },
                        Err(e) => {
                            return Err(e);
                        },
                    }
                },
                ProgramSection::StdoutLogfile => {
                    match ProgramParser::parse_stdout_logfile(value) {
                        Ok(v) => {
                            builder.stdout_logfile(v);
                        },
                        Err(e) => {
                            return Err(e);
                        },
                    }
                },
                ProgramSection::StderrLogfile => {
                    match ProgramParser::parse_stderr_logfile(value) {
                        Ok(v) => {
                            builder.stderr_logfile(v);
                        },
                        Err(e) => {
                            return Err(e);
                        },
                    }
                },
                ProgramSection::Environment => {
                    match ProgramParser::parse_environment(value) {
                        Ok(v) => {
                            builder.environment(v);
                        },
                        Err(e) => {
                            return Err(e);
                        },
                    }
                },
                ProgramSection::Directory => {
                    match ProgramParser::parse_directory(value) {
                        Ok(v) => {
                            builder.directory(v);
                        },
                        Err(e) => {
                            return Err(e);
                        },
                    }
                },
                ProgramSection::Umask => {
                    match ProgramParser::parse_umask(value) {
                        Ok(v) => {
                            builder.umask(v);
                        },
                        Err(e) => {
                            return Err(e);
                        },
                    }
                },
            }
            i += 1;
        }
        proof {
            assert(all.skip(i as int).len() == 0);
        }
        Ok(())
    }

    /// Reads the program section with the header `sec` into `rc`.
    pub fn parse_program(rc: &mut RuntimeContext, sec: &str, prop: &Vec<(String, String)>) -> (r:
        Result<(), ConfigParseError>)
        requires
            old(rc).config.wf(),
        ensures
            final(rc).config.wf(),
            final(rc)@ == program_read(old(rc)@, sec@, pairs(prop@)).0,
            answers(r, program_read(old(rc)@, sec@, pairs(prop@)).1),
    {
        let chars = chars_of(sec);
        let n = chars.len();
        let colon = scan_run(&chars, 0, Separators::Colon);
        proof {
            assert(chars@.skip(0) == chars@);
        }
        if colon >= n {
            return Err(ConfigParseError::UnexpectedValue(sec.to_owned()));
        }
        let end = scan_run(&chars, colon + 1, Separators::Colon);
        if end < n {
            return Err(ConfigParseError::UnexpectedValue(sec.to_owned()));
        }
        let program_name = string_of(&chars, colon + 1, n);
        proof {
            assert(chars@.subrange(colon + 1, n as int) == chars@.skip(colon + 1));
            assert(program_name_of(sec@) == Some(program_name@));
        }
        if rc.config.contains_program(&program_name) {
            return Err(ConfigParseError::DuplicatedValue(program_name));
        }
        let mut builder = Program::builder();
        builder.programname(program_name.clone());
        assert(builder@ == (Settings { programname: Some(program_name@), ..Settings::empty() }));
        proof {
            lemma_settings_keep_name(builder@, pairs(prop@));
        }
        match Self::read_settings(&mut builder, prop) {
            Ok(_) => {},
            Err(e) => {
                return Err(e);
            },
        }
        match builder.build() {
            Ok(program) => {
                rc.config.add_program(program);
                Ok(())
            },
            Err(e) => Err(
                match e {
                    ProgramBuilderError::MissingCommand => ConfigParseError::MissingCommand(
                        program_name,
                    ),
                    ProgramBuilderError::MissingProgramName => ConfigParseError::Critical(
                        e.message(),
                    ),
                    ProgramBuilderError::InvalidNumProcs => ConfigParseError::UnexpectedValue(
                        "numprocs".to_owned(),
                    ),
                    ProgramBuilderError::MissingExitCodes => ConfigParseError::UnexpectedValue(
                        "exitcodes".to_owned(),
                    ),
                },
            ),
        }
    }
}

} // verus!
