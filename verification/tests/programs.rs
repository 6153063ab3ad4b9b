use taskmaster::config::program::{
    make_instance_name, make_instance_names, AutoRestart, Program, ProgramBuilder, ProgramSection,
};
use taskmaster::config::program_section::ProgramSection as RawSection;
use taskmaster::config::section::Section;
use taskmaster::config::taskmasterd::{Taskmasterd, TaskmasterdSection};
use taskmaster::errors::ProgramBuilderError;

fn words(list: &[&str]) -> Vec<String> {
    list.iter().map(|s| s.to_string()).collect()
}

#[test]
fn defaults_applied() {
    let p = Program::new(
        "web".to_string(),
        words(&["srv", "-p"]),
        None, None, None, None, None, None, None, None, None, None, None, None, None,
    );
    assert_eq!(p.programname(), "web");
    assert_eq!(p.command(), &words(&["srv", "-p"]));
    assert_eq!(p.numprocs(), 1);
    assert_eq!(p.autostart(), true);
    assert_eq!(p.autorestart(), AutoRestart::Unexpected);
    assert_eq!(p.exitcodes(), &vec![0]);
    assert_eq!(p.startsecs(), 1);
    assert_eq!(p.startretries(), 3);
    assert_eq!(p.stopsignal(), 15);
    assert_eq!(p.stopwaitsecs(), 10);
    assert_eq!(p.stdout_logfile(), "web.log");
    assert_eq!(p.stderr_logfile(), "web_err.log");
    assert_eq!(p.environment(), &None);
    assert_eq!(p.directory(), &None);
    assert_eq!(p.umask(), None);
    assert_eq!(p.processnames(), &words(&["web#0"]));
    assert!(p.expects(0));
    assert!(!p.expects(1));
}

#[test]
fn settings_kept() {
    let p = Program::new(
        "db".to_string(),
        words(&["pg"]),
        Some(3),
        Some(false),
        Some(AutoRestart::True),
        Some(vec![0, 2]),
        Some(5),
        Some(7),
        Some(2),
        Some(30),
        Some("/o".to_string()),
        Some("/e".to_string()),
        Some(words(&["A=1"])),
        Some("/srv".to_string()),
        Some(22),
    );
    assert_eq!(p.numprocs(), 3);
    assert_eq!(p.autostart(), false);
    assert_eq!(p.autorestart(), AutoRestart::True);
    assert_eq!(p.exitcodes(), &vec![0, 2]);
    assert_eq!(p.startsecs(), 5);
    assert_eq!(p.startretries(), 7);
    assert_eq!(p.stopsignal(), 2);
    assert_eq!(p.stopwaitsecs(), 30);
    assert_eq!(p.stdout_logfile(), "/o");
    assert_eq!(p.stderr_logfile(), "/e");
    assert_eq!(p.environment(), &Some(words(&["A=1"])));
    assert_eq!(p.directory(), &Some("/srv".to_string()));
    assert_eq!(p.umask(), Some(22));
    assert_eq!(p.processnames(), &words(&["db#0", "db#1", "db#2"]));
    assert!(p.expects(2));
    assert!(!p.expects(1));
}

#[test]
fn instance_names_by_index() {
    assert_eq!(make_instance_name("a", 0), "a#0");
    assert_eq!(make_instance_name("a", 10), "a#10");
    assert_eq!(make_instance_name("a1", 0), "a1#0");
    assert_eq!(make_instance_name("", 255), "#255");
    assert!(make_instance_names("a", 0).is_empty());
    let all = make_instance_names("p", 255);
    assert_eq!(all.len(), 255);
    let mut sorted = all.clone();
    sorted.sort();
    sorted.dedup();
    assert_eq!(sorted.len(), 255);
    assert_eq!(all[254], "p#254");
}

#[test]
fn builder_needs_a_name_and_a_command() {
    assert_eq!(ProgramBuilder::new().build().err(), Some(ProgramBuilderError::MissingProgramName));
    let mut b = Program::builder();
    b.command(words(&["x"]));
    assert_eq!(b.build().err(), Some(ProgramBuilderError::MissingProgramName));
    let mut b = Program::builder();
    b.programname("a".to_string());
    assert_eq!(b.build().err(), Some(ProgramBuilderError::MissingCommand));
    let mut b = Program::builder();
    b.programname("a".to_string()).command(Vec::new());
    assert_eq!(b.build().err(), Some(ProgramBuilderError::MissingCommand));
}

#[test]
fn builder_validates_counts() {
    let mut b = Program::builder();
    b.programname("a".to_string()).command(words(&["x"])).numprocs(0);
    assert_eq!(b.build().err(), Some(ProgramBuilderError::InvalidNumProcs));
    let mut b = Program::builder();
    b.programname("a".to_string()).command(words(&["x"])).exitcodes(Vec::new());
    assert_eq!(b.build().err(), Some(ProgramBuilderError::MissingExitCodes));
    let mut b = Program::builder();
    b.programname("a".to_string()).command(words(&["x"])).numprocs(0).exitcodes(Vec::new());
    assert_eq!(b.build().err(), Some(ProgramBuilderError::InvalidNumProcs));
}

#[test]
fn builder_sets_every_field() {
    let mut b = Program::builder();
    b.programname("a".to_string())
        .command(words(&["x", "y"]))
        .numprocs(2)
        .autostart(false)
        .autorestart(AutoRestart::False)
        .exitcodes(vec![3])
        .startsecs(4)
        .startretries(5)
        .stopsignal(6)
        .stopwaitsecs(7)
        .stdout_logfile("o".to_string())
        .stderr_logfile("e".to_string())
        .environment(words(&["K=v"]))
        .directory("d".to_string())
        .umask(8);
    let p = b.build().unwrap();
    assert_eq!(p.programname(), "a");
    assert_eq!(p.command(), &words(&["x", "y"]));
    assert_eq!(p.numprocs(), 2);
    assert_eq!(p.autostart(), false);
    assert_eq!(p.autorestart(), AutoRestart::False);
    assert_eq!(p.exitcodes(), &vec![3]);
    assert_eq!(p.startsecs(), 4);
    assert_eq!(p.startretries(), 5);
    assert_eq!(p.stopsignal(), 6);
    assert_eq!(p.stopwaitsecs(), 7);
    assert_eq!(p.stdout_logfile(), "o");
    assert_eq!(p.stderr_logfile(), "e");
    assert_eq!(p.environment(), &Some(words(&["K=v"])));
    assert_eq!(p.directory(), &Some("d".to_string()));
    assert_eq!(p.umask(), Some(8));
    assert_eq!(p.processnames(), &words(&["a#0", "a#1"]));
}

#[test]
fn builder_later_value_wins() {
    let mut b = Program::builder();
    b.programname("a".to_string()).programname("b".to_string()).command(words(&["x"]));
    b.numprocs(4).numprocs(2);
    let p = b.build().unwrap();
    assert_eq!(p.programname(), "b");
    assert_eq!(p.numprocs(), 2);
}

#[test]
fn program_keys_round_trip() {
    let all = [
        (ProgramSection::Command, "command"),
        (ProgramSection::NumProcs, "numprocs"),
        (ProgramSection::AutoStart, "autostart"),
        (ProgramSection::AutoRestart, "autorestart"),
        (ProgramSection::ExitCodes, "exitcodes"),
        (ProgramSection::StartSecs, "startsecs"),
        (ProgramSection::StartRetries, "startretries"),
        (ProgramSection::StopSignal, "stopsignal"),
        (ProgramSection::StopWaitSecs, "stopwaitsecs"),
        (ProgramSection::StdoutLogfile, "stdout_logfile"),
        (ProgramSection::StderrLogfile, "stderr_logfile"),
        (ProgramSection::Environment, "environment"),
        (ProgramSection::Directory, "directory"),
        (ProgramSection::Umask, "umask"),
    ];
    for (key, text) in all {
        assert_eq!(key.as_str(), text);
        assert_eq!(ProgramSection::from_str(text), Some(key));
    }
    assert_eq!(ProgramSection::from_str("Command"), None);
    assert_eq!(ProgramSection::from_str(""), None);
    assert_eq!(ProgramSection::from_str("program"), None);
}

#[test]
fn section_kinds_round_trip() {
    assert_eq!(Section::Taskmasterd.as_str(), "taskmasterd");
    assert_eq!(Section::Program.as_str(), "program");
    assert_eq!(Section::from_str("taskmasterd"), Some(Section::Taskmasterd));
    assert_eq!(Section::from_str("program"), Some(Section::Program));
    assert_eq!(Section::from_str("program:a"), None);
}

#[test]
fn daemon_keys_round_trip() {
    assert_eq!(TaskmasterdSection::Logfile.as_str(), "logfile");
    assert_eq!(TaskmasterdSection::Loglevel.as_str(), "loglevel");
    assert_eq!(TaskmasterdSection::from_str("logfile"), Some(TaskmasterdSection::Logfile));
    assert_eq!(TaskmasterdSection::from_str("loglevel"), Some(TaskmasterdSection::Loglevel));
    assert_eq!(TaskmasterdSection::from_str("LOGFILE"), None);
}

#[test]
fn daemon_settings_start_empty() {
    let t = Taskmasterd::default();
    assert_eq!(t.logfile, "");
    assert_eq!(t.loglevel, taskmaster::config::logger::LogLevel::INFO);
    let t = Taskmasterd::new();
    assert_eq!(t.logfile, "");
}

#[test]
fn raw_section_collects() {
    let mut s = RawSection::new("web".to_string());
    assert_eq!(s.programname(), "web");
    assert!(s.command().is_empty());
    assert!(s.processnames().is_empty());
    s.add_command("srv".to_string());
    s.add_command("-p".to_string());
    s.add_command("srv".to_string());
    assert_eq!(s.command(), &words(&["srv", "-p", "srv"]));
    s.add_processname("web#0".to_string());
    s.add_processname("web#1".to_string());
    s.add_processname("web#0".to_string());
    assert_eq!(s.processnames(), &words(&["web#0", "web#1"]));
}
