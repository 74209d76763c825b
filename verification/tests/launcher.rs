use virima_remote_agent::process_launcher::{
    clean_command, launch_error, may_set_variable, overlay, sanitize_environment, ChildPipeHandles, LaunchAttempt,
    ProcessLauncher, StartedProcess, CREATION_FLAGS, MAX_COMMAND_LENGTH, MAX_ENV_SIZE,
};
use virima_remote_agent::string_map::StringMap;
use virima_remote_agent::wide::{
    build_env_block, lossy_text, to_wide_null, without_trailing_zeros,
};
use virima_remote_agent::Error;

fn map_of(entries: &[(&str, &str)]) -> StringMap {
    let mut m = StringMap::new();
    for (k, v) in entries {
        m.insert(k.to_string(), v.to_string());
    }
    m
}

fn entries_of(m: &StringMap) -> Vec<(String, String)> {
    (0..m.len()).map(|i| (m.key(i).to_string(), m.value(i).to_string())).collect()
}

fn wide(s: &str) -> Vec<u16> {
    s.encode_utf16().collect()
}

fn pipes() -> ChildPipeHandles {
    ChildPipeHandles {
        stdin_read: 1,
        stdin_write: 2,
        stdout_read: 3,
        stdout_write: 4,
        stderr_read: 5,
        stderr_write: 6,
    }
}

const STARTED: StartedProcess =
    StartedProcess { process_handle: 70, thread_handle: 71, process_id: 72 };

#[test]
fn handles_are_closed_once() {
    let mut p = pipes();
    p.stderr_read = -1;
    assert_eq!(p.close_all(), vec![1, 2, 3, 4, 6]);
    assert_eq!(p.stdin_read, 0);
    assert_eq!(p.stderr_read, -1);
    assert!(p.close_all().is_empty());
}

#[test]
fn launched_process_keeps_the_agents_ends() {
    let r = ProcessLauncher::launch(pipes(), 90, LaunchAttempt::Assigned(STARTED));
    assert_eq!(r.close, vec![4, 6, 1]);
    let p = r.process.unwrap();
    assert_eq!((p.process_handle, p.thread_handle, p.process_id), (70, 71, 72));
    assert_eq!((p.job_object, p.stdout_read, p.stderr_read, p.stdin_write), (90, 3, 5, 2));
    assert_eq!(p.thread_to_close(), Some(71));
}

#[test]
fn no_thread_to_close() {
    let started = StartedProcess { thread_handle: 0, ..STARTED };
    let r = ProcessLauncher::launch(pipes(), 90, LaunchAttempt::Assigned(started));
    assert_eq!(r.process.unwrap().thread_to_close(), None);
}

#[test]
fn failed_launch_closes_everything() {
    let e = || Error::ProcessLaunchFailed("no".to_string());
    let r = ProcessLauncher::launch(pipes(), 90, LaunchAttempt::NotCreated(e()));
    assert_eq!(r.close, vec![90, 1, 2, 3, 4, 5, 6]);
    assert_eq!(r.process.unwrap_err().message(), "Process launch failed: no");
    let r = ProcessLauncher::launch(pipes(), 90, LaunchAttempt::NotAssigned(STARTED, e()));
    assert_eq!(r.close, vec![70, 71, 90, 1, 2, 3, 4, 5, 6]);
    assert_eq!(r.process.unwrap_err().message(), "Process launch failed: no");
}

#[test]
fn variable_names() {
    for name in ["A", "a_1", "_", "9", "PATH1", "XPATH"] {
        assert!(may_set_variable(name), "{name}");
    }
    for name in ["", "PATH", "Path", "pAtHeXt", "A=B", "A B", "\u{c4}"] {
        assert!(!may_set_variable(name), "{name}");
    }
}

#[test]
fn sanitized_environment() {
    let env = map_of(&[("A", "1"), ("Path", "x"), ("B-C", "2"), ("D", "3")]);
    assert_eq!(
        entries_of(&sanitize_environment(&env)),
        vec![("A".to_string(), "1".to_string()), ("D".to_string(), "3".to_string())]
    );
}

#[test]
fn plan_without_options() {
    let system = map_of(&[("SystemRoot", "C:\\Windows")]);
    let p = ProcessLauncher::plan("cmd.exe /c dir", None, None, &system).unwrap();
    let mut expected = wide("cmd.exe /c dir");
    expected.push(0);
    assert_eq!(p.command_line, expected);
    assert_eq!(p.working_directory, None);
    assert_eq!(p.environment, None);
    assert_eq!(p.creation_flags, CREATION_FLAGS);
    assert_eq!(CREATION_FLAGS, 0x200 | 0x400);
}

#[test]
fn control_characters_are_removed() {
    assert_eq!(clean_command("echo a\tb\r\nc"), "echo a\tb\r\nc");
    assert_eq!(clean_command("\0e\u{1b}cho\u{7f} \u{85}\u{a0}\u{1f}"), "echo \u{a0}");
    let p = ProcessLauncher::plan("di\0r", None, None, &StringMap::new()).unwrap();
    assert_eq!(p.command_line, to_wide_null("dir"));
}

#[test]
fn plan_merges_the_environment() {
    let system = map_of(&[("TEMP", "C:\\t"), ("PATH", "C:\\bin"), ("X", "0")]);
    let client = map_of(&[("X", "1"), ("PATH", "evil"), ("Y", "2")]);
    let p = ProcessLauncher::plan("x", Some("C:\\Users"), Some(&client), &system).unwrap();
    assert_eq!(p.working_directory.unwrap(), to_wide_null("C:\\Users"));
    let block = p.environment.unwrap();
    assert_eq!(
        String::from_utf16(&block).unwrap(),
        "TEMP=C:\\t\0PATH=C:\\bin\0X=1\0Y=2\0\0"
    );
}

#[test]
fn client_variables() {
    let system = map_of(&[("PATH", "C:\\bin"), ("X", "0"), ("Z", "9")]);
    let client = map_of(&[("X", "1"), ("PATH", "evil")]);
    let env = overlay(&system, &sanitize_environment(&client));
    assert_eq!(env.get(&"X".to_string()), Some("1"));
    assert_eq!(env.get(&"PATH".to_string()), Some("C:\\bin"));
    assert_eq!(env.get(&"Z".to_string()), Some("9"));
    assert_eq!(env.get(&"Y".to_string()), None);
}

#[test]
fn variable_names_ignore_case() {
    let system = map_of(&[("Temp", "C:\\t"), ("x", "0"), ("Path", "C:\\bin")]);
    let client = map_of(&[("TEMP", "1"), ("Y", "2"), ("y", "3"), ("PATH", "evil")]);
    let env = overlay(&system, &sanitize_environment(&client));
    let expected = [("Temp", "1"), ("x", "0"), ("Path", "C:\\bin"), ("Y", "3")];
    assert_eq!(entries_of(&env), entries_of(&map_of(&expected)));
}

#[test]
fn values_bring_no_other_variable_in() {
    let system = map_of(&[("A", "0"), ("Path", "C:\\bin")]);
    let client = map_of(&[("A", "x\0PATH=e"), ("B", "1")]);
    let p = ProcessLauncher::plan("x", None, Some(&client), &system).unwrap();
    assert_eq!(
        String::from_utf16(&p.environment.unwrap()).unwrap(),
        "A=0\0Path=C:\\bin\0B=1\0\0"
    );
}

#[test]
fn restricted_directories() {
    let none = StringMap::new();
    for path in [
        "C:\\Windows\\System32",
        "c:\\windows\\system32\\",
        "C:/Windows//System32/drivers",
    ] {
        assert_eq!(
            ProcessLauncher::plan("x", Some(path), None, &none).unwrap_err_text(),
            "Process launch failed: Working directory is restricted"
        );
    }
    for path in ["C:\\Windows", "C:\\Windows\\System32x", "D:\\Windows\\System32"] {
        assert!(ProcessLauncher::plan("x", Some(path), None, &none).is_ok(), "{path}");
    }
    assert_eq!(
        ProcessLauncher::plan("x", Some("C:\\a\0b"), None, &none).unwrap_err_text(),
        "Process launch failed: Working directory holds a zero character"
    );
}

#[test]
fn plan_refusals() {
    let none = StringMap::new();
    let fits = "x".repeat(MAX_COMMAND_LENGTH);
    assert!(ProcessLauncher::plan(&fits, None, None, &none).is_ok());
    let long = "x".repeat(MAX_COMMAND_LENGTH + 1);
    assert_eq!(
        ProcessLauncher::plan(&long, None, None, &none).unwrap_err_text(),
        "Process launch failed: Command line too long: 32769 bytes (max: 32768)"
    );
    assert_eq!(
        ProcessLauncher::plan("x", Some("temp\\a"), None, &none).unwrap_err_text(),
        "Process launch failed: Working directory is not an absolute path"
    );
    let endless = "x".repeat(100_000);
    assert_eq!(
        ProcessLauncher::plan("x", Some(&endless), None, &none).unwrap_err_text(),
        "Process launch failed: Working directory is not an absolute path"
    );
    let big = map_of(&[("A", &"y".repeat(MAX_ENV_SIZE / 2 - 4))]);
    assert!(ProcessLauncher::plan("x", None, Some(&big), &none).is_ok());
    let bigger = map_of(&[("A", &"y".repeat(MAX_ENV_SIZE / 2 - 3))]);
    assert_eq!(
        ProcessLauncher::plan("x", None, Some(&bigger), &none).unwrap_err_text(),
        "Process launch failed: Environment too large (max: 65536 bytes)"
    );
}

trait ErrText {
    fn unwrap_err_text(self) -> String;
}

impl<T> ErrText for Result<T, Error> {
    fn unwrap_err_text(self) -> String {
        match self {
            Ok(_) => panic!("an error was expected"),
            Err(e) => e.message(),
        }
    }
}

#[test]
fn absolute_paths() {
    let none = StringMap::new();
    for path in ["C:\\", "d:/x", "\\\\server\\share", "//server/share"] {
        assert!(ProcessLauncher::plan("x", Some(path), None, &none).is_ok(), "{path}");
    }
    for path in ["", "C:", "C:x", "\\x", "1:\\x", "x"] {
        assert!(ProcessLauncher::plan("x", Some(path), None, &none).is_err(), "{path}");
    }
}

#[test]
fn launch_errors() {
    assert_eq!(
        launch_error("CreateProcessW", "denied").message(),
        "Process launch failed: CreateProcessW: denied"
    );
}

#[test]
fn wide_strings() {
    assert_eq!(to_wide_null(""), vec![0]);
    assert_eq!(to_wide_null("a\u{e4}\u{1F600}"), vec![0x61, 0xe4, 0xD83D, 0xDE00, 0]);
    assert_eq!(lossy_text(&[0x61, 0xD83D, 0xDE00]), "a\u{1F600}");
    assert_eq!(lossy_text(&[0xD83D, 0x61, 0xDE00, 0xD800]), "\u{FFFD}a\u{FFFD}\u{FFFD}");
    for s in ["", "plain", "\u{FFFF}\u{10000}\u{10FFFF}\u{E000}\u{D7FF}"] {
        assert_eq!(lossy_text(&wide(s)), s);
        let all = to_wide_null(s);
        assert_eq!(all[..all.len() - 1], wide(s));
    }
    assert_eq!(without_trailing_zeros(vec![0, 1, 0, 0]), vec![0, 1]);
    assert!(without_trailing_zeros(vec![0, 0]).is_empty());
}

#[test]
fn environment_blocks() {
    assert_eq!(build_env_block(&StringMap::new()), vec![0]);
    let block = build_env_block(&map_of(&[("A", "1"), ("B", "")]));
    assert_eq!(String::from_utf16(&block).unwrap(), "A=1\0B=\0\0");
}

#[test]
fn string_maps() {
    let mut m = map_of(&[("a", "1"), ("b", "2"), ("a", "3")]);
    assert_eq!(m.len(), 2);
    assert_eq!((m.key(0), m.value(0)), ("a", "3"));
    assert_eq!((m.key(1), m.value(1)), ("b", "2"));
    m.insert("b".to_string(), "4".to_string());
    assert_eq!(m.get(&"b".to_string()), Some("4"));
    let copy = m.clone();
    assert_eq!(entries_of(&copy), entries_of(&m));
}
