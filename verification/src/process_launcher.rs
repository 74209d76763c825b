//! What to launch, and which handles are kept and which are closed.
//!
//! Handles are the system's raw handle values. 0 stands for no handle, and so does -1.
use vstd::prelude::*;

use crate::error::{Error, ErrorView, Result};
use crate::string_map;
use crate::string_map::StringMap;
use crate::text;
use crate::wide;

verus! {

/// The longest command line, in bytes.
pub const MAX_COMMAND_LENGTH: usize = 32_768;

/// The largest environment block, in bytes.
pub const MAX_ENV_SIZE: usize = 65_536;

/// The longest text about a launch that may not be, in characters.
pub const MAX_REFUSAL_LENGTH: usize = 100;

/// The directory, in upper case, in and below which no command may be run.
pub const RESTRICTED_DIRECTORY: &'static str = "C:\\WINDOWS\\SYSTEM32";

/// The process gets its own process group, and its environment block is in UTF-16.
pub const CREATION_FLAGS: u32 = 0x600;

/// The handle is one that can be closed.
pub open spec fn is_open(h: isize) -> bool {
    h != 0 && h != -1
}

/// `h`, where it can be closed.
pub open spec fn if_open(h: isize) -> Seq<isize> {
    if is_open(h) {
        seq![h]
    } else {
        Seq::empty()
    }
}

/// What stands for `h` when it has been closed.
pub open spec fn cleared(h: isize) -> isize {
    if is_open(h) {
        0
    } else {
        h
    }
}

/// Both ends of the three pipes of a process.
#[derive(Debug, Clone, Copy)]
pub struct ChildPipeHandles {
    pub stdin_read: isize,
    pub stdin_write: isize,
    pub stdout_read: isize,
    pub stdout_write: isize,
    pub stderr_read: isize,
    pub stderr_write: isize,
}

impl ChildPipeHandles {
    /// The handles that can be closed.
    pub open spec fn open_handles(self) -> Seq<isize> {
        if_open(self.stdin_read) + if_open(self.stdin_write) + if_open(self.stdout_read) + if_open(
            self.stdout_write,
        ) + if_open(self.stderr_read) + if_open(self.stderr_write)
    }

    /// The handles when all of them have been closed.
    pub open spec fn all_cleared(self) -> ChildPipeHandles {
        ChildPipeHandles {
            stdin_read: cleared(self.stdin_read),
            stdin_write: cleared(self.stdin_write),
            stdout_read: cleared(self.stdout_read),
            stdout_write: cleared(self.stdout_write),
            stderr_read: cleared(self.stderr_read),
            stderr_write: cleared(self.stderr_write),
        }
    }

    /// Gives up all handles. Those that are given back are to be closed.
    pub fn close_all(&mut self) -> (handles: Vec<isize>)
        ensures
            handles@ == old(self).open_handles(),
            *final(self) == old(self).all_cleared(),
    {
        let mut handles: Vec<isize> = Vec::new();
        self.stdin_read = give_up(self.stdin_read, &mut handles);
        self.stdin_write = give_up(self.stdin_write, &mut handles);
        self.stdout_read = give_up(self.stdout_read, &mut handles);
        self.stdout_write = give_up(self.stdout_write, &mut handles);
        self.stderr_read = give_up(self.stderr_read, &mut handles);
        self.stderr_write = give_up(self.stderr_write, &mut handles);
        assert(handles@ =~= old(self).open_handles());
        handles
    }
}

/// Puts `h` on the list, where it can be closed, and gives what stands for it afterwards.
fn give_up(h: isize, handles: &mut Vec<isize>) -> (r: isize)
    ensures
        final(handles)@ == old(handles)@ + if_open(h),
        r == cleared(h),
{
    if h != 0 && h != -1 {
        handles.push(h);
        assert(handles@ =~= old(handles)@ + if_open(h));
        0
    } else {
        assert(handles@ =~= old(handles)@ + if_open(h));
        h
    }
}

/// A process that the system has created.
#[derive(Debug, Clone, Copy)]
pub struct StartedProcess {
    pub process_handle: isize,
    pub thread_handle: isize,
    pub process_id: u32,
}

/// A process with its job object and the agent's ends of its pipes.
#[derive(Debug, Clone, Copy)]
pub struct LaunchedProcess {
    pub process_handle: isize,
    pub thread_handle: isize,
    pub process_id: u32,
    pub job_object: isize,
    pub stdout_read: isize,
    pub stderr_read: isize,
    pub stdin_write: isize,
}

impl LaunchedProcess {
    /// The handle of the process's first thread, where it is to be closed. The other handles are
    /// left to the job.
    pub fn thread_to_close(&self) -> (r: Option<isize>)
        ensures
            r == (if is_open(self.thread_handle) {
                Some(self.thread_handle)
            } else {
                None
            }),
    {
        if self.thread_handle != 0 && self.thread_handle != -1 {
            Some(self.thread_handle)
        } else {
            None
        }
    }
}

/// How far the creation of a process has come.
pub enum LaunchAttempt {
    /// The process could not be created.
    NotCreated(Error),
    /// The process was created and could not be put into the job object.
    NotAssigned(StartedProcess, Error),
    /// The process was created and is in the job object.
    Assigned(StartedProcess),
}

/// What came of launching a process.
pub struct LaunchOutcome {
    /// Handles that are to be closed.
    pub close: Vec<isize>,
    pub process: Result<LaunchedProcess>,
}

/// The text of a launch.
pub struct LaunchPlan {
    /// The command line in UTF-16, followed by a zero.
    pub command_line: Vec<u16>,
    /// The working directory in UTF-16, followed by a zero.
    pub working_directory: Option<Vec<u16>>,
    /// The environment block. Where there is none, the process gets the agent's environment.
    pub environment: Option<Vec<u16>>,
    pub creation_flags: u32,
}

pub struct ProcessLauncher;

/// The process with the ends of the pipes that the agent keeps.
pub open spec fn launched(
    p: StartedProcess,
    job_object: isize,
    pipes: ChildPipeHandles,
) -> LaunchedProcess {
    LaunchedProcess {
        process_handle: p.process_handle,
        thread_handle: p.thread_handle,
        process_id: p.process_id,
        job_object,
        stdout_read: pipes.stdout_read,
        stderr_read: pipes.stderr_read,
        stdin_write: pipes.stdin_write,
    }
}

/// The handles to close after an attempt.
pub open spec fn closed_after(
    attempt: LaunchAttempt,
    pipes: ChildPipeHandles,
    job_object: isize,
) -> Seq<isize> {
    match attempt {
        LaunchAttempt::NotCreated(e) => seq![job_object] + pipes.open_handles(),
        LaunchAttempt::NotAssigned(p, e) => seq![p.process_handle] + if_open(p.thread_handle)
            + seq![job_object] + pipes.open_handles(),
        LaunchAttempt::Assigned(p) => if_open(pipes.stdout_write) + if_open(pipes.stderr_write)
            + if_open(pipes.stdin_read),
    }
}

impl ProcessLauncher {
    /// Decides about the handles of a process that was to be created with `pipes`. A process that
    /// runs in its job object gets the agent's ends of the pipes, and the process's ends are
    /// closed. Otherwise everything is closed and the error is given back.
    pub fn launch(pipes: ChildPipeHandles, job_object: isize, attempt: LaunchAttempt) -> (r:
        LaunchOutcome)
        ensures
            r.close@ == closed_after(attempt, pipes, job_object),
            match attempt {
                LaunchAttempt::NotCreated(e) => r.process == Err::<LaunchedProcess, Error>(e),
                LaunchAttempt::NotAssigned(p, e) => r.process == Err::<LaunchedProcess, Error>(e),
                LaunchAttempt::Assigned(p) => r.process == Ok::<LaunchedProcess, Error>(
                    launched(p, job_object, pipes),
                ),
            },
    {
        let mut pipes = pipes;
        let ghost before = pipes;
        let mut close: Vec<isize> = Vec::new();
        match attempt {
            LaunchAttempt::NotCreated(e) => {
                close.push(job_object);
                let mut rest = pipes.close_all();
                close.append(&mut rest);
                assert(close@ =~= seq![job_object] + before.open_handles());
                LaunchOutcome { close, process: Err(e) }
            },
            LaunchAttempt::NotAssigned(p, e) => {
                close.push(p.process_handle);
                let _ = give_up(p.thread_handle, &mut close);
                close.push(job_object);
                let mut rest = pipes.close_all();
                close.append(&mut rest);
                assert(close@ =~= seq![p.process_handle] + if_open(p.thread_handle) + seq![
                    job_object,
                ] + before.open_handles());
                LaunchOutcome { close, process: Err(e) }
            },
            LaunchAttempt::Assigned(p) => {
                let _ = give_up(pipes.stdout_write, &mut close);
                let _ = give_up(pipes.stderr_write, &mut close);
                let _ = give_up(pipes.stdin_read, &mut close);
                assert(close@ =~= if_open(pipes.stdout_write) + if_open(pipes.stderr_write)
                    + if_open(pipes.stdin_read));
                LaunchOutcome {
                    close,
                    process: Ok(
                        LaunchedProcess {
                            process_handle: p.process_handle,
                            thread_handle: p.thread_handle,
                            process_id: p.process_id,
                            job_object,
                            stdout_read: pipes.stdout_read,
                            stderr_read: pipes.stderr_read,
                            stdin_write: pipes.stdin_write,
                        },
                    ),
                }
            },
        }
    }
}

/// An upper or lower case letter from A to Z.
pub open spec fn is_letter(c: char) -> bool {
    'A' <= c <= 'Z' || 'a' <= c <= 'z'
}

/// A character that may stand in the name of an environment variable: a letter, a digit or an
/// underscore.
pub open spec fn is_name_char(c: char) -> bool {
    is_letter(c) || '0' <= c <= '9' || c == '_'
}

/// A letter from a to z as an upper case letter.
pub open spec fn upper(c: char) -> char {
    if 'a' <= c <= 'z' {
        (c as u8 - 32) as u8 as char
    } else {
        c
    }
}

/// `s` with its letters from a to z in upper case.
pub open spec fn upper_text(s: Seq<char>) -> Seq<char> {
    s.map_values(|c: char| upper(c))
}

/// A client may set the variable: its name is made of letters, digits and underscores, and it is
/// not one that says where programs are looked for.
pub open spec fn may_set(name: Seq<char>) -> bool {
    &&& name.len() > 0
    &&& forall|i: int| 0 <= i < name.len() ==> is_name_char(#[trigger] name[i])
    &&& upper_text(name) != "PATH"@
    &&& upper_text(name) != "PATHEXT"@
}

/// A variable that a client asks for is kept: the client may set it, and no zero in its value ends
/// it early.
pub open spec fn is_kept(entry: (Seq<char>, Seq<char>)) -> bool {
    may_set(entry.0) && wide::zero_free(entry.1)
}

/// The variables of `env` that are kept of those that a client asks for, in order.
pub open spec fn sanitized(env: Seq<(Seq<char>, Seq<char>)>) -> Seq<(Seq<char>, Seq<char>)>
    decreases env.len(),
{
    if env.len() == 0 {
        Seq::empty()
    } else if is_kept(env.last()) {
        sanitized(env.drop_last()).push(env.last())
    } else {
        sanitized(env.drop_last())
    }
}

/// A character that has no place in a command line: a control character other than a tab or the
/// end of a line.
pub open spec fn is_unwanted(c: char) -> bool {
    &&& c < ' ' || '\u{7F}' <= c <= '\u{9F}'
    &&& c != '\t' && c != '\n' && c != '\r'
}

/// `s` without the characters that have no place in a command line.
pub open spec fn cleaned(s: Seq<char>) -> Seq<char>
    decreases s.len(),
{
    if s.len() == 0 {
        Seq::empty()
    } else if is_unwanted(s.last()) {
        cleaned(s.drop_last())
    } else {
        cleaned(s.drop_last()).push(s.last())
    }
}

/// A path that starts at a drive, or at a server.
pub open spec fn is_absolute(path: Seq<char>) -> bool {
    ||| path.len() >= 3 && is_letter(path[0]) && path[1] == ':' && is_separator(path[2])
    ||| path.len() >= 2 && is_separator(path[0]) && is_separator(path[1])
}

/// A character between the parts of a path.
pub open spec fn is_separator(c: char) -> bool {
    c == '\\' || c == '/'
}

/// The place of a variable in `entries`, or their number where they hold no such variable. Names
/// that differ only in the case of their letters are the same.
pub open spec fn place(entries: Seq<(Seq<char>, Seq<char>)>, name: Seq<char>) -> int
    decreases entries.len(),
{
    if entries.len() == 0 {
        0
    } else if upper_text(entries[0].0) == upper_text(name) {
        0
    } else {
        1 + place(entries.drop_first(), name)
    }
}

/// The value of a variable.
pub open spec fn variable_value(entries: Seq<(Seq<char>, Seq<char>)>, name: Seq<char>) -> Option<
    Seq<char>,
> {
    let p = place(entries, name);
    if p < entries.len() {
        Some(entries[p].1)
    } else {
        None
    }
}

/// `entries` with a variable set. It keeps the spelling of its name where it is there already.
pub open spec fn with_variable(
    entries: Seq<(Seq<char>, Seq<char>)>,
    name: Seq<char>,
    value: Seq<char>,
) -> Seq<(Seq<char>, Seq<char>)> {
    let p = place(entries, name);
    if p < entries.len() {
        entries.update(p, (entries[p].0, value))
    } else {
        entries.push((name, value))
    }
}

/// `system` with every variable of `client` set in turn.
pub open spec fn overlaid(
    system: Seq<(Seq<char>, Seq<char>)>,
    client: Seq<(Seq<char>, Seq<char>)>,
) -> Seq<(Seq<char>, Seq<char>)>
    decreases client.len(),
{
    if client.len() == 0 {
        system
    } else {
        with_variable(overlaid(system, client.drop_last()), client.last().0, client.last().1)
    }
}

/// No variable occurs twice, in whatever case its name is written.
pub open spec fn distinct_names(entries: Seq<(Seq<char>, Seq<char>)>) -> bool {
    forall|i: int, j: int|
        0 <= i < j < entries.len() ==> upper_text(#[trigger] entries[i].0) != upper_text(
            #[trigger] entries[j].0,
        )
}

/// The value that a client asks for a variable to have: the last that is kept of those that it
/// gives.
pub open spec fn asked_value(env: Seq<(Seq<char>, Seq<char>)>, name: Seq<char>) -> Option<Seq<char>>
    decreases env.len(),
{
    if env.len() == 0 {
        None
    } else if is_kept(env.last()) && upper_text(env.last().0) == upper_text(name) {
        Some(env.last().1)
    } else {
        asked_value(env.drop_last(), name)
    }
}

/// A path as it is compared: its letters from a to z in upper case, and one backslash for every run
/// of separators.
pub open spec fn folded(path: Seq<char>) -> Seq<char>
    decreases path.len(),
{
    if path.len() == 0 {
        Seq::empty()
    } else {
        let head = folded(path.drop_last());
        if !is_separator(path.last()) {
            head.push(upper(path.last()))
        } else if head.len() > 0 && head.last() == '\\' {
            head
        } else {
            head.push('\\')
        }
    }
}

/// A directory that no command may be run in: the system's own, or one below it.
pub open spec fn is_restricted(path: Seq<char>) -> bool {
    let dir = RESTRICTED_DIRECTORY@;
    let f = folded(path);
    &&& dir.len() <= f.len()
    &&& f.take(dir.len() as int) == dir
    &&& f.len() == dir.len() || f[dir.len() as int] == '\\'
}

/// The environment block of a process for which the client asked for `environment`.
pub open spec fn process_block(
    environment: Seq<(Seq<char>, Seq<char>)>,
    system: Seq<(Seq<char>, Seq<char>)>,
) -> Seq<u16> {
    wide::variables(overlaid(system, sanitized(environment))).push(0)
}

/// What is said of a launch that may not be, where there is something to say.
pub open spec fn refusal(
    command_line: &str,
    working_directory: Option<&str>,
    environment: Option<&StringMap>,
    system: Seq<(Seq<char>, Seq<char>)>,
) -> Option<ErrorView> {
    if command_line.len() > MAX_COMMAND_LENGTH {
        Some(
            ErrorView::ProcessLaunchFailed(
                "Command line too long: "@ + text::decimal(command_line.len() as nat)
                    + " bytes (max: "@ + text::decimal(MAX_COMMAND_LENGTH as nat) + ")"@,
            ),
        )
    } else if working_directory is Some && !is_absolute(working_directory->0@) {
        Some(
            ErrorView::ProcessLaunchFailed("Working directory is not an absolute path"@),
        )
    } else if working_directory is Some && !wide::zero_free(working_directory->0@) {
        Some(ErrorView::ProcessLaunchFailed("Working directory holds a zero character"@))
    } else if working_directory is Some && is_restricted(working_directory->0@) {
        Some(ErrorView::ProcessLaunchFailed("Working directory is restricted"@))
    } else if environment is Some && 2 * process_block(environment->0@, system).len()
        > MAX_ENV_SIZE {
        Some(
            ErrorView::ProcessLaunchFailed(
                "Environment too large (max: "@ + text::decimal(MAX_ENV_SIZE as nat) + " bytes)"@,
            ),
        )
    } else {
        None
    }
}

fn is_letter_exec(c: char) -> (b: bool)
    ensures
        b == is_letter(c),
{
    let v: u32 = c as u32;
    (65 <= v && v <= 90) || (97 <= v && v <= 122)
}

fn is_name_char_exec(c: char) -> (b: bool)
    ensures
        b == is_name_char(c),
{
    let v: u32 = c as u32;
    is_letter_exec(c) || (48 <= v && v <= 57) || c == '_'
}

fn upper_exec(c: char) -> (u: char)
    ensures
        u == upper(c),
{
    let v: u32 = c as u32;
    if 97 <= v && v <= 122 {
        (v as u8 - 32) as char
    } else {
        c
    }
}

fn is_unwanted_exec(c: char) -> (b: bool)
    ensures
        b == is_unwanted(c),
{
    let v: u32 = c as u32;
    (v < 32 || (127 <= v && v <= 159)) && v != 9 && v != 10 && v != 13
}

/// The command line without the characters that have no place in one.
pub fn clean_command(command_line: &str) -> (s: String)
    ensures
        s@ == cleaned(command_line@),
        (forall|i: int| 0 <= i < command_line@.len() ==> 0x20 <= #[trigger] command_line@[i] as int
            <= 0x7E) ==> s@ == command_line@,
{
    proof {
        law_printable_command(command_line@);
    }
    let mut s = String::new();
    assert(command_line@.take(0) =~= Seq::<char>::empty());
    for c in it: command_line.chars()
        invariant
            it.seq() == command_line@,
            s@ == cleaned(command_line@.take(it.index() as int)),
    {
        let ghost i = it.index() as int;
        assert(c == command_line@[i]);
        assert(command_line@.take(i + 1).drop_last() =~= command_line@.take(i));
        assert(command_line@.take(i + 1).last() == c);
        if !is_unwanted_exec(c) {
            s.push(c);
        }
    }
    assert(command_line@.take(command_line@.len() as int) =~= command_line@);
    s
}

/// A command line is launched as it is but for the characters that have no place in one, and none
/// of those is left.
pub proof fn law_clean_command(command_line: Seq<char>, i: int)
    ensures
        0 <= i < cleaned(command_line).len() ==> !is_unwanted(cleaned(command_line)[i]),
        (forall|j: int| 0 <= j < command_line.len() ==> !is_unwanted(#[trigger] command_line[j]))
            ==> cleaned(command_line) == command_line,
    decreases command_line.len(),
{
    if command_line.len() > 0 {
        let init = command_line.drop_last();
        law_clean_command(init, i);
        if forall|j: int| 0 <= j < command_line.len() ==> !is_unwanted(#[trigger] command_line[j]) {
            assert forall|j: int| 0 <= j < init.len() implies !is_unwanted(#[trigger] init[j]) by {
                assert(init[j] == command_line[j]);
            }
            assert(!is_unwanted(command_line[command_line.len() - 1]));
            assert(cleaned(command_line) =~= command_line);
        }
    }
}

fn is_separator_exec(c: char) -> (b: bool)
    ensures
        b == is_separator(c),
{
    c == '\\' || c == '/'
}

fn is_absolute_exec(path: &str) -> (b: bool)
    ensures
        b == is_absolute(path@),
{
    let n: usize = path.unicode_len();
    if n < 2 {
        return false;
    }
    let a = path.get_char(0);
    let b = path.get_char(1);
    if is_separator_exec(a) && is_separator_exec(b) {
        return true;
    }
    n >= 3 && is_letter_exec(a) && b == ':' && is_separator_exec(path.get_char(2))
}

fn is_restricted_exec(path: &str) -> (b: bool)
    ensures
        b == is_restricted(path@),
{
    let mut f: Vec<char> = Vec::new();
    assert(path@.take(0) =~= Seq::<char>::empty());
    for c in it: path.chars()
        invariant
            it.seq() == path@,
            f@ == folded(path@.take(it.index() as int)),
    {
        let ghost i = it.index() as int;
        assert(c == path@[i]);
        assert(path@.take(i + 1).drop_last() =~= path@.take(i));
        assert(path@.take(i + 1).last() == c);
        if !is_separator_exec(c) {
            f.push(upper_exec(c));
        } else if f.len() == 0 || f[f.len() - 1] != '\\' {
            f.push('\\');
        }
    }
    assert(path@.take(path@.len() as int) =~= path@);
    let dir = text::chars_of(RESTRICTED_DIRECTORY);
    let n: usize = dir.len();
    if f.len() < n {
        return false;
    }
    let mut i: usize = 0;
    while i < n
        invariant
            n == dir@.len(),
            n <= f@.len(),
            i <= n,
            dir@ == RESTRICTED_DIRECTORY@,
            f@ == folded(path@),
            forall|j: int| 0 <= j < i ==> #[trigger] f@[j] == dir@[j],
        decreases n - i,
    {
        if f[i] != dir[i] {
            assert(f@.take(n as int)[i as int] != dir@[i as int]);
            return false;
        }
        i += 1;
    }
    assert(f@.take(n as int) =~= dir@);
    f.len() == n || f[n] == '\\'
}

/// `name` with its letters from a to z in upper case.
fn upper_name(name: &str) -> (u: String)
    ensures
        u@ == upper_text(name@),
{
    let mut u = String::new();
    for c in it: name.chars()
        invariant
            it.seq() == name@,
            u@ =~= upper_text(name@.take(it.index() as int)),
    {
        let ghost i = it.index() as int;
        assert(c == name@[i]);
        u.push(upper_exec(c));
        assert(u@ =~= upper_text(name@.take(i + 1)));
    }
    assert(name@.take(name@.len() as int) =~= name@);
    u
}

/// Whether a client may set a variable of this name.
pub fn may_set_variable(name: &str) -> (b: bool)
    ensures
        b == may_set(name@),
{
    if name.is_empty() {
        return false;
    }
    let mut all = true;
    for c in it: name.chars()
        invariant
            it.seq() == name@,
            all == forall|i: int| 0 <= i < it.index() ==> is_name_char(#[trigger] name@[i]),
    {
        assert(c == name@[it.index() as int]);
        all = all && is_name_char_exec(c);
    }
    let upper = upper_name(name);
    all && upper != "PATH".to_owned() && upper != "PATHEXT".to_owned()
}

/// The place of a variable in `env`.
fn find_variable(env: &StringMap, name: &str) -> (p: usize)
    ensures
        p == place(env@, name@),
        p <= env@.len(),
        p < env@.len() ==> upper_text(env@[p as int].0) == upper_text(name@),
        forall|i: int| 0 <= i < p ==> upper_text((#[trigger] env@[i]).0) != upper_text(name@),
{
    let upper = upper_name(name);
    let n: usize = env.len();
    let mut p: usize = 0;
    while p < n && upper_name(env.key(p)) != upper
        invariant
            n == env@.len(),
            p <= n,
            upper@ == upper_text(name@),
            forall|i: int| 0 <= i < p ==> upper_text((#[trigger] env@[i]).0) != upper_text(name@),
        decreases n - p,
    {
        p += 1;
    }
    proof {
        lemma_place_found(env@, name@, p as int);
    }
    p
}

proof fn lemma_place(entries: Seq<(Seq<char>, Seq<char>)>, name: Seq<char>)
    ensures
        0 <= place(entries, name) <= entries.len(),
        place(entries, name) < entries.len() ==> upper_text(entries[place(entries, name)].0)
            == upper_text(name),
        forall|i: int|
            0 <= i < place(entries, name) ==> upper_text((#[trigger] entries[i]).0) != upper_text(
                name,
            ),
    decreases entries.len(),
{
    if entries.len() != 0 && upper_text(entries[0].0) != upper_text(name) {
        let rest = entries.drop_first();
        lemma_place(rest, name);
        assert forall|i: int| 0 <= i < place(entries, name) implies upper_text(
            (#[trigger] entries[i]).0,
        ) != upper_text(name) by {
            if i > 0 {
                assert(rest[i - 1] == entries[i]);
            }
        }
    }
}

proof fn lemma_place_found(entries: Seq<(Seq<char>, Seq<char>)>, name: Seq<char>, p: int)
    requires
        0 <= p <= entries.len(),
        p < entries.len() ==> upper_text(entries[p].0) == upper_text(name),
        forall|i: int| 0 <= i < p ==> upper_text((#[trigger] entries[i]).0) != upper_text(name),
    ensures
        place(entries, name) == p,
{
    lemma_place(entries, name);
    let q = place(entries, name);
    if q < p {
        assert(upper_text(entries[q].0) != upper_text(name));
    } else if p < q {
        assert(upper_text(entries[p].0) != upper_text(name));
    }
}

/// `system` with every variable of `client` set in turn.
pub fn overlay(system: &StringMap, client: &StringMap) -> (m: StringMap)
    ensures
        m@ == overlaid(system@, client@),
{
    let mut m = system.clone();
    let mut i: usize = 0;
    assert(client@.take(0) =~= Seq::empty());
    while i < client.len()
        invariant
            i <= client@.len(),
            m@ == overlaid(system@, client@.take(i as int)),
        decreases client@.len() - i,
    {
        assert(client@.take(i + 1).drop_last() =~= client@.take(i as int));
        let ghost before = m@;
        let name = client.key(i);
        let p: usize = find_variable(&m, name);
        let n: usize = m.len();
        if p < n {
            let spelled = m.key(p).to_owned();
            proof {
                assert forall|j: int| 0 <= j < p implies (#[trigger] before[j]).0 != spelled@ by {
                    assert(before[j].0 != before[p as int].0);
                }
                string_map::lemma_position_found(before, spelled@, p as int);
            }
            m.insert(spelled, client.value(i).to_owned());
        } else {
            proof {
                string_map::lemma_position_found(before, name@, n as int);
            }
            m.insert(name.to_owned(), client.value(i).to_owned());
        }
        assert(m@ =~= with_variable(before, client@[i as int].0, client@[i as int].1));
        i += 1;
    }
    assert(client@.take(i as int) =~= client@);
    m
}

/// The variables of `env` that are kept of those that a client asks for.
pub fn sanitize_environment(env: &StringMap) -> (kept: StringMap)
    ensures
        kept@ == sanitized(env@),
{
    let mut kept = StringMap::new();
    let n: usize = env.len();
    let mut i: usize = 0;
    assert(env@.take(0) =~= Seq::empty());
    while i < n
        invariant
            n == env@.len(),
            i <= n,
            string_map::distinct_keys(env@),
            kept@ == sanitized(env@.take(i as int)),
        decreases n - i,
    {
        assert(env@.take(i + 1).drop_last() =~= env@.take(i as int));
        proof {
            lemma_sanitized_keys(env@.take(i as int));
        }
        if may_set_variable(env.key(i)) && wide::is_zero_free(env.value(i)) {
            assert forall|j: int| 0 <= j < kept@.len() implies (#[trigger] kept@[j]).0
                != env@[i as int].0 by {
                let k = choose|k: int| 0 <= k < i && env@.take(i as int)[k] == kept@[j];
                assert(env@[k].0 != env@[i as int].0);
            }
            kept.add_new(env.key(i), env.value(i).to_owned());
        }
        i += 1;
    }
    assert(env@.take(i as int) =~= env@);
    kept
}

proof fn lemma_sanitized_keys(env: Seq<(Seq<char>, Seq<char>)>)
    ensures
        forall|j: int|
            0 <= j < sanitized(env).len() ==> exists|k: int|
                0 <= k < env.len() && env[k] == #[trigger] sanitized(env)[j],
    decreases env.len(),
{
    if env.len() > 0 {
        let init = env.drop_last();
        lemma_sanitized_keys(init);
        assert forall|j: int| 0 <= j < sanitized(env).len() implies exists|k: int|
            0 <= k < env.len() && env[k] == #[trigger] sanitized(env)[j] by {
            if j < sanitized(init).len() {
                let k = choose|k: int| 0 <= k < init.len() && init[k] == sanitized(init)[j];
                assert(env[k] == sanitized(env)[j]);
            } else {
                assert(env[env.len() - 1] == sanitized(env)[j]);
            }
        }
    }
}

proof fn lemma_with_variable(
    entries: Seq<(Seq<char>, Seq<char>)>,
    name: Seq<char>,
    value: Seq<char>,
    other: Seq<char>,
)
    requires
        distinct_names(entries),
    ensures
        distinct_names(with_variable(entries, name, value)),
        variable_value(with_variable(entries, name, value), other) == (if upper_text(other)
            == upper_text(name) {
            Some(value)
        } else {
            variable_value(entries, other)
        }),
{
    let after = with_variable(entries, name, value);
    lemma_place(entries, name);
    lemma_place(entries, other);
    let p = place(entries, name);
    let q = place(entries, other);
    assert(distinct_names(after)) by {
        assert forall|i: int, j: int| 0 <= i < j < after.len() implies upper_text(
            #[trigger] after[i].0,
        ) != upper_text(#[trigger] after[j].0) by {
            if j < entries.len() {
                assert(upper_text(entries[i].0) != upper_text(entries[j].0));
            } else {
                assert(upper_text(entries[i].0) != upper_text(name));
            }
        }
    }
    let r = if upper_text(other) == upper_text(name) {
        p
    } else if q < entries.len() {
        q
    } else {
        after.len() as int
    };
    assert forall|i: int| 0 <= i < r implies upper_text((#[trigger] after[i]).0) != upper_text(
        other,
    ) by {
        if i < entries.len() {
            assert(after[i].0 == entries[i].0);
            assert(upper_text(entries[i].0) != upper_text(other));
        }
    }
    lemma_place_found(after, other, r);
}

/// Among the variables of a launch stand the client's value of a variable that the client may set
/// and did set, and every other variable as the system has it, in whatever case a name is written.
/// No variable occurs twice.
pub proof fn law_client_variables(
    environment: Seq<(Seq<char>, Seq<char>)>,
    system: Seq<(Seq<char>, Seq<char>)>,
    name: Seq<char>,
)
    requires
        distinct_names(system),
    ensures
        distinct_names(overlaid(system, sanitized(environment))),
        variable_value(overlaid(system, sanitized(environment)), name) == (if asked_value(
            environment,
            name,
        ) is Some {
            asked_value(environment, name)
        } else {
            variable_value(system, name)
        }),
    decreases environment.len(),
{
    if environment.len() > 0 {
        let init = environment.drop_last();
        let last = environment.last();
        law_client_variables(init, system, name);
        if is_kept(last) {
            let kept = sanitized(init);
            assert(sanitized(environment).drop_last() =~= kept);
            lemma_with_variable(overlaid(system, kept), last.0, last.1, name);
        }
    }
}

/// Among the variables of a launch, those that say where programs are looked for are the system's.
pub proof fn law_search_path_is_the_systems(
    environment: Seq<(Seq<char>, Seq<char>)>,
    system: Seq<(Seq<char>, Seq<char>)>,
    name: Seq<char>,
)
    requires
        distinct_names(system),
        upper_text(name) == "PATH"@ || upper_text(name) == "PATHEXT"@,
    ensures
        variable_value(overlaid(system, sanitized(environment)), name) == variable_value(
            system,
            name,
        ),
{
    law_client_variables(environment, system, name);
    lemma_not_asked(environment, name);
}

/// No name and no value of `entries` holds a zero.
pub open spec fn all_zero_free(entries: Seq<(Seq<char>, Seq<char>)>) -> bool {
    forall|i: int|
        0 <= i < entries.len() ==> wide::zero_free((#[trigger] entries[i]).0) && wide::zero_free(
            entries[i].1,
        )
}

proof fn lemma_overlaid_zero_free(
    environment: Seq<(Seq<char>, Seq<char>)>,
    system: Seq<(Seq<char>, Seq<char>)>,
)
    requires
        all_zero_free(system),
    ensures
        all_zero_free(overlaid(system, sanitized(environment))),
    decreases environment.len(),
{
    if environment.len() > 0 {
        let init = environment.drop_last();
        let last = environment.last();
        lemma_overlaid_zero_free(init, system);
        if is_kept(last) {
            let kept = sanitized(init);
            let before = overlaid(system, kept);
            assert(sanitized(environment).drop_last() =~= kept);
            lemma_place(before, last.0);
            assert(wide::zero_free(last.0)) by {
                assert forall|i: int| 0 <= i < last.0.len() implies #[trigger] last.0[i] != '\0' by {
                    assert(is_name_char(last.0[i]));
                }
            }
            let after = with_variable(before, last.0, last.1);
            assert forall|i: int| 0 <= i < after.len() implies wide::zero_free(
                (#[trigger] after[i]).0,
            ) && wide::zero_free(after[i].1) by {
                if i < before.len() {
                    assert(wide::zero_free(before[i].0) && wide::zero_free(before[i].1));
                }
            }
        }
    }
}

/// A process that reads its environment block finds exactly the variables of its launch, whatever
/// the client has asked for: no value brings another variable in.
pub proof fn law_process_finds_its_variables(
    environment: Seq<(Seq<char>, Seq<char>)>,
    system: Seq<(Seq<char>, Seq<char>)>,
)
    requires
        all_zero_free(system),
    ensures
        wide::block_entries(process_block(environment, system)) == overlaid(
            system,
            sanitized(environment),
        ).map_values(|e: (Seq<char>, Seq<char>)| wide::utf16(wide::variable(e))),
{
    let all = overlaid(system, sanitized(environment));
    lemma_overlaid_zero_free(environment, system);
    reveal_strlit("=");
    assert forall|i: int| 0 <= i < all.len() implies wide::zero_free(
        wide::variable(#[trigger] all[i]),
    ) by {
        assert(wide::zero_free(all[i].0) && wide::zero_free(all[i].1));
        let v = wide::variable(all[i]);
        let n = all[i].0.len();
        assert forall|j: int| 0 <= j < v.len() implies #[trigger] v[j] != '\0' by {
            if j < n {
                assert(v[j] == all[i].0[j]);
            } else if j > n {
                assert(v[j] == all[i].1[j - n - 1]);
            }
        }
    }
    wide::law_env_block_is_readable(all);
}

proof fn lemma_not_asked(environment: Seq<(Seq<char>, Seq<char>)>, name: Seq<char>)
    requires
        upper_text(name) == "PATH"@ || upper_text(name) == "PATHEXT"@,
    ensures
        asked_value(environment, name) is None,
    decreases environment.len(),
{
    if environment.len() > 0 {
        lemma_not_asked(environment.drop_last(), name);
    }
}

/// What is said of a launch that may not be is short, whatever the client has asked for.
pub proof fn law_refusals_are_short(
    command_line: &str,
    working_directory: Option<&str>,
    environment: Option<&StringMap>,
    system: Seq<(Seq<char>, Seq<char>)>,
)
    ensures
        refusal(command_line, working_directory, environment, system) matches Some(e) ==> (e
            matches ErrorView::ProcessLaunchFailed(m) && m.len() <= MAX_REFUSAL_LENGTH),
{
    reveal_strlit("Command line too long: ");
    reveal_strlit(" bytes (max: ");
    reveal_strlit(")");
    reveal_strlit("Working directory is not an absolute path");
    reveal_strlit("Working directory holds a zero character");
    reveal_strlit("Working directory is restricted");
    reveal_strlit("Environment too large (max: ");
    reveal_strlit(" bytes)");
    text::lemma_decimal_length(command_line.len() as nat);
    text::lemma_decimal_length(MAX_COMMAND_LENGTH as nat);
    text::lemma_decimal_length(MAX_ENV_SIZE as nat);
}

impl ProcessLauncher {
    /// The text of a launch: the command line without control characters, where to run it, and the
    /// variables that the client asked for on top of those of the system. A command line that is
    /// too long, a working directory that is no absolute path, holds a zero or is restricted, and
    /// an environment that is too large are refused.
    pub fn plan(
        command_line: &str,
        working_directory: Option<&str>,
        environment: Option<&StringMap>,
        system: &StringMap,
    ) -> (r: Result<LaunchPlan>)
        ensures
            r is Ok <==> refusal(command_line, working_directory, environment, system@) is None,
            r matches Err(e) ==> refusal(command_line, working_directory, environment, system@)
                == Some(e@) && (e matches Error::ProcessLaunchFailed(m) && m@.len()
                <= MAX_REFUSAL_LENGTH),
            r matches Ok(p) ==> {
                &&& p.command_line@ == wide::utf16(cleaned(command_line@)).push(0)
                &&& (forall|i: int|
                    0 <= i < command_line@.len() ==> 0x20 <= #[trigger] command_line@[i] as int
                        <= 0x7E) ==> p.command_line@ == wide::utf16(command_line@).push(0)
                &&& p.working_directory is Some <==> working_directory is Some
                &&& p.working_directory matches Some(d) ==> d@ == wide::utf16(
                    working_directory->0@,
                ).push(0)
                &&& p.environment is Some <==> environment is Some
                &&& p.environment matches Some(b) ==> b@ == process_block(
                    environment->0@,
                    system@,
                )
                &&& p.creation_flags == CREATION_FLAGS
                &&& p.creation_flags == 0x600
            },
    {
        proof {
            law_refusals_are_short(command_line, working_directory, environment, system@);
        }
        if command_line.len() > MAX_COMMAND_LENGTH {
            let mut m = "Command line too long: ".to_owned();
            m.append(text::decimal_text(command_line.len() as u64).as_str());
            m.append(" bytes (max: ");
            m.append(text::decimal_text(MAX_COMMAND_LENGTH as u64).as_str());
            m.append(")");
            return Err(Error::ProcessLaunchFailed(m));
        }
        if let Some(d) = working_directory {
            if !is_absolute_exec(d) {
                return Err(
                    Error::ProcessLaunchFailed(
                        "Working directory is not an absolute path".to_owned(),
                    ),
                );
            }
            if !wide::is_zero_free(d) {
                return Err(
                    Error::ProcessLaunchFailed(
                        "Working directory holds a zero character".to_owned(),
                    ),
                );
            }
            if is_restricted_exec(d) {
                return Err(
                    Error::ProcessLaunchFailed("Working directory is restricted".to_owned()),
                );
            }
        }
        let block = match environment {
            Some(env) => {
                let kept = sanitize_environment(env);
                let block = wide::build_env_block(&overlay(system, &kept));
                if block.len() > MAX_ENV_SIZE / 2 {
                    let mut m = "Environment too large (max: ".to_owned();
                    m.append(text::decimal_text(MAX_ENV_SIZE as u64).as_str());
                    m.append(" bytes)");
                    return Err(Error::ProcessLaunchFailed(m));
                }
                Some(block)
            },
            None => None,
        };
        let directory = match working_directory {
            Some(d) => Some(wide::to_wide_null(d)),
            None => None,
        };
        Ok(
            LaunchPlan {
                command_line: wide::to_wide_null(clean_command(command_line).as_str()),
                working_directory: directory,
                environment: block,
                creation_flags: CREATION_FLAGS,
            },
        )
    }
}

/// The error of a call of the system that failed for `reason` while a process was launched or
/// ended.
pub fn launch_error(call: &str, reason: &str) -> (e: Error)
    ensures
        e@ == ErrorView::ProcessLaunchFailed(call@ + ": "@ + reason@),
{
    let mut m = text::joined(call, ": ");
    m.append(reason);
    Error::ProcessLaunchFailed(m)
}

/// Closing all handles twice closes none of them twice.
pub proof fn law_no_double_close(pipes: ChildPipeHandles)
    ensures
        pipes.all_cleared().open_handles() == Seq::<isize>::empty(),
{
    assert(pipes.all_cleared().open_handles() =~= Seq::<isize>::empty());
}

/// The ends of the pipes that the agent keeps of a process that was launched.
pub open spec fn kept_ends(pipes: ChildPipeHandles) -> Seq<isize> {
    if_open(pipes.stdin_write) + if_open(pipes.stdout_read) + if_open(pipes.stderr_read)
}

/// No end of a pipe is lost or used twice: after an attempt, every end is closed or kept, and as
/// often as it was there.
pub proof fn law_pipe_ends_are_accounted_for(
    pipes: ChildPipeHandles,
    job_object: isize,
    p: StartedProcess,
    e: Error,
)
    ensures
        (closed_after(LaunchAttempt::Assigned(p), pipes, job_object) + kept_ends(
            pipes,
        )).to_multiset() == pipes.open_handles().to_multiset(),
        closed_after(LaunchAttempt::NotCreated(e), pipes, job_object).to_multiset()
            == pipes.open_handles().to_multiset().insert(job_object),
{
    broadcast use vstd::seq_lib::group_to_multiset_ensures;

    let a = if_open(pipes.stdin_read);
    let b = if_open(pipes.stdin_write);
    let c = if_open(pipes.stdout_read);
    let d = if_open(pipes.stdout_write);
    let f = if_open(pipes.stderr_read);
    let g = if_open(pipes.stderr_write);
    vstd::seq_lib::lemma_multiset_commutative(a, b);
    vstd::seq_lib::lemma_multiset_commutative(a + b, c);
    vstd::seq_lib::lemma_multiset_commutative(a + b + c, d);
    vstd::seq_lib::lemma_multiset_commutative(a + b + c + d, f);
    vstd::seq_lib::lemma_multiset_commutative(a + b + c + d + f, g);
    vstd::seq_lib::lemma_multiset_commutative(d, g);
    vstd::seq_lib::lemma_multiset_commutative(d + g, a);
    vstd::seq_lib::lemma_multiset_commutative(b, c);
    vstd::seq_lib::lemma_multiset_commutative(b + c, f);
    vstd::seq_lib::lemma_multiset_commutative(d + g + a, b + c + f);
    assert((d + g + a + (b + c + f)).to_multiset() =~= (a + b + c + d + f + g).to_multiset());
    vstd::seq_lib::lemma_multiset_commutative(seq![job_object], pipes.open_handles());
    assert(seq![job_object] =~= Seq::<isize>::empty().push(job_object));
    assert((seq![job_object] + pipes.open_handles()).to_multiset()
        =~= pipes.open_handles().to_multiset().insert(job_object));
}

/// The characters that are taken out of a command line are those with a code below 0x20, or from
/// 0x7F to 0x9F, that are no tab, line feed or carriage return. All others stay, in their order.
pub proof fn law_command_characters(command_line: Seq<char>)
    ensures
        cleaned(command_line) == command_line.filter(
            |c: char|
                {
                    let code = c as int;
                    code == 0x09 || code == 0x0A || code == 0x0D || 0x20 <= code <= 0x7E || code
                        >= 0xA0
                },
        ),
    decreases command_line.len(),
{
    reveal(Seq::filter);
    if command_line.len() > 0 {
        law_command_characters(command_line.drop_last());
    }
}

/// A command line is cleaned character by character: one at its end is taken out or stays by its
/// code alone, whatever stands before it.
pub proof fn law_command_character(before: Seq<char>, c: char)
    ensures
        cleaned(Seq::empty()) == Seq::<char>::empty(),
        (c as int) < 0x20 && c as int != 0x09 && c as int != 0x0A && c as int != 0x0D ==> cleaned(
            before.push(c),
        ) == cleaned(before),
        0x7F <= c as int <= 0x9F ==> cleaned(before.push(c)) == cleaned(before),
        c as int == 0x09 || c as int == 0x0A || c as int == 0x0D || 0x20 <= c as int <= 0x7E || c as int
            >= 0xA0 ==> cleaned(before.push(c)) == cleaned(before).push(c),
{
    assert(before.push(c).drop_last() =~= before);
}

/// A command line whose characters all have codes from 0x20 to 0x7E is launched unchanged.
pub proof fn law_printable_command(command_line: Seq<char>)
    ensures
        (forall|i: int| 0 <= i < command_line.len() ==> 0x20 <= #[trigger] command_line[i] as int
            <= 0x7E) ==> cleaned(command_line) == command_line,
    decreases command_line.len(),
{
    if command_line.len() > 0 && (forall|i: int|
        0 <= i < command_line.len() ==> 0x20 <= #[trigger] command_line[i] as int <= 0x7E) {
        let init = command_line.drop_last();
        let last = command_line.last();
        assert forall|i: int| 0 <= i < init.len() implies 0x20 <= #[trigger] init[i] as int <= 0x7E by {
            assert(init[i] == command_line[i]);
        }
        law_printable_command(init);
        assert(last == command_line[command_line.len() - 1]);
        law_command_character(init, last);
        assert(init.push(last) =~= command_line);
    }
}

/// Upper case is made of the letters from a to z alone, by their codes, one for one.
pub proof fn law_upper(s: Seq<char>, i: int)
    ensures
        upper_text(s).len() == s.len(),
        0 <= i < s.len() && 97 <= s[i] as int <= 122 ==> upper_text(s)[i] as int == s[i] as int
            - 32,
        0 <= i < s.len() && !(97 <= s[i] as int <= 122) ==> upper_text(s)[i] == s[i],
{
}

/// A client may set a variable whose name is one or more of the characters A to Z, a to z, 0 to 9
/// and `_`, unless it spells PATH or PATHEXT, each letter in either case.
pub proof fn law_variable_names(name: Seq<char>)
    ensures
        may_set(name) <==> {
            &&& name.len() > 0
            &&& forall|i: int|
                0 <= i < name.len() ==> {
                    let code = #[trigger] name[i] as int;
                    65 <= code <= 90 || 97 <= code <= 122 || 48 <= code <= 57 || code == 95
                }
            &&& !(name.len() == 4 && (name[0] == 'P' || name[0] == 'p') && (name[1] == 'A'
                || name[1] == 'a') && (name[2] == 'T' || name[2] == 't') && (name[3] == 'H'
                || name[3] == 'h'))
            &&& !(name.len() == 7 && (name[0] == 'P' || name[0] == 'p') && (name[1] == 'A'
                || name[1] == 'a') && (name[2] == 'T' || name[2] == 't') && (name[3] == 'H'
                || name[3] == 'h') && (name[4] == 'E' || name[4] == 'e') && (name[5] == 'X'
                || name[5] == 'x') && (name[6] == 'T' || name[6] == 't'))
        },
{
    lemma_spells_path(name);
    lemma_spells_pathext(name);
    assert forall|i: int| 0 <= i < name.len() implies is_name_char(#[trigger] name[i]) == ({
        let code = name[i] as int;
        65 <= code <= 90 || 97 <= code <= 122 || 48 <= code <= 57 || code == 95
    }) by {}
}

proof fn lemma_upper_is(c: char, large: char, small: char)
    requires
        65 <= large as int <= 90,
        small as int == large as int + 32,
    ensures
        upper(c) == large <==> c == large || c == small,
{
}

proof fn lemma_spells_path(name: Seq<char>)
    ensures
        upper_text(name) == "PATH"@ <==> name.len() == 4 && (name[0] == 'P' || name[0] == 'p') && (
        name[1] == 'A' || name[1] == 'a') && (name[2] == 'T' || name[2] == 't') && (name[3] == 'H'
            || name[3] == 'h'),
{
    reveal_strlit("PATH");
    let u = upper_text(name);
    assert("PATH"@ =~= seq!['P', 'A', 'T', 'H']);
    if name.len() == 4 {
        assert(u[0] == upper(name[0]) && u[1] == upper(name[1]) && u[2] == upper(name[2]) && u[3]
            == upper(name[3]));
        lemma_upper_is(name[0], 'P', 'p');
        lemma_upper_is(name[1], 'A', 'a');
        lemma_upper_is(name[2], 'T', 't');
        lemma_upper_is(name[3], 'H', 'h');
        if u[0] == 'P' && u[1] == 'A' && u[2] == 'T' && u[3] == 'H' {
            assert(u =~= "PATH"@);
        }
    } else {
        assert(u.len() != "PATH"@.len());
    }
}

proof fn lemma_spells_pathext(name: Seq<char>)
    ensures
        upper_text(name) == "PATHEXT"@ <==> name.len() == 7 && (name[0] == 'P' || name[0] == 'p') && (
        name[1] == 'A' || name[1] == 'a') && (name[2] == 'T' || name[2] == 't') && (name[3] == 'H'
            || name[3] == 'h') && (name[4] == 'E' || name[4] == 'e') && (name[5] == 'X' || name[5]
            == 'x') && (name[6] == 'T' || name[6] == 't'),
{
    reveal_strlit("PATHEXT");
    let u = upper_text(name);
    assert("PATHEXT"@ =~= seq!['P', 'A', 'T', 'H', 'E', 'X', 'T']);
    if name.len() == 7 {
        assert(u[0] == upper(name[0]) && u[1] == upper(name[1]) && u[2] == upper(name[2]) && u[3]
            == upper(name[3]) && u[4] == upper(name[4]) && u[5] == upper(name[5]) && u[6] == upper(
            name[6],
        ));
        lemma_upper_is(name[0], 'P', 'p');
        lemma_upper_is(name[1], 'A', 'a');
        lemma_upper_is(name[2], 'T', 't');
        lemma_upper_is(name[3], 'H', 'h');
        lemma_upper_is(name[4], 'E', 'e');
        lemma_upper_is(name[5], 'X', 'x');
        lemma_upper_is(name[6], 'T', 't');
        if u[0] == 'P' && u[1] == 'A' && u[2] == 'T' && u[3] == 'H' && u[4] == 'E' && u[5] == 'X'
            && u[6] == 'T' {
            assert(u =~= "PATHEXT"@);
        }
    } else {
        assert(u.len() != "PATHEXT"@.len());
    }
}

/// Of the variables that a client asks for, those stay, in their order and as they are, that it may
/// set and whose value holds no zero.
pub proof fn law_sanitized(env: Seq<(Seq<char>, Seq<char>)>)
    ensures
        sanitized(env) == env.filter(
            |e: (Seq<char>, Seq<char>)| may_set(e.0) && !e.1.contains('\0'),
        ),
    decreases env.len(),
{
    reveal(Seq::filter);
    if env.len() > 0 {
        law_sanitized(env.drop_last());
        let value = env.last().1;
        if !wide::zero_free(value) {
            let i = choose|i: int| 0 <= i < value.len() && value[i] == '\0';
            assert(value.contains('\0'));
        }
    }
}

/// The value of a variable is that of the first entry whose name is the same but for the case of
/// its letters; where there is none it has no value.
pub proof fn law_variable_value(entries: Seq<(Seq<char>, Seq<char>)>, name: Seq<char>, i: int)
    ensures
        0 <= i < entries.len() && upper_text(entries[i].0) == upper_text(name) && (forall|j: int|
            0 <= j < i ==> upper_text((#[trigger] entries[j]).0) != upper_text(name))
            ==> variable_value(entries, name) == Some(entries[i].1),
        (forall|j: int|
            0 <= j < entries.len() ==> upper_text((#[trigger] entries[j]).0) != upper_text(name))
            ==> variable_value(entries, name) is None,
{
    if 0 <= i < entries.len() && upper_text(entries[i].0) == upper_text(name) && (forall|j: int|
        0 <= j < i ==> upper_text((#[trigger] entries[j]).0) != upper_text(name)) {
        lemma_place_found(entries, name, i);
    }
    if forall|j: int|
        0 <= j < entries.len() ==> upper_text((#[trigger] entries[j]).0) != upper_text(name) {
        lemma_place_found(entries, name, entries.len() as int);
    }
}

/// Variables are set one after the other: the last has its value, under any spelling of its name,
/// and every other variable is as it was before. Where nothing is set all are the system's.
pub proof fn law_overlay(
    system: Seq<(Seq<char>, Seq<char>)>,
    client: Seq<(Seq<char>, Seq<char>)>,
    name: Seq<char>,
    value: Seq<char>,
    other: Seq<char>,
)
    requires
        distinct_names(system),
    ensures
        overlaid(system, Seq::empty()) == system,
        variable_value(overlaid(system, client.push((name, value))), name) == Some(value),
        upper_text(other) == upper_text(name) ==> variable_value(
            overlaid(system, client.push((name, value))),
            other,
        ) == Some(value),
        upper_text(other) != upper_text(name) ==> variable_value(
            overlaid(system, client.push((name, value))),
            other,
        ) == variable_value(overlaid(system, client), other),
{
    assert(client.push((name, value)).drop_last() =~= client);
    lemma_overlaid_distinct(system, client);
    lemma_with_variable(overlaid(system, client), name, value, name);
    lemma_with_variable(overlaid(system, client), name, value, other);
}

proof fn lemma_overlaid_distinct(
    system: Seq<(Seq<char>, Seq<char>)>,
    client: Seq<(Seq<char>, Seq<char>)>,
)
    requires
        distinct_names(system),
    ensures
        distinct_names(overlaid(system, client)),
    decreases client.len(),
{
    if client.len() > 0 {
        lemma_overlaid_distinct(system, client.drop_last());
        lemma_with_variable(
            overlaid(system, client.drop_last()),
            client.last().0,
            client.last().1,
            client.last().0,
        );
    }
}

/// Setting a variable that is there changes its value at its place and keeps the spelling of its
/// name; setting a new one adds it at the end. No other entry moves or changes.
pub proof fn law_with_variable(
    entries: Seq<(Seq<char>, Seq<char>)>,
    name: Seq<char>,
    value: Seq<char>,
    i: int,
)
    requires
        distinct_names(entries),
    ensures
        ({
            let after = with_variable(entries, name, value);
            &&& after.len() == entries.len() <==> exists|j: int|
                0 <= j < entries.len() && upper_text((#[trigger] entries[j]).0) == upper_text(name)
            &&& after.len() != entries.len() ==> after == entries.push((name, value))
            &&& after.len() == entries.len() && 0 <= i < entries.len() ==> after[i].0
                == entries[i].0 && after[i].1 == (if upper_text(entries[i].0) == upper_text(name) {
                value
            } else {
                entries[i].1
            })
        }),
{
    lemma_place(entries, name);
    let p = place(entries, name);
    if p < entries.len() {
        assert(upper_text(entries[p].0) == upper_text(name));
        if 0 <= i < entries.len() && i != p {
            if i < p {
                assert(upper_text(entries[i].0) != upper_text(name));
            } else {
                assert(upper_text(entries[p].0) != upper_text(entries[i].0));
            }
        }
    }
}

/// What a process finds of a variable that its client asks for last: the client's value where the
/// client may set it and the value holds no zero, and otherwise what it would find if the client had
/// not asked. Every other variable is not touched by it.
pub proof fn law_last_request_wins(
    environment: Seq<(Seq<char>, Seq<char>)>,
    system: Seq<(Seq<char>, Seq<char>)>,
    name: Seq<char>,
    value: Seq<char>,
    other: Seq<char>,
)
    requires
        distinct_names(system),
    ensures
        ({
            let before = overlaid(system, sanitized(environment));
            let after = overlaid(system, sanitized(environment.push((name, value))));
            &&& may_set(name) && !value.contains('\0') ==> variable_value(after, name) == Some(value)
            &&& !(may_set(name) && !value.contains('\0')) ==> after == before
            &&& upper_text(other) != upper_text(name) ==> variable_value(after, other)
                == variable_value(before, other)
        }),
        sanitized(Seq::empty()).len() == 0,
{
    assert(environment.push((name, value)).drop_last() =~= environment);
    law_overlay(system, sanitized(environment), name, value, other);
    if !wide::zero_free(value) {
        let i = choose|i: int| 0 <= i < value.len() && value[i] == '\0';
        assert(value.contains('\0'));
    }
}

/// A path is absolute where it starts with a letter of the alphabet, a colon and a slash or
/// backslash, or with two of these.
pub proof fn law_absolute_paths(path: Seq<char>)
    ensures
        is_absolute(path) <==> {
            ||| path.len() >= 2 && (path[0] == '\\' || path[0] == '/') && (path[1] == '\\' || path[1]
                == '/')
            ||| path.len() >= 3 && (65 <= path[0] as int <= 90 || 97 <= path[0] as int <= 122)
                && path[1] == ':' && (path[2] == '\\' || path[2] == '/')
        },
{
}

proof fn lemma_folded_of_single(path: Seq<char>)
    requires
        forall|i: int|
            0 <= i < path.len() - 1 ==> !(is_separator(#[trigger] path[i]) && is_separator(
                path[i + 1],
            )),
    ensures
        folded(path).len() == path.len(),
        forall|i: int|
            0 <= i < path.len() ==> #[trigger] folded(path)[i] == (if is_separator(path[i]) {
                '\\'
            } else {
                upper(path[i])
            }),
    decreases path.len(),
{
    if path.len() > 0 {
        let init = path.drop_last();
        assert forall|i: int| 0 <= i < init.len() - 1 implies !(is_separator(#[trigger] init[i])
            && is_separator(init[i + 1])) by {
            assert(init[i] == path[i] && init[i + 1] == path[i + 1]);
        }
        lemma_folded_of_single(init);
        let n = init.len();
        if n > 0 {
            assert(folded(init)[n - 1] == (if is_separator(init[n - 1]) {
                '\\'
            } else {
                upper(init[n - 1])
            }));
            assert(path[n - 1] == init[n - 1]);
            assert(is_separator(path[n - 1]) ==> !is_separator(path[n - 1 + 1]));
        }
        assert forall|i: int| 0 <= i < path.len() implies #[trigger] folded(path)[i] == (
        if is_separator(path[i]) {
            '\\'
        } else {
            upper(path[i])
        }) by {
            if i < n {
                assert(folded(path)[i] == folded(init)[i]);
                assert(init[i] == path[i]);
            }
        }
    }
}

/// No command may be run in `C:\Windows\System32` or below it, and anywhere else it may. Letters may
/// be in either case and slashes may stand for backslashes. This is of paths in which no two
/// separators stand side by side; of others see `law_repeated_separators`.
pub proof fn law_restricted_paths(path: Seq<char>)
    requires
        forall|i: int|
            0 <= i < path.len() - 1 ==> !((#[trigger] path[i] == '\\' || path[i] == '/') && (path[i
                + 1] == '\\' || path[i + 1] == '/')),
    ensures
        is_restricted(path) <==> {
            let dir = "C:\\WINDOWS\\SYSTEM32"@;
            &&& dir.len() <= path.len()
            &&& forall|i: int|
                0 <= i < dir.len() ==> {
                    ||| #[trigger] path[i] == dir[i]
                    ||| 65 <= dir[i] as int <= 90 && path[i] as int == dir[i] as int + 32
                    ||| dir[i] == '\\' && path[i] == '/'
                }
            &&& path.len() == dir.len() || path[dir.len() as int] == '\\' || path[dir.len() as int]
                == '/'
        },
{
    reveal_strlit("C:\\WINDOWS\\SYSTEM32");
    lemma_folded_of_single(path);
    let dir = "C:\\WINDOWS\\SYSTEM32"@;
    let f = folded(path);
    assert forall|i: int| 0 <= i < dir.len() && i < path.len() implies (f[i] == dir[i]) == ({
        ||| #[trigger] path[i] == dir[i]
        ||| 65 <= dir[i] as int <= 90 && path[i] as int == dir[i] as int + 32
        ||| dir[i] == '\\' && path[i] == '/'
    }) by {
        assert(f[i] == (if is_separator(path[i]) {
            '\\'
        } else {
            upper(path[i])
        }));
        assert(dir[i] == '\\' || dir[i] == ':' || 48 <= dir[i] as int <= 57 || 65 <= dir[i] as int
            <= 90);
    }
    if dir.len() <= path.len() {
        let n = dir.len() as int;
        if f.take(n) == dir {
            assert forall|i: int| 0 <= i < dir.len() implies f[i] == dir[i] by {
                assert(f.take(n)[i] == f[i]);
            }
        }
        if forall|i: int| 0 <= i < dir.len() ==> f[i] == dir[i] {
            assert(f.take(n) =~= dir);
        }
        if path.len() > n {
            assert(f[n] == (if is_separator(path[n]) {
                '\\'
            } else {
                upper(path[n])
            }));
        }
        if forall|i: int|
            0 <= i < dir.len() ==> {
                ||| #[trigger] path[i] == dir[i]
                ||| 65 <= dir[i] as int <= 90 && path[i] as int == dir[i] as int + 32
                ||| dir[i] == '\\' && path[i] == '/'
            } {
            assert forall|i: int| 0 <= i < dir.len() implies f[i] == dir[i] by {
                assert(path[i] == path[i]);
            }
        }
    }
}

/// Two separators side by side are as one where a directory is looked at.
pub proof fn law_repeated_separators(before: Seq<char>, a: char, b: char, after: Seq<char>)
    requires
        a == '\\' || a == '/',
        b == '\\' || b == '/',
    ensures
        is_restricted(before + seq![a, b] + after) == is_restricted(before + seq![a] + after),
        is_restricted(before + seq![a] + after) == is_restricted(before + seq![b] + after),
{
    lemma_folded_repeated(before, a, b, after);
}

proof fn lemma_folded_repeated(before: Seq<char>, a: char, b: char, after: Seq<char>)
    requires
        is_separator(a),
        is_separator(b),
    ensures
        folded(before + seq![a, b] + after) == folded(before + seq![a] + after),
        folded(before + seq![a] + after) == folded(before + seq![b] + after),
    decreases after.len(),
{
    let two = before + seq![a, b] + after;
    let one = before + seq![a] + after;
    let same = before + seq![b] + after;
    if after.len() == 0 {
        assert(two.drop_last() =~= before + seq![a]);
        assert(one =~= before + seq![a]);
        assert(same =~= before + seq![b]);
        assert(one.drop_last() =~= before);
        assert(same.drop_last() =~= before);
        assert(two.last() == b && one.last() == a && same.last() == b);
    } else {
        let init = after.drop_last();
        assert(two.drop_last() =~= before + seq![a, b] + init);
        assert(one.drop_last() =~= before + seq![a] + init);
        assert(same.drop_last() =~= before + seq![b] + init);
        assert(two.last() == after.last() && one.last() == after.last() && same.last()
            == after.last());
        lemma_folded_repeated(before, a, b, init);
    }
}

/// What may be launched: a command line of at most 32768 bytes, in an absolute directory that holds
/// no zero and is not restricted, with an environment block of at most 65536 bytes. What may not is
/// refused with the first of these that does not hold.
pub proof fn law_refusal(
    command_line: &str,
    working_directory: Option<&str>,
    environment: Option<&StringMap>,
    system: Seq<(Seq<char>, Seq<char>)>,
)
    ensures
        ({
            let r = refusal(command_line, working_directory, environment, system);
            let short = command_line.len() <= 32768;
            let absolute = working_directory matches Some(d) ==> is_absolute(d@);
            let plain = working_directory matches Some(d) ==> !d@.contains('\0');
            let allowed = working_directory matches Some(d) ==> !is_restricted(d@);
            let small = environment matches Some(env) ==> process_block(env@, system).len() <= 32768;
            &&& r is None <==> short && absolute && plain && allowed && small
            &&& !short ==> r == Some(
                ErrorView::ProcessLaunchFailed(
                    "Command line too long: "@ + text::decimal(command_line.len() as nat)
                        + " bytes (max: "@ + text::decimal(32768) + ")"@,
                ),
            )
            &&& short && !absolute ==> r == Some(
                ErrorView::ProcessLaunchFailed("Working directory is not an absolute path"@),
            )
            &&& short && absolute && !plain ==> r == Some(
                ErrorView::ProcessLaunchFailed("Working directory holds a zero character"@),
            )
            &&& short && absolute && plain && !allowed ==> r == Some(
                ErrorView::ProcessLaunchFailed("Working directory is restricted"@),
            )
            &&& short && absolute && plain && allowed && !small ==> r == Some(
                ErrorView::ProcessLaunchFailed(
                    "Environment too large (max: "@ + text::decimal(65536) + " bytes)"@,
                ),
            )
        }),
{
    if let Some(d) = working_directory {
        if !wide::zero_free(d@) {
            let i = choose|i: int| 0 <= i < d@.len() && d@[i] == '\0';
            assert(d@.contains('\0'));
        }
    }
}

proof fn lemma_in_either(a: Seq<isize>, b: Seq<isize>, h: isize)
    ensures
        (a + b).contains(h) <==> a.contains(h) || b.contains(h),
{
    if a.contains(h) {
        let i = choose|i: int| 0 <= i < a.len() && a[i] == h;
        assert((a + b)[i] == h);
    }
    if b.contains(h) {
        let i = choose|i: int| 0 <= i < b.len() && b[i] == h;
        assert((a + b)[a.len() + i] == h);
    }
    if (a + b).contains(h) {
        let i = choose|i: int| 0 <= i < (a + b).len() && (a + b)[i] == h;
        if i < a.len() {
            assert(a[i] == h);
        } else {
            assert(b[i - a.len()] == h);
        }
    }
}

proof fn lemma_if_open(h: isize, x: isize)
    ensures
        if_open(h).contains(x) <==> x == h && h != 0 && h != -1,
{
    if h != 0 && h != -1 {
        assert(if_open(h)[0] == h);
    }
}

proof fn lemma_open_handles(pipes: ChildPipeHandles, h: isize)
    ensures
        pipes.open_handles().contains(h) <==> h != 0 && h != -1 && (h == pipes.stdin_read || h
            == pipes.stdin_write || h == pipes.stdout_read || h == pipes.stdout_write || h
            == pipes.stderr_read || h == pipes.stderr_write),
{
    let a = if_open(pipes.stdin_read);
    let b = if_open(pipes.stdin_write);
    let c = if_open(pipes.stdout_read);
    let d = if_open(pipes.stdout_write);
    let e = if_open(pipes.stderr_read);
    let f = if_open(pipes.stderr_write);
    lemma_if_open(pipes.stdin_read, h);
    lemma_if_open(pipes.stdin_write, h);
    lemma_if_open(pipes.stdout_read, h);
    lemma_if_open(pipes.stdout_write, h);
    lemma_if_open(pipes.stderr_read, h);
    lemma_if_open(pipes.stderr_write, h);
    lemma_in_either(a, b, h);
    lemma_in_either(a + b, c, h);
    lemma_in_either(a + b + c, d, h);
    lemma_in_either(a + b + c + d, e, h);
    lemma_in_either(a + b + c + d + e, f, h);
}

/// Which handles are closed after a launch. Where the process runs they are the three ends of the
/// pipes that it has taken over; where it does not they are the job object, all six ends, and those
/// of the process and its thread where there is one. Neither 0 nor -1 is a handle of a pipe or a
/// thread.
pub proof fn law_closed_handles(
    pipes: ChildPipeHandles,
    job_object: isize,
    p: StartedProcess,
    e: Error,
    h: isize,
)
    ensures
        ({
            let end = h != 0 && h != -1 && (h == pipes.stdin_read || h == pipes.stdin_write || h
                == pipes.stdout_read || h == pipes.stdout_write || h == pipes.stderr_read || h
                == pipes.stderr_write);
            &&& closed_after(LaunchAttempt::NotCreated(e), pipes, job_object).contains(h) <==> h
                == job_object || end
            &&& closed_after(LaunchAttempt::NotAssigned(p, e), pipes, job_object).contains(h) <==> {
                ||| h == job_object
                ||| h == p.process_handle
                ||| h == p.thread_handle && h != 0 && h != -1
                ||| end
            }
            &&& closed_after(LaunchAttempt::Assigned(p), pipes, job_object).contains(h) <==> h != 0
                && h != -1 && (h == pipes.stdin_read || h == pipes.stdout_write || h
                == pipes.stderr_write)
            &&& pipes.open_handles().contains(h) <==> end
        }),
{
    lemma_open_handles(pipes, h);
    let all = pipes.open_handles();
    let job = seq![job_object];
    let process = seq![p.process_handle];
    let thread = if_open(p.thread_handle);
    assert(job[0] == job_object);
    assert(process[0] == p.process_handle);
    lemma_if_open(p.thread_handle, h);
    lemma_in_either(job, all, h);
    lemma_in_either(process, thread, h);
    lemma_in_either(process + thread, job, h);
    lemma_in_either(process + thread + job, all, h);
    lemma_if_open(pipes.stdout_write, h);
    lemma_if_open(pipes.stderr_write, h);
    lemma_if_open(pipes.stdin_read, h);
    let out = if_open(pipes.stdout_write);
    let err = if_open(pipes.stderr_write);
    lemma_in_either(out, err, h);
    lemma_in_either(out + err, if_open(pipes.stdin_read), h);
}

/// Where all handles of the pipes are there, each is closed once and in order.
pub proof fn law_closed_in_order(
    pipes: ChildPipeHandles,
    job_object: isize,
    p: StartedProcess,
    e: Error,
)
    requires
        pipes.stdin_read != 0 && pipes.stdin_read != -1,
        pipes.stdin_write != 0 && pipes.stdin_write != -1,
        pipes.stdout_read != 0 && pipes.stdout_read != -1,
        pipes.stdout_write != 0 && pipes.stdout_write != -1,
        pipes.stderr_read != 0 && pipes.stderr_read != -1,
        pipes.stderr_write != 0 && pipes.stderr_write != -1,
        p.thread_handle != 0 && p.thread_handle != -1,
    ensures
        ({
            let ends = seq![
                pipes.stdin_read,
                pipes.stdin_write,
                pipes.stdout_read,
                pipes.stdout_write,
                pipes.stderr_read,
                pipes.stderr_write,
            ];
            &&& closed_after(LaunchAttempt::NotCreated(e), pipes, job_object) == seq![job_object]
                + ends
            &&& closed_after(LaunchAttempt::NotAssigned(p, e), pipes, job_object) == seq![
                p.process_handle,
                p.thread_handle,
                job_object,
            ] + ends
            &&& closed_after(LaunchAttempt::Assigned(p), pipes, job_object) == seq![
                pipes.stdout_write,
                pipes.stderr_write,
                pipes.stdin_read,
            ]
        }),
{
}

/// When all handles of the pipes are given up, none of them can be closed again: each that could is 0
/// afterwards.
pub proof fn law_given_up(pipes: ChildPipeHandles)
    ensures
        ({
            let after = pipes.all_cleared();
            &&& pipes.stdin_read != -1 ==> after.stdin_read == 0
            &&& pipes.stdin_write != -1 ==> after.stdin_write == 0
            &&& pipes.stdout_read != -1 ==> after.stdout_read == 0
            &&& pipes.stdout_write != -1 ==> after.stdout_write == 0
            &&& pipes.stderr_read != -1 ==> after.stderr_read == 0
            &&& pipes.stderr_write != -1 ==> after.stderr_write == 0
            &&& pipes.stdin_read == -1 ==> after.stdin_read == -1
            &&& pipes.stdin_write == -1 ==> after.stdin_write == -1
            &&& pipes.stdout_read == -1 ==> after.stdout_read == -1
            &&& pipes.stdout_write == -1 ==> after.stdout_write == -1
            &&& pipes.stderr_read == -1 ==> after.stderr_read == -1
            &&& pipes.stderr_write == -1 ==> after.stderr_write == -1
        }),
{
}

/// A process that was launched keeps its handles, its id and its job object, and comes with the
/// writing end of its standard input and the reading ends of its output.
pub proof fn law_launched(p: StartedProcess, job_object: isize, pipes: ChildPipeHandles)
    ensures
        launched(p, job_object, pipes).process_handle == p.process_handle,
        launched(p, job_object, pipes).thread_handle == p.thread_handle,
        launched(p, job_object, pipes).process_id == p.process_id,
        launched(p, job_object, pipes).job_object == job_object,
        launched(p, job_object, pipes).stdin_write == pipes.stdin_write,
        launched(p, job_object, pipes).stdout_read == pipes.stdout_read,
        launched(p, job_object, pipes).stderr_read == pipes.stderr_read,
{
}

/// A handle can be closed unless it is 0 or -1.
pub proof fn law_open(h: isize)
    ensures
        is_open(h) <==> h < -1 || h > 0,
{
}

/// The environment block of a process is the variables that it is to find, each followed by a zero,
/// and one zero more.
pub proof fn law_process_block(
    environment: Seq<(Seq<char>, Seq<char>)>,
    system: Seq<(Seq<char>, Seq<char>)>,
)
    ensures
        process_block(environment, system) == wide::variables(
            overlaid(system, sanitized(environment)),
        ) + seq![0u16],
        process_block(Seq::empty(), system) == wide::variables(system) + seq![0u16],
{
}

} // verus!
