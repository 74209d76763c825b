//! Commands that come as files in a directory and are answered with files in another.
use vstd::prelude::*;

use crate::error::{Error, ErrorView};
use crate::string_map::StringMap;
use crate::text;

verus! {

/// The directory of the two others.
pub const BASE_DIR: &'static str = "C:\\Windows\\Temp\\VirimaAgent";

/// Where requests come in.
pub const REQUEST_DIR: &'static str = "C:\\Windows\\Temp\\VirimaAgent\\requests";

/// Where responses go out.
pub const RESPONSE_DIR: &'static str = "C:\\Windows\\Temp\\VirimaAgent\\responses";

/// How long to sleep between two looks at the requests, in milliseconds.
pub const POLL_INTERVAL_MS: u64 = 100;

/// How many commands may run at a time.
pub const MAX_CONCURRENT_JOBS: usize = 10;

/// The exit code of a command that has none.
pub const NO_EXIT_CODE: i32 = -1;

/// A command that is asked for.
#[derive(Debug)]
pub struct Request {
    pub id: String,
    pub command: String,
    pub working_dir: Option<String>,
    pub environment: Option<StringMap>,
    pub timeout_ms: u64,
}

/// How long a command may run, in milliseconds, where the request does not say.
pub fn default_timeout() -> (ms: u64)
    ensures
        ms == 300_000,
{
    300_000
}

/// What came of a command.
#[derive(Debug)]
pub struct Response {
    pub id: String,
    pub exit_code: i32,
    pub stdout: String,
    pub stderr: String,
    pub error: Option<String>,
}

/// A response with its text as sequences of characters.
pub struct ResponseView {
    pub id: Seq<char>,
    pub exit_code: i32,
    pub stdout: Seq<char>,
    pub stderr: Seq<char>,
    pub error: Option<Seq<char>>,
}

impl View for Response {
    type V = ResponseView;

    open spec fn view(&self) -> ResponseView {
        ResponseView {
            id: self.id@,
            exit_code: self.exit_code,
            stdout: self.stdout@,
            stderr: self.stderr@,
            error: match self.error {
                Some(e) => Some(e@),
                None => None,
            },
        }
    }
}

/// The response to a command of which there is only an error.
pub open spec fn failure(id: Seq<char>, error: Seq<char>) -> ResponseView {
    ResponseView {
        id,
        exit_code: NO_EXIT_CODE,
        stdout: Seq::empty(),
        stderr: Seq::empty(),
        error: Some(error),
    }
}

/// How to run a command. The command gets the agent's variables and those of `environment`.
#[derive(Debug)]
pub struct CommandPlan {
    pub program: String,
    pub args: Vec<String>,
    pub working_dir: Option<String>,
    pub environment: Option<StringMap>,
    pub timeout_ms: u64,
}

/// What came of running a command.
pub enum CommandOutcome {
    /// It could not be started, for the given reason.
    NotSpawned(String),
    /// It has ended, with this exit code, where it has one, and has written this.
    Finished(Option<i32>, Vec<u8>, Vec<u8>),
    /// It could not be waited for, for the given reason.
    Failed(String),
    /// It has run for too long.
    TimedOut,
}

/// The place of the last dot in `s`, or -1.
pub open spec fn last_dot(s: Seq<char>) -> int
    decreases s.len(),
{
    if s.len() == 0 {
        -1
    } else if s.last() == '.' {
        s.len() - 1
    } else {
        last_dot(s.drop_last())
    }
}

/// The name of a file without its extension.
pub open spec fn stem(name: Seq<char>) -> Seq<char> {
    if last_dot(name) > 0 {
        name.take(last_dot(name))
    } else {
        name
    }
}

/// The extension of a file. A dot at the start of its name starts none.
pub open spec fn extension(name: Seq<char>) -> Option<Seq<char>> {
    if last_dot(name) > 0 {
        Some(name.skip(last_dot(name) + 1))
    } else {
        None
    }
}

/// The length of the stem of `name`.
fn stem_length(name: &Vec<char>) -> (n: usize)
    ensures
        n == stem(name@).len(),
        n <= name@.len(),
        n < name@.len() <==> last_dot(name@) > 0,
{
    let mut n: usize = name.len();
    assert(name@.take(n as int) =~= name@);
    while n > 0
        invariant
            n <= name@.len(),
            last_dot(name@) == last_dot(name@.take(n as int)),
        decreases n,
    {
        assert(name@.take(n as int).drop_last() =~= name@.take(n - 1));
        assert(name@.take(n as int).last() == name@[n - 1]);
        if name[n - 1] == '.' {
            if n == 1 {
                return name.len();
            }
            return n - 1;
        }
        n -= 1;
    }
    assert(name@.take(0) =~= Seq::<char>::empty());
    name.len()
}

/// Whether a file of this name holds a request.
pub fn is_request_file(name: &str) -> (b: bool)
    ensures
        b == (extension(name@) == Some("json"@)),
        b <==> exists|s: Seq<char>| s.len() > 0 && name@ == #[trigger] (s + ".json"@),
{
    proof {
        law_request_names(name@);
        reveal_strlit("json");
        assert("json"@ =~= seq!['j', 's', 'o', 'n']);
    }
    let chars = text::chars_of(name);
    let dot: usize = stem_length(&chars);
    let n: usize = chars.len();
    if dot < n {
        proof {
            lemma_last_dot(name@);
        }
        let rest: usize = n - dot;
        let b = rest == 5 && chars[dot + 1] == 'j' && chars[dot + 2] == 's' && chars[dot + 3]
            == 'o' && chars[dot + 4] == 'n';
        let ghost ext = name@.skip(dot + 1);
        assert(ext.len() == rest - 1);
        if b {
            assert(ext =~= "json"@);
        } else if rest == 5 {
            assert(ext[0] == chars@[dot + 1] && ext[1] == chars@[dot + 2] && ext[2] == chars@[dot
                + 3] && ext[3] == chars@[dot + 4]);
        }
        b
    } else {
        false
    }
}

proof fn lemma_last_dot(s: Seq<char>)
    ensures
        -1 <= last_dot(s) < s.len(),
        last_dot(s) >= 0 ==> s[last_dot(s)] == '.',
    decreases s.len(),
{
    if s.len() > 0 && s.last() != '.' {
        lemma_last_dot(s.drop_last());
    }
}

/// The id of the request in a file. There is no telling for a name that is no text.
pub fn request_id(name: Option<&str>) -> (id: String)
    ensures
        id@ == (match name {
            Some(n) => stem(n@),
            None => "unknown"@,
        }),
{
    match name {
        Some(n) => {
            let chars = text::chars_of(n);
            let len: usize = stem_length(&chars);
            proof {
                lemma_last_dot(n@);
                assert(n@.take(n@.len() as int) =~= n@);
            }
            text::text_of(&chars, len)
        },
        None => "unknown".to_owned(),
    }
}

/// What to do about a file among the requests.
#[derive(Debug, Clone, Copy, PartialEq, Eq, Structural)]
pub enum RequestStep {
    /// It is no request.
    Ignore,
    /// Too many commands run: leave it for later.
    Postpone,
    /// Read it, remove it and run its command.
    Process,
}

/// The server of requests in files.
pub struct FileIpcServer {
    active: usize,
}

impl FileIpcServer {
    #[verifier::type_invariant]
    spec fn wf(self) -> bool {
        self.active <= MAX_CONCURRENT_JOBS
    }

    /// How many commands run.
    pub closed spec fn running(self) -> usize {
        self.active
    }

    pub fn new() -> (s: Self)
        ensures
            s.running() == 0,
    {
        FileIpcServer { active: 0 }
    }

    /// Decides about a file among the requests. There are never more than `MAX_CONCURRENT_JOBS`
    /// commands running.
    pub fn process_request(&mut self, name: &str) -> (s: RequestStep)
        ensures
            final(self).running() <= MAX_CONCURRENT_JOBS,
            s == (if extension(name@) != Some("json"@) {
                RequestStep::Ignore
            } else if old(self).running() >= MAX_CONCURRENT_JOBS {
                RequestStep::Postpone
            } else {
                RequestStep::Process
            }),
            s is Ignore <==> !exists|t: Seq<char>| t.len() > 0 && name@ == #[trigger] (t + ".json"@),
            s is Postpone <==> !(s is Ignore) && old(self).running() >= MAX_CONCURRENT_JOBS,
            s is Process <==> !(s is Ignore) && old(self).running() < MAX_CONCURRENT_JOBS,
            s is Process ==> final(self).running() <= 10,
            s is Postpone ==> old(self).running() >= 10,
            final(self).running() == (if s is Process {
                old(self).running() + 1
            } else {
                old(self).running() as int
            }),
    {
        proof {
            use_type_invariant(&*self);
        }
        if !is_request_file(name) {
            RequestStep::Ignore
        } else if self.active >= MAX_CONCURRENT_JOBS {
            RequestStep::Postpone
        } else {
            self.active = self.active + 1;
            RequestStep::Process
        }
    }

    /// A command has ended.
    pub fn finished(&mut self)
        ensures
            final(self).running() == (if old(self).running() > 0 {
                old(self).running() - 1
            } else {
                0
            }),
    {
        proof {
            use_type_invariant(&*self);
        }
        if self.active > 0 {
            self.active = self.active - 1;
        }
    }
}

/// The same text, where there is any.
fn copied(s: &Option<String>) -> (r: Option<String>)
    ensures
        r is Some <==> *s is Some,
        r matches Some(t) ==> t@ == (*s)->0@,
{
    match s {
        Some(t) => Some(t.clone()),
        None => None,
    }
}

/// How to run the command of `request`: by the command interpreter.
pub fn command_plan(request: &Request) -> (p: CommandPlan)
    ensures
        p.program@ == "cmd.exe"@,
        p.args@.len() == 2,
        p.args@[0]@ == "/C"@,
        p.args@[1]@ == request.command@,
        p.working_dir is Some <==> request.working_dir is Some,
        p.working_dir matches Some(d) ==> d@ == request.working_dir->0@,
        p.environment is Some <==> request.environment is Some,
        p.environment matches Some(e) ==> e@ == request.environment->0@,
        p.timeout_ms == request.timeout_ms,
{
    let mut args: Vec<String> = Vec::new();
    args.push("/C".to_owned());
    args.push(request.command.clone());
    let environment = match &request.environment {
        Some(e) => Some(e.clone()),
        None => None,
    };
    CommandPlan {
        program: "cmd.exe".to_owned(),
        args,
        working_dir: copied(&request.working_dir),
        environment,
        timeout_ms: request.timeout_ms,
    }
}

/// What `String::from_utf8_lossy` makes of bytes.
pub uninterp spec fn utf8_text(bytes: Seq<u8>) -> Seq<char>;

/// `String::from_utf8_lossy` depends on the bytes alone, and decodes bytes that are UTF-8. What it
/// puts for bytes that are not is left unsaid.
#[verifier::external_body]
fn utf8_lossy(bytes: &[u8]) -> (s: String)
    ensures
        s@ == utf8_text(bytes@),
        vstd::utf8::valid_utf8(bytes@) ==> s@ == vstd::utf8::decode_utf8(bytes@),
{
    String::from_utf8_lossy(bytes).into_owned()
}

/// What `Debug` shows a `std::time::Duration` of so many milliseconds as.
pub uninterp spec fn duration_text(ms: u64) -> Seq<char>;

/// The `Debug` text of a `std::time::Duration` depends on the duration alone. Its form is left
/// unsaid.
#[verifier::external_body]
fn duration_shown(ms: u64) -> (s: String)
    ensures
        s@ == duration_text(ms),
{
    format!("{:?}", std::time::Duration::from_millis(ms))
}

/// The response to a command of which there is only an error.
fn failed(id: &String, error: String) -> (r: Response)
    ensures
        r@ == failure(id@, error@),
{
    proof {
        reveal_strlit("");
        assert(""@ =~= Seq::<char>::empty());
    }
    Response {
        id: id.clone(),
        exit_code: NO_EXIT_CODE,
        stdout: "".to_owned(),
        stderr: "".to_owned(),
        error: Some(error),
    }
}

/// The response to a command that has ended and has written `stdout` and `stderr`.
pub fn finished_response(request: &Request, code: Option<i32>, stdout: String, stderr: String) -> (r:
    Response)
    ensures
        r@ == (ResponseView {
            id: request.id@,
            exit_code: match code {
                Some(c) => c,
                None => NO_EXIT_CODE,
            },
            stdout: stdout@,
            stderr: stderr@,
            error: None,
        }),
{
    let exit_code: i32 = match code {
        Some(c) => c,
        None => NO_EXIT_CODE,
    };
    Response { id: request.id.clone(), exit_code, stdout, stderr, error: None }
}

/// The response to a command that has run for too long. `shown` is how long it might run.
pub fn timeout_response(request: &Request, shown: &str) -> (r: Response)
    ensures
        r@ == failure(request.id@, "Command timed out after "@ + shown@),
{
    failed(&request.id, text::joined("Command timed out after ", shown))
}

/// The response to `request`.
pub open spec fn responded(request: Request, outcome: CommandOutcome) -> ResponseView {
    match outcome {
        CommandOutcome::NotSpawned(reason) => failure(
            request.id@,
            "Failed to spawn process: "@ + reason@,
        ),
        CommandOutcome::Finished(code, stdout, stderr) => ResponseView {
            id: request.id@,
            exit_code: match code {
                Some(c) => c,
                None => NO_EXIT_CODE,
            },
            stdout: utf8_text(stdout@),
            stderr: utf8_text(stderr@),
            error: None,
        },
        CommandOutcome::Failed(reason) => failure(request.id@, "Process error: "@ + reason@),
        CommandOutcome::TimedOut => failure(
            request.id@,
            "Command timed out after "@ + duration_text(request.timeout_ms),
        ),
    }
}

/// What came of the command of `request`, as a response. Output that is UTF-8 is passed on as it
/// is.
pub fn execute_command(request: &Request, outcome: CommandOutcome) -> (r: Response)
    ensures
        r@ == responded(*request, outcome),
        outcome matches CommandOutcome::Finished(_, out, err) ==> {
            &&& vstd::utf8::valid_utf8(out@) ==> r@.stdout == vstd::utf8::decode_utf8(out@)
            &&& vstd::utf8::valid_utf8(err@) ==> r@.stderr == vstd::utf8::decode_utf8(err@)
        },
{
    match outcome {
        CommandOutcome::NotSpawned(reason) => failed(
            &request.id,
            text::joined("Failed to spawn process: ", reason.as_str()),
        ),
        CommandOutcome::Finished(code, stdout, stderr) => finished_response(
            request,
            code,
            utf8_lossy(stdout.as_slice()),
            utf8_lossy(stderr.as_slice()),
        ),
        CommandOutcome::Failed(reason) => failed(
            &request.id,
            text::joined("Process error: ", reason.as_str()),
        ),
        CommandOutcome::TimedOut => timeout_response(
            request,
            duration_shown(request.timeout_ms).as_str(),
        ),
    }
}

/// The response to a file that holds no request, for `reason`.
pub fn invalid_request(id: &String, reason: &str) -> (r: Response)
    ensures
        r@ == failure(id@, "Invalid JSON: "@ + reason@),
{
    failed(id, text::joined("Invalid JSON: ", reason))
}

/// The name of the file of a response.
pub fn response_file_name(response: &Response) -> (s: String)
    ensures
        s@ == response.id@ + ".json"@,
{
    text::joined(response.id.as_str(), ".json")
}

/// The error of a response that cannot be written down.
pub fn serialize_error(reason: &str) -> (e: Error)
    ensures
        e@ == ErrorView::Protocol("JSON serialize: "@ + reason@),
{
    Error::Protocol(text::joined("JSON serialize: ", reason))
}

/// The response to a request carries its id. It carries an error exactly where the command did not
/// come to its end, and then no output and the exit code -1.
pub proof fn law_responses(request: Request, outcome: CommandOutcome)
    ensures
        ({
            let r = responded(request, outcome);
            &&& r.id == request.id@
            &&& r.error is None <==> outcome is Finished
            &&& r.error is Some ==> r == failure(request.id@, r.error->0)
        }),
{
}

/// A request and its response have files of the same name, where the request's id is that of its
/// file.
pub proof fn law_response_files(name: Seq<char>)
    requires
        extension(name) == Some("json"@),
    ensures
        stem(name) + ".json"@ == name,
{
    lemma_last_dot(name);
    reveal_strlit("json");
    reveal_strlit(".json");
    let d = last_dot(name);
    assert(".json"@ =~= seq!['.'] + "json"@);
    assert(name =~= name.take(d) + seq![name[d]] + name.skip(d + 1));
    assert(stem(name) + ".json"@ =~= name.take(d) + seq!['.'] + "json"@);
}

proof fn lemma_last_dot_at(s: Seq<char>, d: int)
    requires
        0 <= d < s.len(),
        s[d] == '.',
        forall|i: int| d < i < s.len() ==> s[i] != '.',
    ensures
        last_dot(s) == d,
    decreases s.len(),
{
    if d < s.len() - 1 {
        assert(s[s.len() - 1] != '.');
        assert forall|i: int| d < i < s.drop_last().len() implies s.drop_last()[i] != '.' by {
            assert(s[i] != '.');
        }
        lemma_last_dot_at(s.drop_last(), d);
    }
}

proof fn lemma_no_dot(s: Seq<char>)
    requires
        forall|i: int| 0 <= i < s.len() ==> s[i] != '.',
    ensures
        last_dot(s) == -1,
    decreases s.len(),
{
    if s.len() > 0 {
        assert(s[s.len() - 1] != '.');
        assert forall|i: int| 0 <= i < s.drop_last().len() implies s.drop_last()[i] != '.' by {
            assert(s[i] != '.');
        }
        lemma_no_dot(s.drop_last());
    }
}

/// A name that is some text, a dot and a text without dots has the first as its stem and the last as
/// its extension, however long they are. A name without dots, or with one at its start alone, is all
/// stem and has no extension.
pub proof fn law_stem_and_extension(a: Seq<char>, b: Seq<char>)
    requires
        forall|i: int| 0 <= i < b.len() ==> b[i] != '.',
    ensures
        a.len() > 0 ==> stem(a + seq!['.'] + b) == a && extension(a + seq!['.'] + b) == Some(b),
        stem(b) == b && extension(b) is None,
        stem(seq!['.'] + b) == seq!['.'] + b && extension(seq!['.'] + b) is None,
{
    let name = a + seq!['.'] + b;
    let d = a.len() as int;
    assert forall|i: int| d < i < name.len() implies name[i] != '.' by {
        assert(name[i] == b[i - d - 1]);
    }
    lemma_last_dot_at(name, d);
    if a.len() > 0 {
        assert(name.take(d) =~= a);
        assert(name.skip(d + 1) =~= b);
    }
    lemma_no_dot(b);
    let hidden = seq!['.'] + b;
    assert forall|i: int| 0 < i < hidden.len() implies hidden[i] != '.' by {
        assert(hidden[i] == b[i - 1]);
    }
    lemma_last_dot_at(hidden, 0);
}

/// The names of requests are those that are any text, of one character or more, followed by `.json`,
/// and no others. The id of such a request is that text.
pub proof fn law_request_names(name: Seq<char>)
    ensures
        extension(name) == Some("json"@) <==> exists|s: Seq<char>|
            s.len() > 0 && name == #[trigger] (s + ".json"@),
        forall|s: Seq<char>| s.len() > 0 && name == #[trigger] (s + ".json"@) ==> stem(name) == s,
{
    reveal_strlit("json");
    reveal_strlit(".json");
    assert(".json"@ =~= seq!['.'] + "json"@);
    if extension(name) == Some("json"@) {
        law_response_files(name);
        lemma_last_dot(name);
        assert(stem(name).len() > 0 && name == stem(name) + ".json"@);
    }
    assert forall|s: Seq<char>| s.len() > 0 && name == #[trigger] (s + ".json"@) implies stem(name)
        == s && extension(name) == Some("json"@) by {
        law_stem_and_extension(s, "json"@);
        assert(name =~= s + seq!['.'] + "json"@);
    }
}

/// What is answered. A command that has ended is answered with its exit code, whatever it is, or -1
/// where it has none, and with what it has written; any other with exit code -1, no output, and why.
pub proof fn law_answers(request: Request, outcome: CommandOutcome)
    ensures
        ({
            let r = responded(request, outcome);
            &&& r.id == request.id@
            &&& match outcome {
                CommandOutcome::Finished(code, stdout, stderr) => {
                    &&& code matches Some(c) ==> r.exit_code == c
                    &&& code is None ==> r.exit_code == -1
                    &&& r.stdout == utf8_text(stdout@)
                    &&& r.stderr == utf8_text(stderr@)
                    &&& r.error is None
                },
                CommandOutcome::NotSpawned(reason) => r.error == Some(
                    "Failed to spawn process: "@ + reason@,
                ),
                CommandOutcome::Failed(reason) => r.error == Some("Process error: "@ + reason@),
                CommandOutcome::TimedOut => r.error == Some(
                    "Command timed out after "@ + duration_text(request.timeout_ms),
                ),
            }
            &&& !(outcome is Finished) ==> r.exit_code == -1 && r.stdout.len() == 0 && r.stderr.len()
                == 0
        }),
{
}

/// The response to a command of which there is only an error has the id and the error as they are,
/// exit code -1 and no output.
pub proof fn law_failure(id: Seq<char>, error: Seq<char>)
    ensures
        failure(id, error).id == id,
        failure(id, error).error == Some(error),
        failure(id, error).exit_code == -1,
        failure(id, error).stdout.len() == 0,
        failure(id, error).stderr.len() == 0,
{
}

} // verus!
