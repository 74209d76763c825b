//! Log entries and the audit trail.
use vstd::prelude::*;

use crate::error::Result;
use crate::string_map;
use crate::string_map::StringMap;
use crate::text;

verus! {

#[derive(Debug, Clone, Copy, PartialEq, Eq, Structural)]
pub enum LogLevel {
    Error,
    Warn,
    Info,
    Debug,
    Trace,
}

/// The name of a level.
pub open spec fn level_name(level: LogLevel) -> Seq<char> {
    match level {
        LogLevel::Error => "ERROR"@,
        LogLevel::Warn => "WARN"@,
        LogLevel::Info => "INFO"@,
        LogLevel::Debug => "DEBUG"@,
        LogLevel::Trace => "TRACE"@,
    }
}

impl LogLevel {
    /// The name of the level.
    pub fn name(&self) -> (s: &'static str)
        ensures
            s@ == level_name(*self),
    {
        match self {
            LogLevel::Error => "ERROR",
            LogLevel::Warn => "WARN",
            LogLevel::Info => "INFO",
            LogLevel::Debug => "DEBUG",
            LogLevel::Trace => "TRACE",
        }
    }
}

/// An entry for the log.
#[derive(Debug)]
pub struct LogRecord {
    pub level: LogLevel,
    /// The job that the entry is about, or a dash.
    pub job_id: String,
    /// The message and the fields.
    pub text: String,
}

/// An entry with its text as sequences of characters.
pub struct RecordView {
    pub level: LogLevel,
    pub job_id: Seq<char>,
    pub text: Seq<char>,
}

impl View for LogRecord {
    type V = RecordView;

    open spec fn view(&self) -> RecordView {
        RecordView { level: self.level, job_id: self.job_id@, text: self.text@ }
    }
}

/// The fields of an entry, with commas between them.
pub open spec fn fields_text(fields: Seq<(Seq<char>, Seq<char>)>) -> Seq<char>
    decreases fields.len(),
{
    if fields.len() == 0 {
        Seq::empty()
    } else {
        let init = fields_text(fields.drop_last());
        let head = if fields.len() > 1 {
            init + ", "@
        } else {
            init
        };
        head + fields.last().0 + "="@ + fields.last().1
    }
}

/// The message of an entry, followed by its fields in braces where it has any.
pub open spec fn entry_text(message: Seq<char>, fields: Seq<(Seq<char>, Seq<char>)>) -> Seq<char> {
    if fields.len() == 0 {
        message
    } else {
        message + " {"@ + fields_text(fields) + "}"@
    }
}

/// The job that `fields` are about, or a dash.
pub open spec fn job_column(fields: Seq<(Seq<char>, Seq<char>)>) -> Seq<char> {
    match string_map::lookup(fields, "job_id"@) {
        Some(id) => id,
        None => "-"@,
    }
}

/// The entry of this level, message and fields.
pub open spec fn entry(
    level: LogLevel,
    message: Seq<char>,
    fields: Seq<(Seq<char>, Seq<char>)>,
) -> RecordView {
    RecordView { level, job_id: job_column(fields), text: entry_text(message, fields) }
}

/// `r` is an entry of this level, message and fields.
pub open spec fn is_entry(
    r: Result<LogRecord>,
    level: LogLevel,
    message: Seq<char>,
    fields: Seq<(Seq<char>, Seq<char>)>,
) -> bool {
    r matches Ok(record) && record@ == entry(level, message, fields)
}

/// The line of an entry that `component` has written at `timestamp`.
pub open spec fn line_text(
    timestamp: Seq<char>,
    record: RecordView,
    component: Seq<char>,
) -> Seq<char> {
    "["@ + timestamp + "] ["@ + level_name(record.level) + "] ["@ + record.job_id + "] ["@
        + component + "] "@ + record.text
}

impl LogRecord {
    /// The line of the entry in the log: when, how urgent, about which job and by which component
    /// it was written, and what it says.
    pub fn line(&self, timestamp: &str, component: &str) -> (s: String)
        ensures
            s@ == line_text(timestamp@, self@, component@),
    {
        let mut s = text::joined("[", timestamp);
        s.append("] [");
        s.append(self.level.name());
        s.append("] [");
        s.append(self.job_id.as_str());
        s.append("] [");
        s.append(component);
        s.append("] ");
        s.append(self.text.as_str());
        s
    }
}

/// The entries of a list, as views.
pub open spec fn records(list: Seq<LogRecord>) -> Seq<RecordView> {
    list.map_values(|r: LogRecord| r@)
}

/// The entry of a command that was canceled.
pub open spec fn canceled_entry(job_id: u32, reason: Seq<char>) -> RecordView {
    entry(
        LogLevel::Warn,
        "COMMAND_CANCELED"@,
        seq![("job_id"@, text::decimal(job_id as nat)), ("reason"@, reason)],
    )
}

/// The job column of an entry whose first field is the job is that job.
pub proof fn law_job_column(fields: Seq<(Seq<char>, Seq<char>)>)
    requires
        fields.len() > 0,
        fields[0].0 == "job_id"@,
    ensures
        job_column(fields) == fields[0].1,
{
}

/// Where entries go.
pub struct Logger {
    event_log_source: String,
    file_log_path: Option<String>,
}

impl Logger {
    /// The source that entries are filed under.
    pub closed spec fn source(self) -> String {
        self.event_log_source
    }

    /// The file that entries are written to.
    pub closed spec fn path(self) -> Option<String> {
        self.file_log_path
    }

    pub fn new(event_log_source: String, file_log_path: Option<String>) -> (l: Self)
        ensures
            l.source() == event_log_source,
            l.path() == file_log_path,
    {
        Logger { event_log_source, file_log_path }
    }

    /// The entry of an event.
    pub fn log_event(&self, level: LogLevel, message: &str, fields: Option<&StringMap>) -> (r: Result<
        LogRecord,
    >)
        ensures
            is_entry(
                r,
                level,
                message@,
                match fields {
                    Some(f) => f@,
                    None => Seq::empty(),
                },
            ),
    {
        let mut entry = message.to_owned();
        let mut job_id = "-".to_owned();
        if let Some(f) = fields {
            if let Some(id) = f.get(&"job_id".to_owned()) {
                job_id = id.to_owned();
            }
            if f.len() > 0 {
                entry.append(" {");
                let ghost head = entry@;
                let mut i: usize = 0;
                assert(f@.take(0) =~= Seq::empty());
                assert(entry@ =~= head + fields_text(f@.take(0)));
                while i < f.len()
                    invariant
                        i <= f@.len(),
                        entry@ == head + fields_text(f@.take(i as int)),
                    decreases f@.len() - i,
                {
                    assert(f@.take(i + 1).drop_last() =~= f@.take(i as int));
                    if i > 0 {
                        entry.append(", ");
                    }
                    entry.append(f.key(i));
                    entry.append("=");
                    entry.append(f.value(i));
                    assert(entry@ =~= head + fields_text(f@.take(i + 1)));
                    i += 1;
                }
                assert(f@.take(i as int) =~= f@);
                entry.append("}");
            }
        }
        Ok(LogRecord { level, job_id, text: entry })
    }

    /// The entry of a command that is about to run.
    pub fn audit_command_started(
        &self,
        job_id: u32,
        client_user: &str,
        command_line: &str,
        working_dir: Option<&str>,
    ) -> (r: Result<LogRecord>)
        ensures
            is_entry(
                r,
                LogLevel::Info,
                "COMMAND_STARTED"@,
                started_fields(
                    job_id,
                    client_user@,
                    command_line@,
                    match working_dir {
                        Some(d) => Some(d@),
                        None => None,
                    },
                ),
            ),
    {
        proof {
            reveal_strlit("job_id");
            assert("job_id"@.len() == 6);
            reveal_strlit("client_user");
            assert("client_user"@.len() == 11);
            reveal_strlit("command_line");
            assert("command_line"@.len() == 12);
            reveal_strlit("working_dir");
            assert("working_dir"@[0] != "client_user"@[0]);
            assert("working_dir"@.len() == 11);
        }
        let mut fields = StringMap::new();
        fields.add_new("job_id", text::decimal_text(job_id as u64));
        fields.add_new("client_user", client_user.to_owned());
        fields.add_new("command_line", command_line.to_owned());
        if let Some(cwd) = working_dir {
            fields.add_new("working_dir", cwd.to_owned());
        }
        assert(fields@ =~= started_fields(
            job_id,
            client_user@,
            command_line@,
            match working_dir {
                Some(d) => Some(d@),
                None => None,
            },
        ));
        self.log_event(LogLevel::Info, "COMMAND_STARTED", Some(&fields))
    }

    /// The entry of a command that has run.
    pub fn audit_command_completed(&self, job_id: u32, exit_code: i32, duration_ms: u64) -> (r: Result<
        LogRecord,
    >)
        ensures
            is_entry(
                r,
                LogLevel::Info,
                "COMMAND_COMPLETED"@,
                seq![
                    ("job_id"@, text::decimal(job_id as nat)),
                    ("exit_code"@, text::signed_decimal(exit_code as int)),
                    ("duration_ms"@, text::decimal(duration_ms as nat)),
                ],
            ),
    {
        proof {
            reveal_strlit("job_id");
            assert("job_id"@.len() == 6);
            reveal_strlit("exit_code");
            assert("exit_code"@.len() == 9);
            reveal_strlit("duration_ms");
            assert("duration_ms"@.len() == 11);
        }
        let mut fields = StringMap::new();
        fields.add_new("job_id", text::decimal_text(job_id as u64));
        fields.add_new("exit_code", text::signed_decimal_text(exit_code));
        fields.add_new("duration_ms", text::decimal_text(duration_ms));
        assert(fields@ =~= seq![
            ("job_id"@, text::decimal(job_id as nat)),
            ("exit_code"@, text::signed_decimal(exit_code as int)),
            ("duration_ms"@, text::decimal(duration_ms as nat)),
        ]);
        self.log_event(LogLevel::Info, "COMMAND_COMPLETED", Some(&fields))
    }

    /// The entry of a command that could not run.
    pub fn audit_command_failed(&self, job_id: u32, error_code: u32, error_message: &str) -> (r: Result<
        LogRecord,
    >)
        ensures
            is_entry(
                r,
                LogLevel::Error,
                "COMMAND_FAILED"@,
                failed_fields(job_id, error_code, error_message@),
            ),
    {
        proof {
            reveal_strlit("job_id");
            assert("job_id"@.len() == 6);
            reveal_strlit("error_code");
            assert("error_code"@.len() == 10);
            reveal_strlit("error_message");
            assert("error_message"@.len() == 13);
        }
        let mut fields = StringMap::new();
        fields.add_new("job_id", text::decimal_text(job_id as u64));
        fields.add_new("error_code", text::decimal_text(error_code as u64));
        fields.add_new("error_message", error_message.to_owned());
        assert(fields@ =~= failed_fields(job_id, error_code, error_message@));
        self.log_event(LogLevel::Error, "COMMAND_FAILED", Some(&fields))
    }

    /// The entry of a command that was canceled.
    pub fn audit_command_canceled(&self, job_id: u32, reason: &str) -> (r: Result<LogRecord>)
        ensures
            r matches Ok(record) && record@ == canceled_entry(job_id, reason@),
    {
        proof {
            reveal_strlit("job_id");
            assert("job_id"@.len() == 6);
            reveal_strlit("reason");
            assert("reason"@.len() == 6);
        }
        let mut fields = StringMap::new();
        fields.add_new("job_id", text::decimal_text(job_id as u64));
        assert("job_id"@[0] != "reason"@[0]);
        fields.add_new("reason", reason.to_owned());
        assert(fields@ =~= seq![("job_id"@, text::decimal(job_id as nat)), ("reason"@, reason@)]);
        self.log_event(LogLevel::Warn, "COMMAND_CANCELED", Some(&fields))
    }

    /// The entry of a command that the user may not run.
    pub fn audit_access_denied(&self, client_user: &str, attempted_command: &str) -> (r: Result<
        LogRecord,
    >)
        ensures
            is_entry(
                r,
                LogLevel::Warn,
                "ACCESS_DENIED"@,
                seq![("client_user"@, client_user@), ("attempted_command"@, attempted_command@)],
            ),
    {
        proof {
            reveal_strlit("client_user");
            assert("client_user"@.len() == 11);
            reveal_strlit("attempted_command");
            assert("attempted_command"@.len() == 17);
        }
        let mut fields = StringMap::new();
        fields.add_new("client_user", client_user.to_owned());
        fields.add_new("attempted_command", attempted_command.to_owned());
        assert(fields@ =~= seq![
            ("client_user"@, client_user@),
            ("attempted_command"@, attempted_command@),
        ]);
        self.log_event(LogLevel::Warn, "ACCESS_DENIED", Some(&fields))
    }
}

/// The fields of the entry of a command that is about to run.
pub open spec fn started_fields(
    job_id: u32,
    client_user: Seq<char>,
    command_line: Seq<char>,
    working_dir: Option<Seq<char>>,
) -> Seq<(Seq<char>, Seq<char>)> {
    let fields = seq![
        ("job_id"@, text::decimal(job_id as nat)),
        ("client_user"@, client_user),
        ("command_line"@, command_line),
    ];
    match working_dir {
        Some(cwd) => fields.push(("working_dir"@, cwd)),
        None => fields,
    }
}

/// The fields of the entry of a command that could not run.
pub open spec fn failed_fields(job_id: u32, error_code: u32, error_message: Seq<char>) -> Seq<
    (Seq<char>, Seq<char>),
> {
    seq![
        ("job_id"@, text::decimal(job_id as nat)),
        ("error_code"@, text::decimal(error_code as nat)),
        ("error_message"@, error_message),
    ]
}

/// A field more adds its name, an equals sign and its value before the closing brace, after a comma
/// where there are fields before it. An entry without fields is its message alone.
pub proof fn law_fields(
    message: Seq<char>,
    fields: Seq<(Seq<char>, Seq<char>)>,
    key: Seq<char>,
    value: Seq<char>,
)
    ensures
        entry_text(message, Seq::empty()) == message,
        entry_text(message, seq![(key, value)]) == message + " {"@ + key + "="@ + value + "}"@,
        fields.len() > 0 ==> {
            let shorter = entry_text(message, fields);
            &&& shorter.len() > 0
            &&& shorter.last() == '}'
            &&& entry_text(message, fields.push((key, value))) == shorter.drop_last() + ", "@ + key
                + "="@ + value + "}"@
        },
{
    reveal_strlit("}");
    reveal_with_fuel(fields_text, 2);
    let one = seq![(key, value)];
    assert(one.drop_last() =~= Seq::<(Seq<char>, Seq<char>)>::empty());
    assert(fields_text(one) =~= key + "="@ + value);
    assert(entry_text(message, one) =~= message + " {"@ + key + "="@ + value + "}"@);
    let longer = fields.push((key, value));
    assert(longer.drop_last() =~= fields);
    if fields.len() > 0 {
        let shorter = entry_text(message, fields);
        assert(shorter.drop_last() =~= message + " {"@ + fields_text(fields));
        assert(fields_text(longer) =~= fields_text(fields) + ", "@ + key + "="@ + value);
        assert(entry_text(message, longer) =~= shorter.drop_last() + ", "@ + key + "="@ + value
            + "}"@);
    }
}

/// The job column of an entry is the value of its first field named `job_id`, or a dash where there
/// is no such field.
pub proof fn law_job_column_is_the_job(fields: Seq<(Seq<char>, Seq<char>)>, i: int)
    ensures
        0 <= i < fields.len() && fields[i].0 == "job_id"@ && (forall|j: int|
            0 <= j < i ==> (#[trigger] fields[j]).0 != "job_id"@) ==> job_column(fields)
            == fields[i].1,
        (forall|j: int| 0 <= j < fields.len() ==> (#[trigger] fields[j]).0 != "job_id"@)
            ==> job_column(fields) == "-"@,
{
    string_map::law_lookup(fields, "job_id"@, i);
}

/// What the log says of a command in full. Every entry about a job names it in its job column.
pub proof fn law_audit_entries(
    job_id: u32,
    exit_code: i32,
    duration_ms: u64,
    error_code: u32,
    words: Seq<char>,
)
    ensures
        canceled_entry(job_id, words) == (RecordView {
            level: LogLevel::Warn,
            job_id: text::decimal(job_id as nat),
            text: "COMMAND_CANCELED"@ + " {"@ + "job_id"@ + "="@ + text::decimal(job_id as nat)
                + ", "@ + "reason"@ + "="@ + words + "}"@,
        }),
        entry(
            LogLevel::Info,
            "COMMAND_COMPLETED"@,
            seq![
                ("job_id"@, text::decimal(job_id as nat)),
                ("exit_code"@, text::signed_decimal(exit_code as int)),
                ("duration_ms"@, text::decimal(duration_ms as nat)),
            ],
        ) == (RecordView {
            level: LogLevel::Info,
            job_id: text::decimal(job_id as nat),
            text: "COMMAND_COMPLETED"@ + " {"@ + "job_id"@ + "="@ + text::decimal(job_id as nat)
                + ", "@ + "exit_code"@ + "="@ + text::signed_decimal(exit_code as int) + ", "@
                + "duration_ms"@ + "="@ + text::decimal(duration_ms as nat) + "}"@,
        }),
        entry(
            LogLevel::Error,
            "COMMAND_FAILED"@,
            failed_fields(job_id, error_code, words),
        ) == (RecordView {
            level: LogLevel::Error,
            job_id: text::decimal(job_id as nat),
            text: "COMMAND_FAILED"@ + " {"@ + "job_id"@ + "="@ + text::decimal(job_id as nat)
                + ", "@ + "error_code"@ + "="@ + text::decimal(error_code as nat) + ", "@
                + "error_message"@ + "="@ + words + "}"@,
        }),
{
    let id = ("job_id"@, text::decimal(job_id as nat));
    lemma_entry_of_two("COMMAND_CANCELED"@, id, ("reason"@, words));
    law_job_column(seq![id, ("reason"@, words)]);
    let code = ("exit_code"@, text::signed_decimal(exit_code as int));
    let took = ("duration_ms"@, text::decimal(duration_ms as nat));
    lemma_entry_of_three("COMMAND_COMPLETED"@, id, code, took);
    law_job_column(seq![id, code, took]);
    let error = ("error_code"@, text::decimal(error_code as nat));
    lemma_entry_of_three("COMMAND_FAILED"@, id, error, ("error_message"@, words));
    law_job_column(seq![id, error, ("error_message"@, words)]);
}

/// What the log says of a command that is about to run: who runs what and, where that was asked for,
/// in which directory.
pub proof fn law_started_entry(
    job_id: u32,
    client_user: Seq<char>,
    command_line: Seq<char>,
    working_dir: Seq<char>,
)
    ensures
        ({
            let anywhere = entry(
                LogLevel::Info,
                "COMMAND_STARTED"@,
                started_fields(job_id, client_user, command_line, None),
            );
            let there = entry(
                LogLevel::Info,
                "COMMAND_STARTED"@,
                started_fields(job_id, client_user, command_line, Some(working_dir)),
            );
            let begin = "COMMAND_STARTED"@ + " {"@ + "job_id"@ + "="@ + text::decimal(
                job_id as nat,
            ) + ", "@ + "client_user"@ + "="@ + client_user + ", "@ + "command_line"@ + "="@
                + command_line;
            &&& anywhere.text == begin + "}"@
            &&& there.text == begin + ", "@ + "working_dir"@ + "="@ + working_dir + "}"@
            &&& anywhere.job_id == text::decimal(job_id as nat)
            &&& there.job_id == text::decimal(job_id as nat)
            &&& anywhere.level is Info && there.level is Info
        }),
{
    reveal_strlit("}");
    let id = ("job_id"@, text::decimal(job_id as nat));
    let user = ("client_user"@, client_user);
    let command = ("command_line"@, command_line);
    let three = seq![id, user, command];
    lemma_entry_of_three("COMMAND_STARTED"@, id, user, command);
    law_fields("COMMAND_STARTED"@, three, "working_dir"@, working_dir);
    law_job_column(three);
    law_job_column(three.push(("working_dir"@, working_dir)));
    let begin = "COMMAND_STARTED"@ + " {"@ + "job_id"@ + "="@ + text::decimal(job_id as nat) + ", "@
        + "client_user"@ + "="@ + client_user + ", "@ + "command_line"@ + "="@ + command_line;
    assert(entry_text("COMMAND_STARTED"@, three).drop_last() =~= begin);
}

proof fn lemma_entry_of_two(
    message: Seq<char>,
    a: (Seq<char>, Seq<char>),
    b: (Seq<char>, Seq<char>),
)
    ensures
        entry_text(message, seq![a, b]) == message + " {"@ + a.0 + "="@ + a.1 + ", "@ + b.0 + "="@
            + b.1 + "}"@,
{
    reveal_strlit("}");
    law_fields(message, seq![a], b.0, b.1);
    law_fields(message, seq![], a.0, a.1);
    assert(seq![a].push((b.0, b.1)) =~= seq![a, b]);
    assert(seq![(a.0, a.1)] =~= seq![a]);
    assert(entry_text(message, seq![a]).drop_last() =~= message + " {"@ + a.0 + "="@ + a.1);
}

proof fn lemma_entry_of_three(
    message: Seq<char>,
    a: (Seq<char>, Seq<char>),
    b: (Seq<char>, Seq<char>),
    c: (Seq<char>, Seq<char>),
)
    ensures
        entry_text(message, seq![a, b, c]) == message + " {"@ + a.0 + "="@ + a.1 + ", "@ + b.0
            + "="@ + b.1 + ", "@ + c.0 + "="@ + c.1 + "}"@,
{
    reveal_strlit("}");
    lemma_entry_of_two(message, a, b);
    law_fields(message, seq![a, b], c.0, c.1);
    assert(seq![a, b].push((c.0, c.1)) =~= seq![a, b, c]);
    assert(entry_text(message, seq![a, b]).drop_last() =~= message + " {"@ + a.0 + "="@ + a.1
        + ", "@ + b.0 + "="@ + b.1);
}

/// A line of the log is four columns in brackets, when, how urgent, which job and which component,
/// and then all of the entry's text. Levels are written in capitals.
pub proof fn law_line(
    timestamp: Seq<char>,
    level: LogLevel,
    job_id: Seq<char>,
    component: Seq<char>,
    words: Seq<char>,
)
    ensures
        ({
            let name = match level {
                LogLevel::Error => "ERROR"@,
                LogLevel::Warn => "WARN"@,
                LogLevel::Info => "INFO"@,
                LogLevel::Debug => "DEBUG"@,
                LogLevel::Trace => "TRACE"@,
            };
            line_text(timestamp, (RecordView { level, job_id, text: words }), component) == seq!['[']
                + timestamp + seq![']', ' ', '['] + name + seq![']', ' ', '['] + job_id
                + seq![']', ' ', '['] + component + seq![']', ' '] + words
        }),
{
    reveal_strlit("[");
    reveal_strlit("] [");
    reveal_strlit("] ");
    assert("["@ =~= seq!['[']);
    assert("] ["@ =~= seq![']', ' ', '[']);
    assert("] "@ =~= seq![']', ' ']);
}

/// An entry has the level that it was asked for, its message, and the fields behind it.
pub proof fn law_entries(
    r: Result<LogRecord>,
    level: LogLevel,
    message: Seq<char>,
    fields: Seq<(Seq<char>, Seq<char>)>,
)
    requires
        is_entry(r, level, message, fields),
    ensures
        r matches Ok(record) && record@.level == level && record@.job_id == job_column(fields)
            && record@.text.take(message.len() as int) == message,
        fields.len() == 0 ==> (r matches Ok(record) && record@.text == message && record@.job_id
            == "-"@),
{
    let t = entry_text(message, fields);
    assert(t.take(message.len() as int) =~= message);
}

} // verus!
