//! The description of one subprocess, the errors of running one, and the
//! bookkeeping of a running subprocess's output.
use super::progress::ProgressParser;
use crate::env_map::EnvMap;
use crate::error::{join2, join4};
use crate::text::{
    char_utf8_width, char_width, chars_of, lemma_utf8_len_concat, lemma_utf8_len_empty,
    lemma_utf8_len_push, push_char, string_from_range, utf8_len,
};
use crate::types::{LogLevel, PipelineState};
use vstd::prelude::*;

verus! {

/// Description of one outside subprocess, independent of the model it runs.
#[derive(Debug)]
pub struct ProcessSpec {
    pub module: String,
    pub state: PipelineState,
    pub program: String,
    pub args: Vec<String>,
    pub current_dir: Option<String>,
    pub environment: EnvMap,
    pub progress_parser: Option<ProgressParser>,
}

impl ProcessSpec {
    pub fn new(module: &str, program: &str) -> (s: Self)
        ensures
            s.module@ == module@,
            s.state == PipelineState::Idle,
            s.program@ == program@,
            s.args.deep_view() == Seq::<Seq<char>>::empty(),
            s.current_dir is None,
            s.environment@ == Map::<Seq<char>, Seq<char>>::empty(),
            s.progress_parser is None,
    {
        let s = ProcessSpec {
            module: String::from_str(module),
            state: PipelineState::Idle,
            program: String::from_str(program),
            args: Vec::new(),
            current_dir: None,
            environment: EnvMap::new(),
            progress_parser: None,
        };
        assert(s.args.deep_view() =~= Seq::<Seq<char>>::empty());
        s
    }

    pub fn state(self, state: PipelineState) -> (s: Self)
        ensures
            s == (ProcessSpec { state, ..self }),
    {
        ProcessSpec { state, ..self }
    }

    pub fn arg(self, arg: &str) -> (s: Self)
        ensures
            s.module == self.module,
            s.state == self.state,
            s.program == self.program,
            s.args.deep_view() == self.args.deep_view().push(arg@),
            s.current_dir == self.current_dir,
            s.environment == self.environment,
            s.progress_parser == self.progress_parser,
    {
        let mut s = self;
        let ghost before = s.args.deep_view();
        s.args.push(String::from_str(arg));
        assert(s.args.deep_view() =~= before.push(arg@));
        s
    }

    pub fn args(self, args: Vec<String>) -> (s: Self)
        ensures
            s.module == self.module,
            s.state == self.state,
            s.program == self.program,
            s.args.deep_view() == self.args.deep_view() + args.deep_view(),
            s.current_dir == self.current_dir,
            s.environment == self.environment,
            s.progress_parser == self.progress_parser,
    {
        let mut s = self;
        let ghost start = s.args.deep_view();
        let mut i: usize = 0;
        while i < args.len()
            invariant
                i <= args.len(),
                s.module == self.module,
                s.state == self.state,
                s.program == self.program,
                s.current_dir == self.current_dir,
                s.environment == self.environment,
                s.progress_parser == self.progress_parser,
                start == self.args.deep_view(),
                s.args.deep_view() == start + args.deep_view().subrange(0, i as int),
            decreases args.len() - i,
        {
            let item = args[i].clone();
            let ghost before = s.args.deep_view();
            s.args.push(item);
            proof {
                assert(s.args.deep_view() =~= before.push(args.deep_view()[i as int]));
                assert(args.deep_view().subrange(0, i + 1) =~= args.deep_view().subrange(
                    0,
                    i as int,
                ).push(args.deep_view()[i as int]));
            }
            i = i + 1;
        }
        assert(args.deep_view().subrange(0, args.len() as int) =~= args.deep_view());
        s
    }

    pub fn current_dir(self, current_dir: &str) -> (s: Self)
        ensures
            s.module == self.module,
            s.state == self.state,
            s.program == self.program,
            s.args == self.args,
            s.current_dir matches Some(d) && d@ == current_dir@,
            s.environment == self.environment,
            s.progress_parser == self.progress_parser,
    {
        ProcessSpec { current_dir: Some(String::from_str(current_dir)), ..self }
    }

    pub fn env(self, key: &str, value: &str) -> (s: Self)
        ensures
            s.module == self.module,
            s.state == self.state,
            s.program == self.program,
            s.args == self.args,
            s.current_dir == self.current_dir,
            s.environment@ == self.environment@.insert(key@, value@),
            s.progress_parser == self.progress_parser,
    {
        let mut s = self;
        s.environment.insert(String::from_str(key), String::from_str(value));
        s
    }

    /// Adds every variable of `environment`, replacing earlier values.
    pub fn envs(self, environment: &EnvMap) -> (s: Self)
        ensures
            s.module == self.module,
            s.state == self.state,
            s.program == self.program,
            s.args == self.args,
            s.current_dir == self.current_dir,
            s.environment@ == self.environment@.union_prefer_right(environment@),
            s.progress_parser == self.progress_parser,
    {
        let mut s = self;
        s.environment.extend_from(environment);
        s
    }

    pub fn with_progress_parser(self, parser: ProgressParser) -> (s: Self)
        ensures
            s == (ProcessSpec { progress_parser: Some(parser), ..self }),
    {
        ProcessSpec { progress_parser: Some(parser), ..self }
    }
}

/// The stream that a line of a subprocess came from.
#[derive(Debug, Clone, Copy, PartialEq, Eq, Structural)]
pub enum OutputStream {
    Stdout,
    Stderr,
}

pub open spec fn stream_name(s: OutputStream) -> Seq<char> {
    match s {
        OutputStream::Stdout => "stdout"@,
        OutputStream::Stderr => "stderr"@,
    }
}

/// The level at which a line of a stream is logged.
pub open spec fn stream_log_level(s: OutputStream) -> LogLevel {
    match s {
        OutputStream::Stdout => LogLevel::Debug,
        OutputStream::Stderr => LogLevel::Warn,
    }
}

impl OutputStream {
    pub fn as_str(self) -> (s: &'static str)
        ensures
            s@ == stream_name(self),
    {
        match self {
            OutputStream::Stdout => "stdout",
            OutputStream::Stderr => "stderr",
        }
    }

    /// Lines on stdout are logged as debug output, lines on stderr as warnings.
    pub fn log_level(self) -> (l: LogLevel)
        ensures
            l == stream_log_level(self),
    {
        match self {
            OutputStream::Stdout => LogLevel::Debug,
            OutputStream::Stderr => LogLevel::Warn,
        }
    }
}

/// Errors of the subprocess runner. The causes that come from the
/// operating system are held as the text they print, and an exit status
/// as its description.
#[derive(Debug)]
pub enum ProcessError {
    Spawn { module: String, source: String },
    MissingPipe { module: String, stream: OutputStream },
    Read { module: String, stream: OutputStream, source: String },
    Wait { module: String, source: String },
    Kill { module: String, source: String },
    Cancelled { module: String },
    EventChannelClosed { module: String },
    Failed { module: String, status: String, stdout: String, stderr: String },
}

pub open spec fn process_error_text(e: ProcessError) -> Seq<char> {
    match e {
        ProcessError::Spawn { module, source } => "modul `"@ + module@ + "` sa nepodarilo spustiť: "@
            + source@,
        ProcessError::MissingPipe { module, stream } => "modul `"@ + module@ + "` nemá dostupný "@
            + stream_name(stream) + " pipe"@,
        ProcessError::Read { module, stream, source } => "čítanie "@ + stream_name(stream)
            + " modulu `"@ + module@ + "` zlyhalo: "@ + source@,
        ProcessError::Wait { module, source } => "čakanie na modul `"@ + module@ + "` zlyhalo: "@
            + source@,
        ProcessError::Kill { module, source } => "ukončenie modulu `"@ + module@
            + "` po zrušení zlyhalo: "@ + source@,
        ProcessError::Cancelled { module } => "spracovanie modulu `"@ + module@ + "` bolo zrušené"@,
        ProcessError::EventChannelClosed { module } => "event channel pre modul `"@ + module@
            + "` bol zatvorený"@,
        ProcessError::Failed { module, status, stdout, stderr } => "modul `"@ + module@
            + "` skončil s kódom "@ + status@ + "; stdout: "@ + stdout@ + "; stderr: "@ + stderr@,
    }
}

impl ProcessError {
    pub fn message(&self) -> (s: String)
        ensures
            s@ == process_error_text(*self),
    {
        proof {
            reveal_strlit("");
        }
        match self {
            ProcessError::Spawn { module, source } => join4(
                "modul `",
                module.as_str(),
                "` sa nepodarilo spustiť: ",
                source.as_str(),
            ),
            ProcessError::MissingPipe { module, stream } => join4(
                "modul `",
                module.as_str(),
                "` nemá dostupný ",
                join2(stream.as_str(), " pipe").as_str(),
            ),
            ProcessError::Read { module, stream, source } => {
                let head = join4("čítanie ", stream.as_str(), " modulu `", module.as_str());
                join4(head.as_str(), "` zlyhalo: ", source.as_str(), "")
            },
            ProcessError::Wait { module, source } => join4(
                "čakanie na modul `",
                module.as_str(),
                "` zlyhalo: ",
                source.as_str(),
            ),
            ProcessError::Kill { module, source } => join4(
                "ukončenie modulu `",
                module.as_str(),
                "` po zrušení zlyhalo: ",
                source.as_str(),
            ),
            ProcessError::Cancelled { module } => join4(
                "spracovanie modulu `",
                module.as_str(),
                "` bolo zrušené",
                "",
            ),
            ProcessError::EventChannelClosed { module } => join4(
                "event channel pre modul `",
                module.as_str(),
                "` bol zatvorený",
                "",
            ),
            ProcessError::Failed { module, status, stdout, stderr } => {
                let head = join4("modul `", module.as_str(), "` skončil s kódom ", status.as_str());
                let mid = join4(head.as_str(), "; stdout: ", stdout.as_str(), "; stderr: ");
                join2(mid.as_str(), stderr.as_str())
            },
        }
    }
}

/// Why the runner stops waiting for a subprocess before its run is over.
#[derive(Debug)]
pub enum Interruption {
    /// The run was cancelled.
    Cancelled,
    /// Reading one of the output streams failed.
    ReadFailed { stream: OutputStream, source: String },
    /// The event channel was closed while a line was being reported.
    EventChannelClosed,
    /// Waiting for the process's exit failed.
    WaitFailed { source: String },
}

/// Whether the process is killed when the run stops for `cause`: always,
/// but when waiting for it failed.
pub open spec fn interruption_kills(cause: Interruption) -> bool {
    !(cause is WaitFailed)
}

impl Interruption {
    /// Whether the runner kills the process before it reports this cause.
    pub fn kills_process(&self) -> (b: bool)
        ensures
            b == interruption_kills(*self),
    {
        match self {
            Interruption::WaitFailed { .. } => false,
            _ => true,
        }
    }
}

/// The error with which an interrupted run ends, given how killing the
/// process went (`kill_error`, the text of a failed kill). Only a
/// cancellation reports a failed kill; the other causes report themselves
/// whatever the kill gave.
pub fn interrupted(module: &str, cause: Interruption, kill_error: Option<String>) -> (e: ProcessError)
    ensures
        cause is Cancelled && kill_error is Some ==> (e matches ProcessError::Kill {
            module: m,
            source,
        } && m@ == module@ && source == kill_error->0),
        cause is Cancelled && kill_error is None ==> (e matches ProcessError::Cancelled {
            module: m,
        } && m@ == module@),
        cause matches Interruption::ReadFailed { stream, source } ==> (e matches ProcessError::Read {
            module: m,
            stream: st,
            source: so,
        } && m@ == module@ && st == stream && so == source),
        cause is EventChannelClosed ==> (e matches ProcessError::EventChannelClosed { module: m }
            && m@ == module@),
        cause matches Interruption::WaitFailed { source } ==> (e matches ProcessError::Wait {
            module: m,
            source: so,
        } && m@ == module@ && so == source),
{
    let module = String::from_str(module);
    match cause {
        Interruption::Cancelled => match kill_error {
            Some(source) => ProcessError::Kill { module, source },
            None => ProcessError::Cancelled { module },
        },
        Interruption::ReadFailed { stream, source } => ProcessError::Read { module, stream, source },
        Interruption::EventChannelClosed => ProcessError::EventChannelClosed { module },
        Interruption::WaitFailed { source } => ProcessError::Wait { module, source },
    }
}

/// The runner of outside processes; it keeps at most this many bytes of
/// each output stream.
#[derive(Debug, Clone, Copy)]
pub struct ProcessRunner {
    max_captured_output_bytes: usize,
}

impl Default for ProcessRunner {
    fn default() -> (r: Self)
        ensures
            r.limit() == 1024 * 1024,
    {
        ProcessRunner { max_captured_output_bytes: 1024 * 1024 }
    }
}

impl ProcessRunner {
    pub closed spec fn limit(&self) -> usize {
        self.max_captured_output_bytes
    }

    pub fn new(max_captured_output_bytes: usize) -> (r: Self)
        ensures
            r.limit() == max_captured_output_bytes,
    {
        ProcessRunner { max_captured_output_bytes }
    }

    pub fn max_captured_output_bytes(&self) -> (n: usize)
        ensures
            n == self.limit(),
    {
        self.max_captured_output_bytes
    }
}

/// How many leading characters of `line` fit into `max` bytes.
pub open spec fn fitting_chars(line: Seq<char>, max: nat) -> nat
    decreases line.len(),
{
    if line.len() == 0 {
        0
    } else if char_utf8_width(line[0]) <= max {
        1 + fitting_chars(line.drop_first(), (max - char_utf8_width(line[0])) as nat)
    } else {
        0
    }
}

/// Appending one captured line to a bounded buffer of `limit` bytes: the
/// new buffer and the new truncation flag.
///
/// Lines are separated by a newline. A line is appended whole only when
/// the separator and the line fit within the limit. Otherwise what fits of
/// it is appended, cut at a character boundary (the separator only where
/// there is room for it), and the buffer becomes truncated. Once the buffer
/// is truncated it no longer changes.
pub open spec fn bounded_append(buffer: Seq<char>, line: Seq<char>, limit: nat, truncated: bool) -> (
    Seq<char>,
    bool,
) {
    if truncated || limit == 0 {
        (buffer, true)
    } else {
        let sep: nat = if buffer.len() > 0 {
            1
        } else {
            0
        };
        let available: nat = if limit >= utf8_len(buffer) + sep {
            (limit - utf8_len(buffer) - sep) as nat
        } else {
            0
        };
        if utf8_len(buffer) + sep + utf8_len(line) <= limit {
            (
                if sep == 1 {
                    buffer.push('\n') + line
                } else {
                    buffer + line
                },
                false,
            )
        } else {
            let head = if sep == 1 && available != 0 {
                buffer.push('\n')
            } else {
                buffer
            };
            let max_end: nat = if available >= sep {
                (available - sep) as nat
            } else {
                0
            };
            (head + line.subrange(0, fitting_chars(line, max_end) as int), true)
        }
    }
}

proof fn lemma_fitting_chars(line: Seq<char>, max: nat)
    ensures
        fitting_chars(line, max) <= line.len(),
        utf8_len(line.subrange(0, fitting_chars(line, max) as int)) <= max,
        fitting_chars(line, max) < line.len() ==> utf8_len(
            line.subrange(0, fitting_chars(line, max) as int + 1),
        ) > max,
    decreases line.len(),
{
    if line.len() == 0 {
        assert(line.subrange(0, 0) =~= Seq::<char>::empty());
        lemma_utf8_len_empty();
    } else if char_utf8_width(line[0]) <= max {
        let rest = line.drop_first();
        let m = (max - char_utf8_width(line[0])) as nat;
        lemma_fitting_chars(rest, m);
        let k: int = fitting_chars(rest, m) as int;
        assert(line.subrange(0, k + 1) =~= seq![line[0]] + rest.subrange(0, k));
        lemma_utf8_len_concat(seq![line[0]], rest.subrange(0, k));
        crate::text::lemma_utf8_len_single(line[0]);
        if k < rest.len() {
            assert(line.subrange(0, k + 2) =~= seq![line[0]] + rest.subrange(0, k + 1));
            lemma_utf8_len_concat(seq![line[0]], rest.subrange(0, k + 1));
        }
    } else {
        assert(line.subrange(0, 0) =~= Seq::<char>::empty());
        lemma_utf8_len_empty();
        assert(line.subrange(0, 1) =~= seq![line[0]]);
        crate::text::lemma_utf8_len_single(line[0]);
    }
}

/// Appends `line` to the captured `buffer`, keeping it within `limit`
/// bytes, and marks it truncated once a line no longer fits.
pub fn append_bounded(buffer: &mut String, line: &str, limit: usize, truncated: &mut bool)
    ensures
        (final(buffer)@, *final(truncated)) == bounded_append(
            old(buffer)@,
            line@,
            limit as nat,
            *old(truncated),
        ),
{
    if *truncated || limit == 0 {
        *truncated = true;
        return;
    }
    let buffer_is_empty = buffer.as_str().is_empty();
    let separator_len: usize = if buffer_is_empty {
        0
    } else {
        1
    };
    let used = buffer.as_str().as_bytes().len();
    let available: usize = if limit >= used && limit - used >= separator_len {
        limit - used - separator_len
    } else {
        0
    };
    let line_len = line.as_bytes().len();
    if limit >= used && limit - used >= separator_len && line_len <= available {
        if separator_len != 0 {
            push_char(buffer, '\n');
        }
        buffer.append(line);
        return;
    }
    if separator_len != 0 && available != 0 {
        push_char(buffer, '\n');
    }
    let max_end: usize = if available >= separator_len {
        available - separator_len
    } else {
        0
    };
    let chars = chars_of(line);
    let mut k: usize = 0;
    let mut used_line: usize = 0;
    proof {
        assert(line@.subrange(0, line@.len() as int) =~= line@);
        assert(chars@.subrange(0, 0) =~= Seq::<char>::empty());
        lemma_utf8_len_empty();
    }
    while k < chars.len() && char_width(chars[k]) <= max_end - used_line
        invariant
            k <= chars.len(),
            chars@ == line@,
            used_line <= max_end,
            used_line == utf8_len(chars@.subrange(0, k as int)),
            fitting_chars(line@, max_end as nat) == k + fitting_chars(
                line@.subrange(k as int, line@.len() as int),
                (max_end - used_line) as nat,
            ),
        decreases chars.len() - k,
    {
        proof {
            let rest = line@.subrange(k as int, line@.len() as int);
            assert(rest[0] == chars@[k as int]);
            assert(rest.drop_first() =~= line@.subrange(k + 1, line@.len() as int));
            lemma_utf8_len_push(chars@.subrange(0, k as int), chars@[k as int]);
            assert(chars@.subrange(0, k + 1) =~= chars@.subrange(0, k as int).push(chars@[k as int]));
        }
        used_line = used_line + char_width(chars[k]);
        k = k + 1;
    }
    proof {
        let rest = line@.subrange(k as int, line@.len() as int);
        if k < chars.len() {
            assert(rest[0] == chars@[k as int]);
        } else {
            assert(rest.len() == 0);
        }
        assert(line@.subrange(0, line@.len() as int) =~= line@);
    }
    let piece = string_from_range(&chars, 0, k);
    buffer.append(piece.as_str());
    *truncated = true;
}

/// Captured output stays within its limit: appending never grows a buffer
/// past `limit` bytes.
pub proof fn lemma_bounded_append_within_limit(buffer: Seq<char>, line: Seq<char>, limit: nat, truncated: bool)
    requires
        utf8_len(buffer) <= limit,
    ensures
        utf8_len(bounded_append(buffer, line, limit, truncated).0) <= limit,
{
    if !(truncated || limit == 0) {
        let sep: nat = if buffer.len() > 0 {
            1
        } else {
            0
        };
        let available: nat = if limit >= utf8_len(buffer) + sep {
            (limit - utf8_len(buffer) - sep) as nat
        } else {
            0
        };
        lemma_utf8_len_push(buffer, '\n');
        assert(char_utf8_width('\n') == 1);
        if utf8_len(buffer) + sep + utf8_len(line) <= limit {
            if sep == 1 {
                lemma_utf8_len_concat(buffer.push('\n'), line);
            } else {
                lemma_utf8_len_concat(buffer, line);
            }
        } else {
            let head = if sep == 1 && available != 0 {
                buffer.push('\n')
            } else {
                buffer
            };
            let max_end: nat = if available >= sep {
                (available - sep) as nat
            } else {
                0
            };
            lemma_fitting_chars(line, max_end);
            lemma_utf8_len_concat(head, line.subrange(0, fitting_chars(line, max_end) as int));
        }
    }
}

/// Once a buffer is truncated, later lines leave it unchanged.
pub proof fn lemma_truncated_buffer_is_frozen(buffer: Seq<char>, line: Seq<char>, limit: nat)
    ensures
        bounded_append(buffer, line, limit, true) == (buffer, true),
{
}

/// Appending only extends the buffer: what was captured stays a prefix.
pub proof fn lemma_bounded_append_extends(buffer: Seq<char>, line: Seq<char>, limit: nat, truncated: bool)
    ensures
        buffer.len() <= bounded_append(buffer, line, limit, truncated).0.len(),
        bounded_append(buffer, line, limit, truncated).0.subrange(0, buffer.len() as int) == buffer,
{
    let r = bounded_append(buffer, line, limit, truncated).0;
    assert(r.subrange(0, buffer.len() as int) =~= buffer);
}

/// The exit of a subprocess: whether it succeeded, and how its status prints.
#[derive(Debug)]
pub struct ExitReport {
    pub success: bool,
    pub description: String,
}

/// What the runner knows of a running subprocess: its exit, which streams
/// have closed, and the output captured so far.
#[derive(Debug)]
pub struct OutputCapture {
    pub limit: usize,
    pub exit: Option<ExitReport>,
    pub stdout_closed: bool,
    pub stderr_closed: bool,
    pub stdout: String,
    pub stderr: String,
    pub stdout_truncated: bool,
    pub stderr_truncated: bool,
}

impl OutputCapture {
    pub fn new(limit: usize) -> (c: Self)
        ensures
            c.limit == limit,
            c.exit is None,
            !c.stdout_closed,
            !c.stderr_closed,
            c.stdout@ == Seq::<char>::empty(),
            c.stderr@ == Seq::<char>::empty(),
            !c.stdout_truncated,
            !c.stderr_truncated,
    {
        OutputCapture {
            limit,
            exit: None,
            stdout_closed: false,
            stderr_closed: false,
            stdout: String::new(),
            stderr: String::new(),
            stdout_truncated: false,
            stderr_truncated: false,
        }
    }

    /// The runner keeps waiting while the process has not exited or one
    /// of its streams is still open.
    pub open spec fn running(&self) -> bool {
        self.exit is None || !self.stdout_closed || !self.stderr_closed
    }

    pub fn is_running(&self) -> (b: bool)
        ensures
            b == self.running(),
    {
        self.exit.is_none() || !self.stdout_closed || !self.stderr_closed
    }

    /// Records a line of `stream`, and gives the level at which it is logged.
    pub fn record_line(&mut self, stream: OutputStream, line: &str) -> (level: LogLevel)
        ensures
            level == stream_log_level(stream),
            final(self).limit == old(self).limit,
            final(self).exit == old(self).exit,
            final(self).stdout_closed == old(self).stdout_closed,
            final(self).stderr_closed == old(self).stderr_closed,
            stream == OutputStream::Stdout ==> (final(self).stdout@, final(self).stdout_truncated)
                == bounded_append(
                old(self).stdout@,
                line@,
                old(self).limit as nat,
                old(self).stdout_truncated,
            ) && final(self).stderr == old(self).stderr && final(self).stderr_truncated == old(
                self,
            ).stderr_truncated,
            stream == OutputStream::Stderr ==> (final(self).stderr@, final(self).stderr_truncated)
                == bounded_append(
                old(self).stderr@,
                line@,
                old(self).limit as nat,
                old(self).stderr_truncated,
            ) && final(self).stdout == old(self).stdout && final(self).stdout_truncated == old(
                self,
            ).stdout_truncated,
    {
        match stream {
            OutputStream::Stdout => append_bounded(
                &mut self.stdout,
                line,
                self.limit,
                &mut self.stdout_truncated,
            ),
            OutputStream::Stderr => append_bounded(
                &mut self.stderr,
                line,
                self.limit,
                &mut self.stderr_truncated,
            ),
        }
        stream.log_level()
    }

    /// Records that `stream` has ended.
    pub fn record_closed(&mut self, stream: OutputStream)
        ensures
            final(self).limit == old(self).limit,
            final(self).exit == old(self).exit,
            final(self).stdout_closed == (old(self).stdout_closed || stream == OutputStream::Stdout),
            final(self).stderr_closed == (old(self).stderr_closed || stream == OutputStream::Stderr),
            final(self).stdout == old(self).stdout,
            final(self).stderr == old(self).stderr,
            final(self).stdout_truncated == old(self).stdout_truncated,
            final(self).stderr_truncated == old(self).stderr_truncated,
    {
        match stream {
            OutputStream::Stdout => self.stdout_closed = true,
            OutputStream::Stderr => self.stderr_closed = true,
        }
    }

    /// Records that no reader is left: both streams count as ended.
    pub fn record_readers_gone(&mut self)
        ensures
            final(self).limit == old(self).limit,
            final(self).exit == old(self).exit,
            final(self).stdout_closed,
            final(self).stderr_closed,
            final(self).stdout == old(self).stdout,
            final(self).stderr == old(self).stderr,
            final(self).stdout_truncated == old(self).stdout_truncated,
            final(self).stderr_truncated == old(self).stderr_truncated,
    {
        self.stdout_closed = true;
        self.stderr_closed = true;
    }

    /// Records the exit of the process.
    pub fn record_exit(&mut self, success: bool, description: String)
        ensures
            final(self).limit == old(self).limit,
            final(self).exit matches Some(e) && e.success == success && e.description
                == description,
            final(self).stdout_closed == old(self).stdout_closed,
            final(self).stderr_closed == old(self).stderr_closed,
            final(self).stdout == old(self).stdout,
            final(self).stderr == old(self).stderr,
            final(self).stdout_truncated == old(self).stdout_truncated,
            final(self).stderr_truncated == old(self).stderr_truncated,
    {
        self.exit = Some(ExitReport { success, description });
    }

    /// The outcome once the process has exited and its streams have ended:
    /// a cancellation wins, then a failed exit, and otherwise the captured
    /// stdout and stderr.
    pub fn finish(self, module: &str, cancelled: bool) -> (r: Result<(String, String), ProcessError>)
        requires
            !self.running(),
        ensures
            cancelled ==> (r matches Err(ProcessError::Cancelled { module: m }) && m@ == module@),
            !cancelled && !self.exit->0.success ==> (r matches Err(
                ProcessError::Failed { module: m, status, stdout, stderr },
            ) && m@ == module@ && status == self.exit->0.description && stdout == self.stdout
                && stderr == self.stderr),
            !cancelled && self.exit->0.success ==> r == Ok::<(String, String), ProcessError>(
                (self.stdout, self.stderr),
            ),
    {
        if cancelled {
            return Err(ProcessError::Cancelled { module: String::from_str(module) });
        }
        let OutputCapture { exit, stdout, stderr, .. } = self;
        match exit {
            Some(report) => {
                if !report.success {
                    return Err(
                        ProcessError::Failed {
                            module: String::from_str(module),
                            status: report.description,
                            stdout,
                            stderr,
                        },
                    );
                }
                Ok((stdout, stderr))
            },
            None => Err(ProcessError::Cancelled { module: String::from_str(module) }),
        }
    }
}

/// The captured output of each stream stays within the limit after any
/// line, when it was within the limit before.
pub proof fn lemma_capture_stays_bounded(
    before: OutputCapture,
    after: OutputCapture,
    stream: OutputStream,
    line: Seq<char>,
)
    requires
        utf8_len(before.stdout@) <= before.limit,
        utf8_len(before.stderr@) <= before.limit,
        after.limit == before.limit,
        stream == OutputStream::Stdout ==> (after.stdout@, after.stdout_truncated) == bounded_append(
            before.stdout@,
            line,
            before.limit as nat,
            before.stdout_truncated,
        ) && after.stderr == before.stderr,
        stream == OutputStream::Stderr ==> (after.stderr@, after.stderr_truncated) == bounded_append(
            before.stderr@,
            line,
            before.limit as nat,
            before.stderr_truncated,
        ) && after.stdout == before.stdout,
    ensures
        utf8_len(after.stdout@) <= after.limit,
        utf8_len(after.stderr@) <= after.limit,
{
    lemma_bounded_append_within_limit(before.stdout@, line, before.limit as nat, before.stdout_truncated);
    lemma_bounded_append_within_limit(before.stderr@, line, before.limit as nat, before.stderr_truncated);
}

} // verus!
