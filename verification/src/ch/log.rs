//! What is done with the output of the hypervisor process.
use vstd::prelude::*;

use crate::text;

verus! {

/// Severity of a line of output.
#[derive(Debug, Clone, Copy, PartialEq, Eq, Structural)]
pub enum CloudHypervisorLogLevel {
    Trace,
    Debug,
    Info,
    Warn,
    Error,
}

/// A level tag: four letters and a colon.
pub open spec fn tag(a: char, b: char, c: char, d: char) -> Seq<char> {
    seq![a, b, c, d, ':']
}

/// The level of the tag at the start of `line`, if there is one.
pub open spec fn level_tag(line: Seq<char>) -> Option<CloudHypervisorLogLevel> {
    if text::stands_in(line, 0, tag('I', 'N', 'F', 'O')) {
        Some(CloudHypervisorLogLevel::Info)
    } else if text::stands_in(line, 0, tag('D', 'E', 'B', 'G')) {
        Some(CloudHypervisorLogLevel::Debug)
    } else if text::stands_in(line, 0, tag('W', 'A', 'R', 'N')) {
        Some(CloudHypervisorLogLevel::Warn)
    } else if text::stands_in(line, 0, tag('E', 'R', 'R', 'O')) {
        Some(CloudHypervisorLogLevel::Error)
    } else if text::stands_in(line, 0, tag('T', 'R', 'C', 'E')) {
        Some(CloudHypervisorLogLevel::Trace)
    } else {
        None
    }
}

/// The level of the first tag in `line`; `Info` where there is none.
pub open spec fn level_of(line: Seq<char>) -> CloudHypervisorLogLevel
    decreases line.len(),
{
    if line.len() == 0 {
        CloudHypervisorLogLevel::Info
    } else {
        match level_tag(line) {
            Some(level) => level,
            None => level_of(line.skip(1)),
        }
    }
}

/// Whether the tag stands at `i`.
fn has_tag(line: &Vec<char>, i: usize, a: char, b: char, c: char, d: char) -> (r: bool)
    requires
        i < line@.len(),
    ensures
        r == text::stands_in(line@.skip(i as int), 0, tag(a, b, c, d)),
{
    let ghost rest = line@.skip(i as int);
    let r: bool = line.len() - i >= 5 && line[i] == a && line[i + 1] == b && line[i + 2] == c
        && line[i + 3] == d && line[i + 4] == ':';
    proof {
        if rest.len() >= 5 {
            let s = rest.subrange(0, 5);
            assert(s[0] == line@[i as int] && s[1] == line@[i + 1] && s[2] == line@[i + 2] && s[3]
                == line@[i + 3] && s[4] == line@[i + 4]);
            if r {
                assert(s =~= tag(a, b, c, d));
            } else if s == tag(a, b, c, d) {
                assert(tag(a, b, c, d)[0] == a && tag(a, b, c, d)[1] == b && tag(a, b, c, d)[2] == c
                    && tag(a, b, c, d)[3] == d && tag(a, b, c, d)[4] == ':');
            }
        }
    }
    r
}

/// The level of the tag at `i`, if there is one.
fn tag_at(line: &Vec<char>, i: usize) -> (r: Option<CloudHypervisorLogLevel>)
    requires
        i < line@.len(),
    ensures
        r == level_tag(line@.skip(i as int)),
{
    if has_tag(line, i, 'I', 'N', 'F', 'O') {
        Some(CloudHypervisorLogLevel::Info)
    } else if has_tag(line, i, 'D', 'E', 'B', 'G') {
        Some(CloudHypervisorLogLevel::Debug)
    } else if has_tag(line, i, 'W', 'A', 'R', 'N') {
        Some(CloudHypervisorLogLevel::Warn)
    } else if has_tag(line, i, 'E', 'R', 'R', 'O') {
        Some(CloudHypervisorLogLevel::Error)
    } else if has_tag(line, i, 'T', 'R', 'C', 'E') {
        Some(CloudHypervisorLogLevel::Trace)
    } else {
        None
    }
}

/// The level of the first tag in `line`; `Info` where there is none.
fn first_level(line: &Vec<char>) -> (r: CloudHypervisorLogLevel)
    ensures
        r == level_of(line@),
{
    let mut i: usize = 0;
    assert(line@.skip(0) =~= line@);
    while i < line.len()
        invariant
            i <= line@.len(),
            level_of(line@) == level_of(line@.skip(i as int)),
        decreases line@.len() - i,
    {
        let found: Option<CloudHypervisorLogLevel> = tag_at(line, i);
        match found {
            Some(level) => {
                return level;
            },
            None => {},
        }
        assert(line@.skip(i as int).skip(1) =~= line@.skip(i + 1));
        i = i + 1;
    }
    CloudHypervisorLogLevel::Info
}

/// The level of the first tag in `line`; `Info` where there is none, since logging cannot fail.
pub fn parse_ch_log_level(line: &str) -> (r: CloudHypervisorLogLevel)
    ensures
        r == level_of(line@),
{
    let line = text::chars_of(line);
    first_level(&line)
}

/// The level under which a line of output is logged. The messages of a failed restore carry no
/// tag: they count as errors.
pub open spec fn line_level(line: Seq<char>) -> CloudHypervisorLogLevel {
    if text::contains_text(line, "Fatal error"@) || text::contains_text(line, "ERROR:"@) {
        CloudHypervisorLogLevel::Error
    } else {
        level_of(line)
    }
}

/// The level under which a line of output is logged.
pub fn classify_line(line: &str) -> (r: CloudHypervisorLogLevel)
    ensures
        r == line_level(line@),
{
    let chars = text::chars_of(line);
    let fatal = text::chars_of("Fatal error");
    let error = text::chars_of("ERROR:");
    if text::contains(&chars, &fatal) || text::contains(&chars, &error) {
        CloudHypervisorLogLevel::Error
    } else {
        first_level(&chars)
    }
}

/// An output stream of the hypervisor process.
#[derive(Debug, Clone, Copy, PartialEq, Eq, Structural)]
pub enum OutputStream {
    Stdout,
    Stderr,
}

/// What the output logger waits for.
#[derive(Debug, Clone, PartialEq, Eq)]
pub enum LogEvent {
    /// A shutdown has been requested.
    Shutdown,
    /// A line of output.
    Line(OutputStream, String),
    /// The stream has ended.
    Eof(OutputStream),
    /// The stream could not be read.
    ReadError(OutputStream),
}

/// What the output logger does next.
#[derive(Debug, Clone, Copy, PartialEq, Eq, Structural)]
pub enum LogAction {
    /// Log the line under this level, then go on.
    Log(CloudHypervisorLogLevel),
    /// Go on.
    Continue,
    /// Stop logging, then kill the process, wait for it and pass on its exit code.
    Stop,
}

/// What the output logger does on an event. It stops on a shutdown request and when standard error
/// ends or fails: then the process has probably exited. Standard output may end at any time.
pub open spec fn action_on(event: LogEvent) -> LogAction {
    match event {
        LogEvent::Shutdown => LogAction::Stop,
        LogEvent::Line(_, line) => LogAction::Log(line_level(line@)),
        LogEvent::Eof(OutputStream::Stderr) => LogAction::Stop,
        LogEvent::ReadError(OutputStream::Stderr) => LogAction::Stop,
        LogEvent::Eof(OutputStream::Stdout) => LogAction::Continue,
        LogEvent::ReadError(OutputStream::Stdout) => LogAction::Continue,
    }
}

/// What the output logger does on an event.
pub fn cloud_hypervisor_log_output(event: &LogEvent) -> (r: LogAction)
    ensures
        r == action_on(*event),
{
    match event {
        LogEvent::Shutdown => LogAction::Stop,
        LogEvent::Line(_, line) => LogAction::Log(classify_line(line.as_str())),
        LogEvent::Eof(stream) => match stream {
            OutputStream::Stderr => LogAction::Stop,
            OutputStream::Stdout => LogAction::Continue,
        },
        LogEvent::ReadError(stream) => match stream {
            OutputStream::Stderr => LogAction::Stop,
            OutputStream::Stdout => LogAction::Continue,
        },
    }
}

/// The exit code to pass on after the process was waited for: zero where a signal ended it, and
/// none where waiting failed.
pub fn exit_code(status: Option<Option<i32>>) -> (r: Option<i32>)
    ensures
        r == match status {
            None => None,
            Some(None) => Some(0i32),
            Some(Some(code)) => Some(code),
        },
{
    match status {
        None => None,
        Some(None) => Some(0),
        Some(Some(code)) => Some(code),
    }
}

/// The first tag decides: what follows it plays no part.
pub proof fn law_first_tag_wins(before: Seq<char>, tagged: Seq<char>, after: Seq<char>)
    requires
        tagged.len() == 5,
        level_tag(tagged) is Some,
        forall|i: int| 0 <= i < before.len() ==> level_tag(
            (before + tagged + after).skip(i),
        ) is None,
    ensures
        level_of(before + tagged + after) == level_tag(tagged)->0,
    decreases before.len(),
{
    let whole = before + tagged + after;
    if before.len() == 0 {
        assert(whole =~= tagged + after);
        assert(whole.subrange(0, 5) =~= tagged.subrange(0, 5));
    } else {
        let rest = before.skip(1);
        assert(whole.skip(0) =~= whole);
        assert(level_tag(whole.skip(0)) is None);
        assert(whole.skip(1) =~= rest + tagged + after);
        assert forall|i: int| 0 <= i < rest.len() implies level_tag(
            (rest + tagged + after).skip(i),
        ) is None by {
            assert((rest + tagged + after).skip(i) =~= whole.skip(i + 1));
        }
        law_first_tag_wins(rest, tagged, after);
    }
}

/// The five characters that mark a line as having a level.
pub open spec fn mark(level: CloudHypervisorLogLevel) -> Seq<char> {
    match level {
        CloudHypervisorLogLevel::Trace => seq!['T', 'R', 'C', 'E', ':'],
        CloudHypervisorLogLevel::Debug => seq!['D', 'E', 'B', 'G', ':'],
        CloudHypervisorLogLevel::Info => seq!['I', 'N', 'F', 'O', ':'],
        CloudHypervisorLogLevel::Warn => seq!['W', 'A', 'R', 'N', ':'],
        CloudHypervisorLogLevel::Error => seq!['E', 'R', 'R', 'O', ':'],
    }
}

/// Whether no mark of any level stands in front of `at`.
pub open spec fn unmarked_before(line: Seq<char>, at: int) -> bool {
    forall|j: int, level: CloudHypervisorLogLevel|
        0 <= j < at && j + 5 <= line.len() ==> #[trigger] line.subrange(j, j + 5) != #[trigger] mark(
            level,
        )
}

/// What a tag at the start of a text is.
proof fn lemma_tag(rest: Seq<char>)
    ensures
        level_tag(rest) matches Some(level) ==> rest.len() >= 5 && rest.subrange(0, 5) == mark(
            level,
        ),
        level_tag(rest) is None ==> forall|level: CloudHypervisorLogLevel|
            rest.len() >= 5 ==> rest.subrange(0, 5) != #[trigger] mark(level),
{
    assert(tag('I', 'N', 'F', 'O') =~= mark(CloudHypervisorLogLevel::Info));
    assert(tag('D', 'E', 'B', 'G') =~= mark(CloudHypervisorLogLevel::Debug));
    assert(tag('W', 'A', 'R', 'N') =~= mark(CloudHypervisorLogLevel::Warn));
    assert(tag('E', 'R', 'R', 'O') =~= mark(CloudHypervisorLogLevel::Error));
    assert(tag('T', 'R', 'C', 'E') =~= mark(CloudHypervisorLogLevel::Trace));
    if level_tag(rest) is None && rest.len() >= 5 {
        assert forall|level: CloudHypervisorLogLevel| rest.subrange(0, 5) != #[trigger] mark(
            level,
        ) by {
            match level {
                CloudHypervisorLogLevel::Trace => {},
                CloudHypervisorLogLevel::Debug => {},
                CloudHypervisorLogLevel::Info => {},
                CloudHypervisorLogLevel::Warn => {},
                CloudHypervisorLogLevel::Error => {},
            }
        }
    }
}

/// Two levels with one mark are one level.
proof fn lemma_marks_differ(a: CloudHypervisorLogLevel, b: CloudHypervisorLogLevel)
    requires
        mark(a) == mark(b),
    ensures
        a == b,
{
    assert(mark(a)[0] == mark(b)[0]);
}

/// A line has the level of the first mark in it, wherever it stands and whatever follows it, and is
/// information where there is no mark.
pub proof fn law_level_is_that_of_the_first_mark(
    line: Seq<char>,
    at: int,
    level: CloudHypervisorLogLevel,
)
    ensures
        0 <= at && at + 5 <= line.len() && line.subrange(at, at + 5) == mark(level)
            && unmarked_before(line, at) ==> level_of(line) == level,
        unmarked_before(line, line.len() as int) ==> level_of(line) is Info,
    decreases line.len(),
{
    lemma_tag(line);
    if line.len() > 0 {
        let rest = line.skip(1);
        law_level_is_that_of_the_first_mark(rest, at - 1, level);
        assert forall|j: int, other: CloudHypervisorLogLevel|
            0 <= j && j + 5 <= rest.len() && #[trigger] rest.subrange(j, j + 5) == #[trigger] mark(
                other,
            ) implies line.subrange(j + 1, j + 6) == mark(other) by {
            assert(line.subrange(j + 1, j + 6) =~= rest.subrange(j, j + 5));
        }
        if 0 <= at && at + 5 <= line.len() && line.subrange(at, at + 5) == mark(level)
            && unmarked_before(line, at) {
            if at == 0 {
                if level_tag(line) is Some {
                    lemma_marks_differ(level, level_tag(line)->0);
                }
            } else {
                if level_tag(line) is Some {
                    assert(line.subrange(0, 0int + 5) != mark(level_tag(line)->0));
                }
                assert(rest.subrange(at - 1, at + 4) =~= line.subrange(at, at + 5));
                assert(unmarked_before(rest, at - 1)) by {
                    assert forall|j: int, other: CloudHypervisorLogLevel|
                        0 <= j < at - 1 && j + 5 <= rest.len() implies #[trigger] rest.subrange(
                        j,
                        j + 5,
                    ) != #[trigger] mark(other) by {
                        assert(line.subrange(j + 1, (j + 1) + 5) != mark(other));
                    }
                }
            }
        }
        if unmarked_before(line, line.len() as int) {
            if level_tag(line) is Some {
                assert(line.subrange(0, 0int + 5) != mark(level_tag(line)->0));
            }
            assert(unmarked_before(rest, rest.len() as int)) by {
                assert forall|j: int, other: CloudHypervisorLogLevel|
                    0 <= j < rest.len() && j + 5 <= rest.len() implies #[trigger] rest.subrange(
                    j,
                    j + 5,
                ) != #[trigger] mark(other) by {
                    assert(line.subrange(j + 1, (j + 1) + 5) != mark(other));
                }
            }
        }
    }
}

/// A line that says `Fatal error` or `ERROR:` anywhere is an error, whatever its mark; any other has
/// the level of its mark.
pub proof fn law_failed_restores_are_errors(
    before: Seq<char>,
    rest: Seq<char>,
    line: Seq<char>,
)
    ensures
        line_level(before + "Fatal error"@ + rest) is Error,
        line_level(before + "ERROR:"@ + rest) is Error,
        line_level(line) != level_of(line) ==> line_level(line) is Error && (text::contains_text(
            line,
            "Fatal error"@,
        ) || text::contains_text(line, "ERROR:"@)),
{
    text::law_contained_text_can_be_cut_out(before, "Fatal error"@, rest, line);
    text::law_contained_text_can_be_cut_out(before, "ERROR:"@, rest, line);
}

/// Logging stops on a request to shut down and at the end or failure of standard error, and on
/// nothing else. Every line is logged, from either stream.
pub proof fn law_logging_stops_only_for_cause(event: LogEvent)
    ensures
        action_on(event) is Stop <==> event is Shutdown || event == LogEvent::Eof(
            OutputStream::Stderr,
        ) || event == LogEvent::ReadError(OutputStream::Stderr),
        action_on(event) is Log <==> event is Line,
        event matches LogEvent::Line(_, line) ==> action_on(event) == LogAction::Log(
            line_level(line@),
        ),
{
}

} // verus!
