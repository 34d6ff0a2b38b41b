//! Running the Ookla Speedtest command-line tool: the command line to start it with,
//! and what its exit status and output mean.
use vstd::prelude::*;

use crate::opt_view;

verus! {

broadcast use vstd::string::group_string_axioms;

/// Why a speedtest produced no result.
#[derive(Debug, Clone)]
pub enum SpeedtestError {
    /// The tool could not be started, or it exited with a failure status.
    ExecutionFailed(String),
    /// The tool's result line is not the expected JSON document.
    ParseFailed(String),
    /// The tool wrote nothing on its standard output.
    EmptyOutput,
}

impl SpeedtestError {
    /// The human-readable description of the error.
    pub open spec fn message(&self) -> Seq<char> {
        match self {
            SpeedtestError::ExecutionFailed(m) => "speedtest execution failed: "@ + m@,
            SpeedtestError::ParseFailed(m) => "failed to parse speedtest output: "@ + m@,
            SpeedtestError::EmptyOutput => "speedtest produced empty output"@,
        }
    }

    /// The detail that the error carries, if any.
    pub open spec fn detail(&self) -> Option<Seq<char>> {
        match self {
            SpeedtestError::ExecutionFailed(m) => Some(m@),
            SpeedtestError::ParseFailed(m) => Some(m@),
            SpeedtestError::EmptyOutput => None,
        }
    }

    /// Writes the human-readable description of the error.
    pub fn to_string(&self) -> (r: String)
        ensures
            r@ == self.message(),
    {
        match self {
            SpeedtestError::ExecutionFailed(m) => String::from_str(
                "speedtest execution failed: ",
            ).concat(m.as_str()),
            SpeedtestError::ParseFailed(m) => String::from_str(
                "failed to parse speedtest output: ",
            ).concat(m.as_str()),
            SpeedtestError::EmptyOutput => String::from_str("speedtest produced empty output"),
        }
    }
}

/// The description of an error ends with the detail that the error carries.
pub proof fn lemma_message_ends_with_detail(e: SpeedtestError)
    requires
        e.detail() is Some,
    ensures
        e.message().len() >= e.detail()->0.len(),
        e.message().subrange(
            e.message().len() - e.detail()->0.len(),
            e.message().len() as int,
        ) == e.detail()->0,
{
    let m = e.message();
    let d = e.detail()->0;
    assert(m.subrange(m.len() - d.len(), m.len() as int) =~= d);
}

/// Runs the Ookla Speedtest command-line tool, optionally against one pinned server.
pub struct OoklaCliRunner {
    server_id: Option<String>,
}

/// The command line that starts a speedtest: the program, the flags that accept the
/// licence and ask for JSON output, and the pinned server when there is one.
pub open spec fn speedtest_command(server_id: Option<Seq<char>>) -> Seq<Seq<char>> {
    let base = seq!["speedtest"@, "--accept-license"@, "--format=json"@];
    match server_id {
        Some(id) => base + seq!["--server-id"@, id],
        None => base,
    }
}

/// Every command line starts with the program and its two fixed flags; a pinned server,
/// whatever its id, adds exactly `--server-id` and that id, and without one nothing follows.
pub proof fn lemma_command_pins_any_server(server_id: Option<Seq<char>>)
    ensures
        speedtest_command(server_id).len() >= 3,
        speedtest_command(server_id)[0] == "speedtest"@,
        speedtest_command(server_id)[1] == "--accept-license"@,
        speedtest_command(server_id)[2] == "--format=json"@,
        server_id is None ==> speedtest_command(server_id).len() == 3,
        server_id matches Some(id) ==> (speedtest_command(server_id).len() == 5
            && speedtest_command(server_id)[3] == "--server-id"@ && speedtest_command(
            server_id,
        )[4] == id),
{
}

impl OoklaCliRunner {
    /// The server that speedtests are pinned to, if any.
    pub closed spec fn server_id(&self) -> Option<Seq<char>> {
        opt_view(self.server_id)
    }

    /// A runner that pins its speedtests to `server_id` when it is given.
    pub fn new(server_id: Option<String>) -> (r: Self)
        ensures
            r.server_id() == opt_view(server_id),
    {
        OoklaCliRunner { server_id }
    }

    /// The program and arguments of one speedtest run.
    pub fn command_line(&self) -> (r: Vec<String>)
        ensures
            r.deep_view() == speedtest_command(self.server_id()),
            r@.len() >= 3,
            r@[0]@ == "speedtest"@,
            r@[1]@ == "--accept-license"@,
            r@[2]@ == "--format=json"@,
            self.server_id() is None ==> r@.len() == 3,
            self.server_id() matches Some(id) ==> (r@.len() == 5 && r@[3]@ == "--server-id"@
                && r@[4]@ == id),
    {
        proof {
            lemma_command_pins_any_server(self.server_id());
        }
        let mut args: Vec<String> = Vec::new();
        args.push(String::from_str("speedtest"));
        args.push(String::from_str("--accept-license"));
        args.push(String::from_str("--format=json"));
        if let Some(id) = &self.server_id {
            args.push(String::from_str("--server-id"));
            args.push(id.clone());
        }
        assert(args.deep_view() =~= speedtest_command(self.server_id()));
        args
    }
}

/// The text that `String::from_utf8_lossy` makes of `bytes`.
pub uninterp spec fn utf8_lossy(bytes: Seq<u8>) -> Seq<char>;

/// Calls `String::from_utf8_lossy` and takes the text out of the `Cow` it returns. The
/// contract names the result, and states what the documentation says of valid input:
/// valid UTF-8 is decoded unchanged. It says nothing of how invalid input is replaced.
#[verifier::external_body]
fn decode_lossy(bytes: &[u8]) -> (r: String)
    ensures
        r@ == utf8_lossy(bytes@),
        vstd::utf8::valid_utf8(bytes@) ==> r@ == vstd::utf8::decode_utf8(bytes@),
{
    String::from_utf8_lossy(bytes).into_owned()
}

/// Where the line that holds position `s.len()` starts: just after the last line feed of
/// `s`, or at 0 when there is none.
pub open spec fn line_start(s: Seq<char>) -> int
    decreases s.len(),
{
    if s.len() == 0 {
        0
    } else if s.last() == '\n' {
        s.len() as int
    } else {
        line_start(s.drop_last())
    }
}

/// The last of the lines of `s`, as `s.lines().last()` gives it: lines end at a line
/// feed, which is not part of the line, nor is a carriage return just before it; a
/// final line feed ends the last line and starts no new one; empty text has no lines.
pub open spec fn last_line_of(s: Seq<char>) -> Option<Seq<char>> {
    if s.len() == 0 {
        None
    } else if s.last() == '\n' {
        let body = s.drop_last();
        let line = body.subrange(line_start(body), body.len() as int);
        if line.len() > 0 && line.last() == '\r' {
            Some(line.drop_last())
        } else {
            Some(line)
        }
    } else {
        Some(s.subrange(line_start(s), s.len() as int))
    }
}

proof fn lemma_line_start_bounds(s: Seq<char>)
    ensures
        0 <= line_start(s) <= s.len(),
    decreases s.len(),
{
    if s.len() > 0 && s.last() != '\n' {
        lemma_line_start_bounds(s.drop_last());
    }
}

/// No line feed follows the start of the last line.
proof fn lemma_no_line_feed_after_start(s: Seq<char>)
    ensures
        0 <= line_start(s) <= s.len(),
        forall|i: int| line_start(s) <= i < s.len() ==> s[i] != '\n',
    decreases s.len(),
{
    if s.len() > 0 && s.last() != '\n' {
        let t = s.drop_last();
        lemma_no_line_feed_after_start(t);
        assert forall|i: int| line_start(s) <= i < s.len() implies s[i] != '\n' by {
            if i < t.len() {
                assert(s[i] == t[i]);
            }
        }
    }
}

/// The last line never holds a line feed.
pub proof fn lemma_last_line_has_no_line_feed(s: Seq<char>)
    requires
        last_line_of(s) is Some,
    ensures
        !last_line_of(s)->0.contains('\n'),
{
    if s.last() == '\n' {
        lemma_no_line_feed_after_start(s.drop_last());
    } else {
        lemma_no_line_feed_after_start(s);
    }
}

/// The line that starts after `p` (empty, or ending with a line feed) and holds no line
/// feed runs to the end of `p + l`.
proof fn lemma_line_start_after_prefix(p: Seq<char>, l: Seq<char>)
    requires
        p.len() == 0 || p.last() == '\n',
        !l.contains('\n'),
    ensures
        line_start(p + l) == p.len(),
    decreases l.len(),
{
    if l.len() == 0 {
        assert(p + l =~= p);
    } else {
        assert((p + l).drop_last() =~= p + l.drop_last());
        assert((p + l).last() == l.last());
        assert(l.last() == l[l.len() - 1]);
        assert(!l.drop_last().contains('\n')) by {
            if l.drop_last().contains('\n') {
                let i = choose|i: int| 0 <= i < l.drop_last().len() && l.drop_last()[i] == '\n';
                assert(l[i] == '\n');
            }
        }
        lemma_line_start_after_prefix(p, l.drop_last());
    }
}

/// Whatever precedes it (nothing, or text ending with a line feed) and however long it is,
/// a line `l` without line feeds is read back whole as the last line when it ends the text
/// unterminated (and is non-empty), or is terminated by `"\n"` (and does not itself end in
/// a carriage return), or by `"\r\n"`.
pub proof fn lemma_last_line_is_whole_final_line(p: Seq<char>, l: Seq<char>, t: Seq<char>)
    requires
        p.len() == 0 || p.last() == '\n',
        !l.contains('\n'),
        (t == Seq::<char>::empty() && l.len() > 0) || (t == seq!['\n'] && (l.len() == 0
            || l.last() != '\r')) || t == seq!['\r', '\n'],
    ensures
        last_line_of(p + l + t) == Some(l),
{
    let s = p + l + t;
    if t.len() == 0 {
        assert(s =~= p + l);
        lemma_line_start_after_prefix(p, l);
        assert(s.last() == l[l.len() - 1]);
        assert(l.contains(l[l.len() - 1]));
        assert(s.subrange(p.len() as int, s.len() as int) =~= l);
    } else if t == seq!['\n'] {
        assert(s.last() == '\n');
        assert(s.drop_last() =~= p + l);
        lemma_line_start_after_prefix(p, l);
        assert((p + l).subrange(p.len() as int, (p + l).len() as int) =~= l);
    } else {
        let lr = l.push('\r');
        assert(s.last() == '\n');
        assert(s.drop_last() =~= p + lr);
        assert(!lr.contains('\n')) by {
            if lr.contains('\n') {
                let i = choose|i: int| 0 <= i < lr.len() && lr[i] == '\n';
                if i < l.len() {
                    assert(l[i] == '\n');
                }
            }
        }
        lemma_line_start_after_prefix(p, lr);
        assert((p + lr).subrange(p.len() as int, (p + lr).len() as int) =~= lr);
        assert(lr.drop_last() =~= l);
    }
}

/// Text has a last line exactly when it is not empty.
pub proof fn lemma_last_line_exists_iff_nonempty(s: Seq<char>)
    ensures
        last_line_of(s) is Some <==> s.len() > 0,
{
}

/// The last line of `text`, as `text.lines().last()` gives it.
pub fn last_line(text: &str) -> (r: Option<String>)
    ensures
        opt_view(r) == last_line_of(text@),
{
    let n = text.unicode_len();
    let ghost s = text@;
    let mut pos: usize = 0;
    let mut start: usize = 0;
    let mut prev_start: usize = 0;
    let mut last: char = ' ';
    for c in iter: text.chars()
        invariant
            s == text@,
            n == s.len(),
            iter.seq() == s,
            pos == iter.index(),
            pos <= n,
            start as int == line_start(s.take(pos as int)),
            start <= pos,
            pos > 0 ==> prev_start as int == line_start(s.take(pos - 1)),
            prev_start <= pos,
            pos > 0 ==> last == s[pos - 1],
    {
        assert(c == s[pos as int]);
        assert(s.take(pos + 1).drop_last() =~= s.take(pos as int));
        prev_start = start;
        if c == '\n' {
            start = pos + 1;
        }
        last = c;
        pos = pos + 1;
    }
    assert(s.take(n as int) =~= s);
    if n == 0 {
        return None;
    }
    if last == '\n' {
        assert(s.take(n - 1) =~= s.drop_last());
        proof { lemma_line_start_bounds(s.drop_last()); }
        let line = text.substring_char(prev_start, n - 1);
        let len = n - 1 - prev_start;
        if len > 0 && line.get_char(len - 1) == '\r' {
            let trimmed = line.substring_char(0, len - 1);
            assert(trimmed@ =~= line@.drop_last());
            Some(String::from_str(trimmed))
        } else {
            Some(String::from_str(line))
        }
    } else {
        Some(String::from_str(text.substring_char(start, n)))
    }
}

/// What a finished speedtest run means, given whether the tool exited successfully and
/// what it wrote: a failure status gives `ExecutionFailed` with the standard error text;
/// otherwise empty standard output gives `EmptyOutput`, and any other output gives its
/// last line, the JSON result document to be parsed.
pub fn interpret_output(succeeded: bool, stdout: &[u8], stderr: &[u8]) -> (r: Result<
    String,
    SpeedtestError,
>)
    ensures
        !succeeded ==> (r matches Err(SpeedtestError::ExecutionFailed(m)) && m@ == utf8_lossy(
            stderr@,
        )),
        succeeded ==> (last_line_of(utf8_lossy(stdout@)) is None <==> r matches Err(
            SpeedtestError::EmptyOutput,
        )),
        succeeded ==> (last_line_of(utf8_lossy(stdout@)) matches Some(line) ==> (r matches Ok(
            l,
        ) && l@ == line)),
        succeeded && vstd::utf8::valid_utf8(stdout@) ==> utf8_lossy(stdout@)
            == vstd::utf8::decode_utf8(stdout@),
        !succeeded && vstd::utf8::valid_utf8(stderr@) ==> utf8_lossy(stderr@)
            == vstd::utf8::decode_utf8(stderr@),
{
    if !succeeded {
        return Err(SpeedtestError::ExecutionFailed(decode_lossy(stderr)));
    }
    let text = decode_lossy(stdout);
    match last_line(text.as_str()) {
        Some(line) => Ok(line),
        None => Err(SpeedtestError::EmptyOutput),
    }
}

} // verus!
