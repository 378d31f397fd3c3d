//! One-shot external commands: how they are shown and how their failures
//! are described.
use vstd::prelude::*;
use crate::log_entry::opt_view;
use crate::text::{chars_of, decimal, decode_lossy, is_whitespace, is_ws, join, join_strings, lines, push_char, push_decimal, push_decimal_u128, push_signed_decimal, signed_decimal, split_lines, string_from, sub_string, sviews, trim, trim_chars, utf8_lossy, vviews};

verus! {

/// Longest output excerpt kept in an error message, in characters.
pub const MAX_OUTPUT_CHARS: usize = 400;

/// The `Debug` rendering of a string: quoted, with escapes.
pub uninterp spec fn debug_quoted(s: Seq<char>) -> Seq<char>;

/// Calls `format!("{:?}", s)`, the `Debug` formatting of `str`. Claims only
/// that the text is a function of `s` (named by `debug_quoted`); the escape
/// rules are not stated.
#[verifier::external_body]
fn debug_quote(s: &str) -> (r: String)
    ensures
        r@ == debug_quoted(s@),
{
    format!("{:?}", s)
}

/// An external program run once, with a description of what it is for.
#[derive(Debug, Clone)]
pub struct OneShotCommand {
    program: String,
    args: Vec<String>,
    context: &'static str,
    timeout_secs: u64,
    timeout_subsec_nanos: u32,
}

/// An argument as shell-like display shows it: as is, or `Debug`-quoted
/// when it is empty or holds whitespace or a quote.
pub open spec fn rendered_arg(arg: Seq<char>) -> Seq<char> {
    if arg.len() == 0 || exists|i: int|
        0 <= i < arg.len() && (is_ws(#[trigger] arg[i]) || arg[i] == '"' || arg[i] == '\'') {
        debug_quoted(arg)
    } else {
        arg
    }
}

pub fn render_arg(arg: &str) -> (r: String)
    ensures
        r@ == rendered_arg(arg@),
{
    let cs = chars_of(arg);
    let mut needs = cs.len() == 0;
    let mut i: usize = 0;
    while i < cs.len()
        invariant
            i <= cs.len(),
            cs@ == arg@,
            needs == (cs.len() == 0 || exists|k: int|
                0 <= k < i && (is_ws(#[trigger] cs@[k]) || cs@[k] == '"' || cs@[k] == '\'')),
        decreases cs.len() - i,
    {
        let c = cs[i];
        if is_whitespace(c) || c == '"' || c == '\'' {
            needs = true;
        }
        i += 1;
    }
    if needs {
        debug_quote(arg)
    } else {
        arg.to_string()
    }
}

/// `Duration`'s value shown in whole seconds, else milliseconds, else nanoseconds.
pub open spec fn rendered_duration(secs: nat, nanos: nat) -> Seq<char> {
    if nanos == 0 {
        decimal(secs) + "s"@
    } else if secs * 1000 + nanos / 1_000_000 > 0 {
        decimal(secs * 1000 + nanos / 1_000_000) + "ms"@
    } else {
        decimal(nanos) + "ns"@
    }
}

/// Render a duration given as whole seconds and sub-second nanoseconds.
pub fn render_duration(secs: u64, subsec_nanos: u32) -> (r: String)
    requires
        subsec_nanos < 1_000_000_000,
    ensures
        r@ == rendered_duration(secs as nat, subsec_nanos as nat),
{
    let mut s = String::new();
    if subsec_nanos == 0 {
        push_decimal(&mut s, secs);
        s.append("s");
    } else {
        let millis: u128 = (secs as u128) * 1000 + (subsec_nanos / 1_000_000) as u128;
        if millis > 0 {
            push_decimal_u128(&mut s, millis);
            s.append("ms");
        } else {
            push_decimal(&mut s, subsec_nanos as u64);
            s.append("ns");
        }
    }
    s
}

/// The lines of `text`, each trimmed, joined by `" | "`.
pub open spec fn compacted(text: Seq<char>) -> Seq<char> {
    join(Seq::new(lines(text).len(), |i: int| trim(lines(text)[i])), " | "@)
}

/// Output shown in an error message: the trimmed text with its lines joined,
/// cut to `MAX_OUTPUT_CHARS` characters and an ellipsis; `None` when blank.
pub open spec fn output_excerpt(bytes: Seq<u8>) -> Option<Seq<char>> {
    let text = trim(utf8_lossy(bytes));
    if text.len() == 0 {
        None
    } else {
        let c = compacted(text);
        if c.len() > MAX_OUTPUT_CHARS {
            Some(c.take(MAX_OUTPUT_CHARS as int).push('…'))
        } else {
            Some(c)
        }
    }
}

pub fn trim_output(bytes: &[u8]) -> (r: Option<String>)
    ensures
        opt_view(r) == output_excerpt(bytes@),
{
    let decoded = decode_lossy(bytes);
    let cs = chars_of(decoded.as_str());
    let text = trim_chars(&cs);
    if text.len() == 0 {
        return None;
    }
    let ls = split_lines(&text);
    let mut trimmed: Vec<String> = Vec::new();
    let mut i: usize = 0;
    while i < ls.len()
        invariant
            i <= ls@.len(),
            vviews(ls@) == lines(text@),
            trimmed@.len() == i,
            forall|k: int| 0 <= k < i ==> #[trigger] trimmed@[k]@ == trim(lines(text@)[k]),
        decreases ls.len() - i,
    {
        assert(vviews(ls@)[i as int] == ls@[i as int]@);
        let t = trim_chars(&ls[i]);
        trimmed.push(string_from(&t));
        i += 1;
    }
    assert(sviews(trimmed@) =~= Seq::new(lines(text@).len(), |i: int| trim(lines(text@)[i])));
    let compact = join_strings(&trimmed, " | ");
    let cc = chars_of(compact.as_str());
    if cc.len() > MAX_OUTPUT_CHARS {
        let mut r = sub_string(&cc, 0, MAX_OUTPUT_CHARS);
        push_char(&mut r, '…');
        assert(cc@.subrange(0, MAX_OUTPUT_CHARS as int) =~= cc@.take(MAX_OUTPUT_CHARS as int));
        Some(r)
    } else {
        Some(compact)
    }
}

/// `stdout: …; stderr: …` for whichever streams have output.
pub open spec fn output_details(stdout: Seq<u8>, stderr: Seq<u8>) -> Option<Seq<char>> {
    match (output_excerpt(stdout), output_excerpt(stderr)) {
        (Some(o), Some(e)) => Some("stdout: "@ + o + "; stderr: "@ + e),
        (Some(o), None) => Some("stdout: "@ + o),
        (None, Some(e)) => Some("stderr: "@ + e),
        (None, None) => None,
    }
}

pub fn render_output_details(stdout: &[u8], stderr: &[u8]) -> (r: Option<String>)
    ensures
        opt_view(r) == output_details(stdout@, stderr@),
{
    match (trim_output(stdout), trim_output(stderr)) {
        (Some(o), Some(e)) => {
            let mut s = "stdout: ".to_string();
            s.append(o.as_str());
            s.append("; stderr: ");
            s.append(e.as_str());
            Some(s)
        },
        (Some(o), None) => {
            let mut s = "stdout: ".to_string();
            s.append(o.as_str());
            Some(s)
        },
        (None, Some(e)) => {
            let mut s = "stderr: ".to_string();
            s.append(e.as_str());
            Some(s)
        },
        (None, None) => None,
    }
}

impl OneShotCommand {
    pub closed spec fn program(&self) -> Seq<char> {
        self.program@
    }

    pub closed spec fn args(&self) -> Seq<Seq<char>> {
        sviews(self.args@)
    }

    pub closed spec fn context(&self) -> Seq<char> {
        self.context@
    }

    pub closed spec fn timeout_secs(&self) -> u64 {
        self.timeout_secs
    }

    pub closed spec fn timeout_subsec_nanos(&self) -> u32 {
        self.timeout_subsec_nanos
    }

    /// The command line as shown to users: program and arguments rendered
    /// and separated by spaces.
    pub open spec fn shown(&self) -> Seq<char> {
        join(
            seq![rendered_arg(self.program())] + Seq::new(
                self.args().len(),
                |i: int| rendered_arg(self.args()[i]),
            ),
            " "@,
        )
    }

    pub fn new(
        program: String,
        args: Vec<String>,
        context: &'static str,
        timeout_secs: u64,
        timeout_subsec_nanos: u32,
    ) -> (c: OneShotCommand)
        requires
            timeout_subsec_nanos < 1_000_000_000,
        ensures
            c.program() == program@,
            c.args() == sviews(args@),
            c.context() == context@,
            c.timeout_secs() == timeout_secs,
            c.timeout_subsec_nanos() == timeout_subsec_nanos,
            c.timeout_subsec_nanos() < 1_000_000_000,
    {
        OneShotCommand { program, args, context, timeout_secs, timeout_subsec_nanos }
    }

    pub fn program_str(&self) -> (s: &str)
        ensures
            s@ == self.program(),
    {
        self.program.as_str()
    }

    pub fn arg_list(&self) -> (v: &Vec<String>)
        ensures
            sviews(v@) == self.args(),
    {
        &self.args
    }

    pub fn display(&self) -> (s: String)
        ensures
            s@ == self.shown(),
    {
        let mut parts: Vec<String> = Vec::new();
        parts.push(render_arg(self.program.as_str()));
        let mut i: usize = 0;
        while i < self.args.len()
            invariant
                i <= self.args@.len(),
                parts@.len() == i + 1,
                parts@[0]@ == rendered_arg(self.program()),
                forall|k: int| 0 <= k < i ==> #[trigger] parts@[k + 1]@ == rendered_arg(self.args()[k]),
            decreases self.args.len() - i,
        {
            parts.push(render_arg(self.args[i].as_str()));
            i += 1;
        }
        let ghost want = seq![rendered_arg(self.program())] + Seq::new(
            self.args().len(),
            |i: int| rendered_arg(self.args()[i]),
        );
        assert forall|j: int| 1 <= j < parts@.len() implies #[trigger] sviews(parts@)[j] == want[j] by {
            assert(parts@[(j - 1) + 1]@ == rendered_arg(self.args()[j - 1]));
        }
        assert(sviews(parts@) =~= seq![rendered_arg(self.program())] + Seq::new(
            self.args().len(),
            |i: int| rendered_arg(self.args()[i]),
        ));
        join_strings(&parts, " ")
    }

    /// Message for a command that could not be started.
    pub fn spawn_error(&self, err: &str) -> (s: String)
        ensures
            s@ == "Failed to start `"@ + self.shown() + "` while "@ + self.context() + ": "@ + err@,
    {
        let mut s = "Failed to start `".to_string();
        let d = self.display();
        s.append(d.as_str());
        s.append("` while ");
        s.append(self.context);
        s.append(": ");
        s.append(err);
        s
    }

    /// Message for a failure while waiting for the command.
    pub fn wait_error(&self, err: &str) -> (s: String)
        ensures
            s@ == "Failed while waiting for `"@ + self.shown() + "` while "@ + self.context() + ": "@
                + err@,
    {
        let mut s = "Failed while waiting for `".to_string();
        let d = self.display();
        s.append(d.as_str());
        s.append("` while ");
        s.append(self.context);
        s.append(": ");
        s.append(err);
        s
    }

    /// Message for a command that ran out of time.
    pub fn timeout_error(&self) -> (s: String)
        requires
            self.timeout_subsec_nanos() < 1_000_000_000,
        ensures
            s@ == "Timed out after "@ + rendered_duration(
                self.timeout_secs() as nat,
                self.timeout_subsec_nanos() as nat,
            ) + " while "@ + self.context() + " with `"@ + self.shown() + "`"@,
    {
        let mut s = "Timed out after ".to_string();
        let d = render_duration(self.timeout_secs, self.timeout_subsec_nanos);
        s.append(d.as_str());
        s.append(" while ");
        s.append(self.context);
        s.append(" with `");
        let shown = self.display();
        s.append(shown.as_str());
        s.append("`");
        s
    }

    /// Message for a command that exited unsuccessfully, given its exit code
    /// (`None` when a signal ended it) and its output.
    pub fn status_error(&self, code: Option<i32>, stdout: &[u8], stderr: &[u8]) -> (s: String)
        ensures
            s@ == ({
                let status = match code {
                    Some(c) => "exit code "@ + signed_decimal(c as int),
                    None => "termination by signal"@,
                };
                let head = "`"@ + self.shown() + "` failed while "@ + self.context() + " with "@ + status;
                match output_details(stdout@, stderr@) {
                    Some(d) => head + ": "@ + d,
                    None => head,
                }
            }),
    {
        let mut status = String::new();
        match code {
            Some(c) => {
                status.append("exit code ");
                push_signed_decimal(&mut status, c as i64);
            },
            None => {
                status.append("termination by signal");
            },
        }
        let mut s = "`".to_string();
        let d = self.display();
        s.append(d.as_str());
        s.append("` failed while ");
        s.append(self.context);
        s.append(" with ");
        s.append(status.as_str());
        match render_output_details(stdout, stderr) {
            Some(details) => {
                s.append(": ");
                s.append(details.as_str());
            },
            None => {},
        }
        s
    }
}

} // verus!
