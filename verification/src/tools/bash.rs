//! `bash` — the decisions around running a shell command in the
//! workspace: the timeout, how a failed run is reported, and how stdout
//! and stderr are combined and capped at 32 KiB.

use vstd::prelude::*;
use crate::json::{bool_field, bool_text, json_quote, push_bool_field, push_key, push_str_field, str_field};
use crate::message::{ContentBlock, RuntimeError, ToolOutcome};
use crate::text::{
    chars_of, contains, contains_seq, cut_floor, decimal, floor_prefix,
    push_chars, push_decimal, push_str, string_of, utf8_len,
};
use crate::tools::error::{tool_error_message, ToolError};
use crate::tools::safety::WorkspaceRoot;

verus! {

/// Timeout when the call gives none, in milliseconds.
pub const DEFAULT_TIMEOUT_MS: u64 = 120_000;

/// The most bytes of output returned.
pub const MAX_OUTPUT_BYTES: usize = 32 * 1024;

/// The bash tool, bound to a workspace root.
#[derive(Debug)]
pub struct BashTool {
    root: WorkspaceRoot,
}

/// stdout, then — when there is stderr — a line break if stdout does not
/// end with one, a `--- stderr ---` line, and stderr.
pub open spec fn combined_output(stdout: Seq<char>, stderr: Seq<char>) -> Seq<char> {
    if stderr.len() == 0 {
        stdout
    } else {
        let sep = if stdout.len() > 0 && stdout.last() != '\n' {
            seq!['\n']
        } else {
            Seq::empty()
        };
        stdout + sep + "--- stderr ---\n"@ + stderr
    }
}

/// `s` cut to at most `max` bytes, at the last character boundary, with a
/// truncation marker, when it is longer than that.
pub open spec fn capped_output(s: Seq<char>, max: nat) -> Seq<char> {
    if utf8_len(s) > max {
        floor_prefix(s, max) + "\n…[truncated]"@
    } else {
        s
    }
}

/// An integer as JSON writes it.
pub open spec fn int_text(n: int) -> Seq<char> {
    if n < 0 {
        seq!['-'] + decimal((-n) as nat)
    } else {
        decimal(n as nat)
    }
}

/// The details of a run, as JSON text.
pub open spec fn bash_details(cwd: Seq<char>, exit_code: int, truncated: bool) -> Seq<char> {
    seq!['{'] + str_field("cwd"@, cwd) + seq![','] + seq!['"'] + "exit_code"@ + "\":"@
        + int_text(exit_code) + seq![','] + bool_field("truncated"@, truncated) + seq!['}']
}

/// What a failed run is reported as: an abort stays an abort, an error
/// whose message mentions `timeout` becomes a timeout after the run's
/// limit, and any other error passes through.
pub open spec fn exec_failure_spec(e: RuntimeError, timeout_ms: u64, r: RuntimeError) -> bool {
    match e {
        RuntimeError::Aborted => r is Aborted,
        RuntimeError::Other(m) => if contains_seq(m@, "timeout"@) {
            r matches RuntimeError::ToolFailed(t) && t@ == tool_error_message(ToolError::Timeout(timeout_ms))
        } else {
            r == e
        },
        _ => r == e,
    }
}

fn push_int(out: &mut Vec<char>, n: i32)
    ensures
        final(out)@ == old(out)@ + int_text(n as int),
{
    if n < 0 {
        let ghost start = out@;
        out.push('-');
        let m: i64 = -(n as i64);
        push_decimal(out, m as u64);
        assert(out@ =~= start + int_text(n as int));
    } else {
        push_decimal(out, n as u64);
    }
}

impl BashTool {
    pub fn new(root: WorkspaceRoot) -> (t: Self)
        ensures
            t.root()@ == root@,
    {
        BashTool { root }
    }

    pub closed spec fn root(&self) -> WorkspaceRoot {
        self.root
    }

    /// The root the tool resolves paths against.
    pub fn workspace(&self) -> (r: &WorkspaceRoot)
        ensures
            *r == self.root(),
    {
        &self.root
    }

    pub fn name(&self) -> (s: &'static str)
        ensures
            s@ == "bash"@,
    {
        "bash"
    }

    /// The run's timeout in milliseconds.
    pub fn timeout_ms(requested: Option<u64>) -> (t: u64)
        ensures
            t == match requested {
                Some(v) => v,
                None => DEFAULT_TIMEOUT_MS,
            },
    {
        match requested {
            Some(v) => v,
            None => DEFAULT_TIMEOUT_MS,
        }
    }

    /// What a run that failed with `e` is reported as.
    pub fn exec_failure(e: RuntimeError, timeout_ms: u64) -> (r: RuntimeError)
        ensures
            exec_failure_spec(e, timeout_ms, r),
    {
        match e {
            RuntimeError::Aborted => ToolError::Aborted.into_runtime(),
            RuntimeError::Other(m) => {
                let mv = chars_of(m.as_str());
                let tv = chars_of("timeout");
                if contains(&mv, &tv) {
                    ToolError::Timeout(timeout_ms).into_runtime()
                } else {
                    RuntimeError::Other(m)
                }
            },
            other => other,
        }
    }

    /// The outcome of a run: combined output capped at
    /// `MAX_OUTPUT_BYTES`, flagged as an error when the exit code is not 0.
    pub fn outcome(stdout: &str, stderr: &str, exit_code: i32, cwd: &str) -> (o: ToolOutcome)
        ensures
            ({
                let c = combined_output(stdout@, stderr@);
                let truncated = utf8_len(c) > MAX_OUTPUT_BYTES;
                &&& o.content@.len() == 1
                &&& o.content@[0] matches ContentBlock::Text { text }
                    && text@ == capped_output(c, MAX_OUTPUT_BYTES as nat)
                &&& o.details matches Some(d) && d@ == bash_details(cwd@, exit_code as int, truncated)
                &&& o.is_error == (exit_code != 0)
            }),
    {
        let mut comb = chars_of(stdout);
        let errv = chars_of(stderr);
        if errv.len() > 0 {
            if comb.len() > 0 && comb[comb.len() - 1] != '\n' {
                comb.push('\n');
            }
            push_str(&mut comb, "--- stderr ---\n");
            push_chars(&mut comb, &errv);
        }
        let ghost c = combined_output(stdout@, stderr@);
        assert(comb@ =~= c);
        let cut = cut_floor(&comb, MAX_OUTPUT_BYTES);
        let truncated = cut.is_some();
        let text = match cut {
            Some(mut p) => {
                push_str(&mut p, "\n…[truncated]");
                p
            },
            None => comb,
        };
        let mut d: Vec<char> = Vec::new();
        d.push('{');
        push_str_field(&mut d, "cwd", cwd);
        d.push(',');
        push_key(&mut d, "exit_code");
        push_int(&mut d, exit_code);
        d.push(',');
        push_bool_field(&mut d, "truncated", truncated);
        d.push('}');
        assert(d@ =~= bash_details(cwd@, exit_code as int, truncated));
        let mut content: Vec<ContentBlock> = Vec::new();
        content.push(ContentBlock::Text { text: string_of(&text) });
        ToolOutcome { content, details: Some(string_of(&d)), is_error: exit_code != 0 }
    }
}

} // verus!
