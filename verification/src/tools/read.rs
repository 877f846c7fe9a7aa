//! `read_file` — the text of a workspace file as numbered lines, with an
//! optional 1-based `offset` and a `limit` (2000 lines by default).

use vstd::prelude::*;
use crate::json::{json_quote, num_field, push_num_field, push_str_field, str_field};
use crate::message::{ContentBlock, RuntimeError, ToolOutcome};
use crate::text::{
    chars_of, contains, contains_seq, decimal, lines_of, push_chars, push_decimal, push_str,
    split_lines, string_of, views,
};
use crate::tools::error::{runtime_error_of, tool_error_message, ToolError};
use crate::tools::safety::WorkspaceRoot;

verus! {

/// Lines returned when no limit is given.
pub const DEFAULT_LIMIT: u32 = 2000;

/// The read tool, bound to a workspace root.
#[derive(Debug)]
pub struct ReadTool {
    root: WorkspaceRoot,
}

/// The 0-based index of the first line returned:
/// `max(offset.unwrap_or(1), 1) - 1`.
pub open spec fn start_line(offset: Option<u32>) -> nat {
    match offset {
        Some(o) => if o >= 1 { (o - 1) as nat } else { 0 },
        None => 0,
    }
}

/// The most lines returned.
pub open spec fn line_limit(limit: Option<u32>) -> nat {
    match limit {
        Some(l) => l as nat,
        None => DEFAULT_LIMIT as nat,
    }
}

/// The lines returned: at most `limit` of them, from index `start` on.
pub open spec fn selected(lines: Seq<Seq<char>>, start: nat, limit: nat) -> Seq<Seq<char>> {
    if start >= lines.len() {
        Seq::empty()
    } else if limit >= lines.len() - start {
        lines.skip(start as int)
    } else {
        lines.skip(start as int).take(limit as int)
    }
}

/// `s` right-aligned in a field of width `w` (`{:>w}`).
pub open spec fn pad_left(s: Seq<char>, w: nat) -> Seq<char> {
    if s.len() >= w {
        s
    } else {
        Seq::new((w - s.len()) as nat, |i: int| ' ') + s
    }
}

/// One numbered line: `{:>6}\t{line}\n`.
pub open spec fn numbered_line(n: nat, line: Seq<char>) -> Seq<char> {
    pad_left(decimal(n), 6) + seq!['\t'] + line + seq!['\n']
}

/// The lines `ls` numbered from `first` on.
pub open spec fn numbered(ls: Seq<Seq<char>>, first: nat) -> Seq<char>
    decreases ls.len(),
{
    if ls.len() == 0 {
        Seq::empty()
    } else {
        numbered(ls.drop_last(), first) + numbered_line((first + ls.len() - 1) as nat, ls.last())
    }
}

/// Law: a read returns a window of the file. It holds `limit` lines, or
/// fewer when the file ends first, and its `k`-th line is line
/// `start + k` of the file.
pub proof fn lemma_selected_window(lines: Seq<Seq<char>>, start: nat, limit: nat)
    ensures
        selected(lines, start, limit).len() == if start >= lines.len() {
            0
        } else if limit <= lines.len() - start {
            limit
        } else {
            (lines.len() - start) as nat
        },
        forall|k: int| 0 <= k < selected(lines, start, limit).len() ==> #[trigger] selected(lines, start, limit)[k]
            == lines[start + k],
{
}

/// Law: numbering is positional. Numbering two runs of lines one after
/// the other from `first` numbers the second run from where the first
/// ended, and one line on its own is numbered `first`.
pub proof fn lemma_numbered_concat(a: Seq<Seq<char>>, b: Seq<Seq<char>>, first: nat, line: Seq<char>)
    ensures
        numbered(a + b, first) == numbered(a, first) + numbered(b, first + a.len()),
        numbered(seq![line], first) == numbered_line(first, line),
    decreases b.len(),
{
    assert(seq![line].drop_last() =~= Seq::<Seq<char>>::empty());
    assert(numbered(Seq::<Seq<char>>::empty(), first) == Seq::<char>::empty());
    assert(numbered(seq![line], first) =~= Seq::<char>::empty() + numbered_line(first, line));
    if b.len() == 0 {
        assert(a + b =~= a);
        assert(numbered(a, first) + numbered(b, first + a.len()) =~= numbered(a, first));
    } else {
        lemma_numbered_concat(a, b.drop_last(), first, line);
        assert((a + b).drop_last() =~= a + b.drop_last());
        assert((a + b).last() == b.last());
        assert(numbered(a + b, first) =~= numbered(a, first) + numbered(b, first + a.len()));
    }
}

/// `{path} ({count} of {total} lines, offset={start + 1})`.
pub open spec fn read_summary(path: Seq<char>, count: nat, total: nat, start: nat) -> Seq<char> {
    path + " ("@ + decimal(count) + " of "@ + decimal(total) + " lines, offset="@ + decimal(start + 1)
        + ")"@
}

/// The details of a read, as JSON text.
pub open spec fn read_details(summary: Seq<char>, count: nat, total: nat) -> Seq<char> {
    seq!['{'] + num_field("line_count"@, count) + seq![','] + str_field("summary"@, summary)
        + seq![','] + num_field("total_lines"@, total) + seq!['}']
}

/// Does the environment's error say that the file is missing?
pub open spec fn not_found_error(e: RuntimeError) -> bool {
    e matches RuntimeError::Other(m) && contains_seq(m@, "No such file"@)
}

fn push_padded(out: &mut Vec<char>, n: u64)
    ensures
        final(out)@ == old(out)@ + pad_left(decimal(n as nat), 6),
{
    let mut d: Vec<char> = Vec::new();
    push_decimal(&mut d, n);
    assert(d@ =~= decimal(n as nat));
    if d.len() < 6 {
        let ghost start = out@;
        let pad = 6 - d.len();
        let mut k: usize = 0;
        while k < pad
            invariant
                k <= pad,
                out@ == start + Seq::new(k as nat, |i: int| ' '),
            decreases pad - k,
        {
            out.push(' ');
            k = k + 1;
            assert(out@ =~= start + Seq::new(k as nat, |i: int| ' '));
        }
        push_chars(out, &d);
        assert(out@ =~= start + pad_left(decimal(n as nat), 6));
    } else {
        push_chars(out, &d);
    }
}

impl ReadTool {
    pub fn new(root: WorkspaceRoot) -> (t: Self)
        ensures
            t.root()@ == root@,
    {
        ReadTool { root }
    }

    pub closed spec fn root(&self) -> WorkspaceRoot {
        self.root
    }

    /// The root the tool resolves paths against.
    pub fn workspace(&self) -> (r: &WorkspaceRoot)
        ensures
            *r == self.root(),
    {
        &self.root
    }

    pub fn name(&self) -> (s: &'static str)
        ensures
            s@ == "read_file"@,
    {
        "read_file"
    }

    /// What a failed read is reported as: a missing file becomes
    /// `NotFound` with the user's path; any other error passes through.
    pub fn read_failure(path: &str, e: RuntimeError) -> (r: RuntimeError)
        ensures
            not_found_error(e) ==> (r matches RuntimeError::ToolFailed(m)
                && m@ == "path does not exist: "@ + path@),
            !not_found_error(e) ==> r == e,
    {
        let missing = match &e {
            RuntimeError::Other(m) => {
                let mv = chars_of(m.as_str());
                let pv = chars_of("No such file");
                contains(&mv, &pv)
            },
            _ => false,
        };
        if missing {
            let te = ToolError::NotFound(String::from_str(path));
            te.into_runtime()
        } else {
            e
        }
    }

    /// The outcome of reading `text` from `path`: the selected lines
    /// numbered from 1 at the file's first line, a summary, and the line
    /// counts.
    pub fn outcome(path: &str, text: &str, offset: Option<u32>, limit: Option<u32>) -> (o: ToolOutcome)
        ensures
            ({
                let lines = lines_of(text@);
                let start = start_line(offset);
                let sel = selected(lines, start, line_limit(limit));
                let summary = read_summary(path@, sel.len(), lines.len(), start);
                &&& o.content@.len() == 1
                &&& o.content@[0] matches ContentBlock::Text { text: body }
                    && body@ == numbered(sel, start + 1)
                &&& o.details matches Some(d) && d@ == read_details(summary, sel.len(), lines.len())
                &&& !o.is_error
            }),
    {
        let tv = chars_of(text);
        let lines = split_lines(&tv);
        let ghost ls = lines_of(text@);
        let total = lines.len();
        let start: usize = match offset {
            Some(o) => if o >= 1 { (o - 1) as usize } else { 0 },
            None => 0,
        };
        let limit_n: usize = match limit {
            Some(l) => l as usize,
            None => DEFAULT_LIMIT as usize,
        };
        let ghost sel = selected(ls, start as nat, limit_n as nat);
        let mut out: Vec<char> = Vec::new();
        let mut count: usize = 0;
        let mut i: usize = start;
        while i < total && count < limit_n
            invariant
                views(lines@) == ls,
                total == ls.len(),
                i == start + count,
                count <= limit_n,
                start < total ==> i <= total,
                start >= total ==> count == 0,
                sel == selected(ls, start as nat, limit_n as nat),
                count <= sel.len(),
                out@ == numbered(sel.take(count as int), (start + 1) as nat),
            decreases total - i,
        {
            let ghost before = sel.take(count as int);
            assert(sel[count as int] == ls[i as int]);
            push_padded(&mut out, (i + 1) as u64);
            out.push('\t');
            push_chars(&mut out, &lines[i]);
            out.push('\n');
            count = count + 1;
            i = i + 1;
            assert(sel.take(count as int).drop_last() =~= before);
            assert(views(lines@)[i - 1] == lines@[i - 1]@);
            assert(out@ =~= numbered(sel.take(count as int), (start + 1) as nat));
        }
        assert(count == sel.len());
        assert(sel.take(count as int) =~= sel);
        let mut sm = chars_of(path);
        push_str(&mut sm, " (");
        push_decimal(&mut sm, count as u64);
        push_str(&mut sm, " of ");
        push_decimal(&mut sm, total as u64);
        push_str(&mut sm, " lines, offset=");
        push_decimal(&mut sm, (start as u64) + 1);
        push_str(&mut sm, ")");
        let summary = string_of(&sm);
        let mut d: Vec<char> = Vec::new();
        d.push('{');
        push_num_field(&mut d, "line_count", count as u64);
        d.push(',');
        push_str_field(&mut d, "summary", summary.as_str());
        d.push(',');
        push_num_field(&mut d, "total_lines", total as u64);
        d.push('}');
        proof {
            assert(summary@ =~= read_summary(path@, sel.len(), ls.len(), start as nat));
            assert(d@ =~= read_details(summary@, sel.len(), ls.len()));
        }
        let mut content: Vec<ContentBlock> = Vec::new();
        content.push(ContentBlock::Text { text: string_of(&out) });
        ToolOutcome { content, details: Some(string_of(&d)), is_error: false }
    }
}

} // verus!
