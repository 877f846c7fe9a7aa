//! The terminal approval prompt: what it shows and how an answer line is
//! read. When explicit consent is required only a literal `y` approves
//! once; otherwise `a` or `y` (either case) does.

use vstd::prelude::*;
use crate::acp::approval::{ApprovalAction, ApprovalDecision};
use crate::text::{chars_of, decimal, push_decimal, push_str, string_of};

verus! {

/// The lines describing an action.
pub open spec fn header_spec(a: ApprovalAction) -> Seq<char> {
    match a {
        ApprovalAction::Tool { tool_name, input_preview, .. } => "tool: "@ + tool_name@ + "\ninput: "@
            + input_preview@,
        ApprovalAction::ApplyPatch { root, files, .. } => "apply_patch under "@ + root@ + " ("@ + decimal(
            files.len() as nat,
        ) + " file"@ + (if files.len() == 1 { Seq::empty() } else { "s"@ }) + ")"@,
        ApprovalAction::Mcp { server, tool_name, input_preview } => "mcp: "@ + server@ + seq!['/']
            + tool_name@ + "\ninput: "@ + input_preview@,
    }
}

/// The whole prompt.
pub open spec fn prompt_spec(reason: Seq<char>, header: Seq<char>, explicit_yes: bool) -> Seq<char> {
    "\n── approval required ──\nreason: "@ + reason + seq!['\n'] + header + seq!['\n'] + (if explicit_yes {
        "DESTRUCTIVE: type literal 'y' to allow once  [s]ession  [q]uit  (anything else denies)\n"@
    } else {
        "[a]llow once  [s]ession allow  [d]eny  [q]uit\n"@
    }) + "> "@
}

/// The first character of `s` that is not white space.
pub open spec fn first_visible(s: Seq<char>) -> Option<char>
    decreases s.len(),
{
    if s.len() == 0 {
        None
    } else if crate::compaction::plan::is_white_space(s[0]) {
        first_visible(s.drop_first())
    } else {
        Some(s[0])
    }
}

/// The decision an answer line stands for (`None` when it could not be
/// read).
pub open spec fn decision_for(line: Option<Seq<char>>, explicit_yes: bool) -> ApprovalDecision {
    match line {
        None => ApprovalDecision::Abort,
        Some(l) => {
            let first = first_visible(l);
            if explicit_yes {
                match first {
                    Some(c) => if c == 'y' {
                        ApprovalDecision::Approved
                    } else if c == 's' || c == 'S' {
                        ApprovalDecision::ApprovedForSession
                    } else if c == 'q' || c == 'Q' {
                        ApprovalDecision::Abort
                    } else {
                        ApprovalDecision::Denied
                    },
                    None => ApprovalDecision::Denied,
                }
            } else {
                match first {
                    Some(c) => if c == 'a' || c == 'A' || c == 'y' || c == 'Y' {
                        ApprovalDecision::Approved
                    } else if c == 's' || c == 'S' {
                        ApprovalDecision::ApprovedForSession
                    } else if c == 'q' || c == 'Q' {
                        ApprovalDecision::Abort
                    } else {
                        ApprovalDecision::Denied
                    },
                    None => ApprovalDecision::Denied,
                }
            }
        },
    }
}

/// The lines describing `action`.
pub fn header(action: &ApprovalAction) -> (s: String)
    ensures
        s@ == header_spec(*action),
{
    let mut v: Vec<char> = Vec::new();
    match action {
        ApprovalAction::Tool { tool_name, input_preview, .. } => {
            push_str(&mut v, "tool: ");
            push_str(&mut v, tool_name.as_str());
            push_str(&mut v, "\ninput: ");
            push_str(&mut v, input_preview.as_str());
        },
        ApprovalAction::ApplyPatch { root, files, .. } => {
            push_str(&mut v, "apply_patch under ");
            push_str(&mut v, root.as_str());
            push_str(&mut v, " (");
            push_decimal(&mut v, files.len() as u64);
            push_str(&mut v, " file");
            if files.len() != 1 {
                push_str(&mut v, "s");
            }
            push_str(&mut v, ")");
        },
        ApprovalAction::Mcp { server, tool_name, input_preview } => {
            push_str(&mut v, "mcp: ");
            push_str(&mut v, server.as_str());
            v.push('/');
            push_str(&mut v, tool_name.as_str());
            push_str(&mut v, "\ninput: ");
            push_str(&mut v, input_preview.as_str());
        },
    }
    assert(v@ =~= header_spec(*action));
    string_of(&v)
}

/// The reason shown: the given one, or `(no reason given)`.
pub fn reason_text(reason: Option<String>) -> (s: String)
    ensures
        match reason {
            Some(r) => s == r,
            None => s@ == "(no reason given)"@,
        },
{
    match reason {
        Some(r) => r,
        None => String::from_str("(no reason given)"),
    }
}

/// The prompt written before reading the answer.
pub fn prompt(reason: &str, header: &str, explicit_yes: bool) -> (s: String)
    ensures
        s@ == prompt_spec(reason@, header@, explicit_yes),
{
    let mut v = chars_of("\n── approval required ──\nreason: ");
    push_str(&mut v, reason);
    v.push('\n');
    push_str(&mut v, header);
    v.push('\n');
    if explicit_yes {
        push_str(&mut v, "DESTRUCTIVE: type literal 'y' to allow once  [s]ession  [q]uit  (anything else denies)\n");
    } else {
        push_str(&mut v, "[a]llow once  [s]ession allow  [d]eny  [q]uit\n");
    }
    push_str(&mut v, "> ");
    string_of(&v)
}

/// Law: the white space an answer starts with is not read. Whatever
/// white space precedes an answer line, it is decided as the line itself.
pub proof fn lemma_leading_space_ignored(ws: Seq<char>, l: Seq<char>, explicit_yes: bool)
    requires
        forall|k: int| 0 <= k < ws.len() ==> crate::compaction::plan::is_white_space(#[trigger] ws[k]),
    ensures
        decision_for(Some(ws + l), explicit_yes) == decision_for(Some(l), explicit_yes),
    decreases ws.len(),
{
    lemma_first_visible_skips(ws, l);
}

proof fn lemma_first_visible_skips(ws: Seq<char>, l: Seq<char>)
    requires
        forall|k: int| 0 <= k < ws.len() ==> crate::compaction::plan::is_white_space(#[trigger] ws[k]),
    ensures
        first_visible(ws + l) == first_visible(l),
    decreases ws.len(),
{
    if ws.len() > 0 {
        let rest = ws.drop_first();
        assert forall|k: int| 0 <= k < rest.len() implies crate::compaction::plan::is_white_space(#[trigger] rest[k]) by {
            assert(rest[k] == ws[k + 1]);
        }
        lemma_first_visible_skips(rest, l);
        assert((ws + l)[0] == ws[0]);
        assert((ws + l).drop_first() =~= rest + l);
    }
}

/// Law: explicit consent is the stricter mode. A line that approves once
/// under explicit consent approves once without it too; and a line that
/// does not approve under explicit consent is decided alike in both modes,
/// except that an answer approving only without explicit consent is
/// denied with it.
pub proof fn lemma_explicit_is_stricter(l: Option<Seq<char>>)
    ensures
        decision_for(l, true) == ApprovalDecision::Approved ==> decision_for(l, false)
            == ApprovalDecision::Approved,
        decision_for(l, true) != ApprovalDecision::Approved ==> (decision_for(l, true) == decision_for(l, false)
            || (decision_for(l, true) == ApprovalDecision::Denied && decision_for(l, false)
            == ApprovalDecision::Approved)),
        l is None ==> decision_for(l, true) == ApprovalDecision::Abort && decision_for(l, false)
            == ApprovalDecision::Abort,
{
}

/// The decision for an answer line.
pub fn decide(line: Option<&str>, explicit_yes: bool) -> (d: ApprovalDecision)
    ensures
        d == decision_for(
            match line {
                Some(l) => Some(l@),
                None => None,
            },
            explicit_yes,
        ),
{
    let l = match line {
        None => {
            return ApprovalDecision::Abort;
        },
        Some(l) => l,
    };
    let v = chars_of(l);
    let mut i: usize = 0;
    assert(v@.skip(0) =~= v@);
    while i < v.len() && crate::compaction::plan::white_space_char(v[i])
        invariant
            i <= v.len(),
            first_visible(v@) == first_visible(v@.skip(i as int)),
        decreases v.len() - i,
    {
        assert(v@.skip(i as int).drop_first() =~= v@.skip(i + 1));
        i = i + 1;
    }
    let first: Option<char> = if i < v.len() {
        assert(v@.skip(i as int)[0] == v@[i as int]);
        Some(v[i])
    } else {
        assert(v@.skip(i as int).len() == 0);
        None
    };
    assert(first == first_visible(l@));
    if explicit_yes {
        match first {
            Some(c) => if c == 'y' {
                ApprovalDecision::Approved
            } else if c == 's' || c == 'S' {
                ApprovalDecision::ApprovedForSession
            } else if c == 'q' || c == 'Q' {
                ApprovalDecision::Abort
            } else {
                ApprovalDecision::Denied
            },
            None => ApprovalDecision::Denied,
        }
    } else {
        match first {
            Some(c) => if c == 'a' || c == 'A' || c == 'y' || c == 'Y' {
                ApprovalDecision::Approved
            } else if c == 's' || c == 'S' {
                ApprovalDecision::ApprovedForSession
            } else if c == 'q' || c == 'Q' {
                ApprovalDecision::Abort
            } else {
                ApprovalDecision::Denied
            },
            None => ApprovalDecision::Denied,
        }
    }
}

/// The terminal approver.
#[derive(Debug, Default, Clone, Copy)]
pub struct CliPrompter;

impl CliPrompter {
    /// The prompt for `action`, with the reason given (or a notice that
    /// none was).
    pub fn render(&self, action: &ApprovalAction, reason: Option<String>, explicit_yes: bool) -> (s: String)
        ensures
            s@ == prompt_spec(
                match reason {
                    Some(r) => r@,
                    None => "(no reason given)"@,
                },
                header_spec(*action),
                explicit_yes,
            ),
    {
        let r = reason_text(reason);
        let h = header(action);
        prompt(r.as_str(), h.as_str(), explicit_yes)
    }

    /// The decision for the answer line (`None` when reading failed).
    pub fn answer(&self, line: Option<&str>, explicit_yes: bool) -> (d: ApprovalDecision)
        ensures
            d == decision_for(
                match line {
                    Some(l) => Some(l@),
                    None => None,
                },
                explicit_yes,
            ),
    {
        decide(line, explicit_yes)
    }
}

} // verus!
