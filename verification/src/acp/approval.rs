//! Approval requests and decisions.

use vstd::prelude::*;
use crate::json::{json_quote, push_str_field, str_field};
use crate::message::ToolCallId;
use crate::text::{chars_of, push_chars, push_str, string_of};

verus! {

/// What an approval is asked for. Inputs and changes are compact JSON
/// text; paths are text.
#[derive(Debug)]
pub enum ApprovalAction {
    Tool { tool_name: String, invocation_id: ToolCallId, input_preview: String },
    Mcp { server: String, tool_name: String, input_preview: String },
    ApplyPatch { root: String, files: Vec<String>, changes: String },
}

/// What the approver decided.
#[derive(Debug, Clone, Copy, PartialEq, Eq, Structural)]
pub enum ApprovalDecision {
    Approved,
    ApprovedForSession,
    Denied,
    Cancelled,
    Abort,
}

/// The editor's answer to a permission request.
#[derive(Debug, Clone, Copy, PartialEq, Eq, Structural)]
pub enum AcpPermissionDecision {
    AllowOnce,
    AllowAlways,
    RejectOnce,
    RejectAlways,
    Cancelled,
}

/// The decision an editor's answer stands for; a persistent reject is a
/// plain denial.
pub open spec fn decision_of(d: AcpPermissionDecision) -> ApprovalDecision {
    match d {
        AcpPermissionDecision::AllowOnce => ApprovalDecision::Approved,
        AcpPermissionDecision::AllowAlways => ApprovalDecision::ApprovedForSession,
        AcpPermissionDecision::RejectOnce => ApprovalDecision::Denied,
        AcpPermissionDecision::RejectAlways => ApprovalDecision::Denied,
        AcpPermissionDecision::Cancelled => ApprovalDecision::Cancelled,
    }
}

/// The decision for an editor's answer.
pub fn approval_decision(d: AcpPermissionDecision) -> (r: ApprovalDecision)
    ensures
        r == decision_of(d),
{
    match d {
        AcpPermissionDecision::AllowOnce => ApprovalDecision::Approved,
        AcpPermissionDecision::AllowAlways => ApprovalDecision::ApprovedForSession,
        AcpPermissionDecision::RejectOnce => ApprovalDecision::Denied,
        AcpPermissionDecision::RejectAlways => ApprovalDecision::Denied,
        AcpPermissionDecision::Cancelled => ApprovalDecision::Cancelled,
    }
}

/// What a permission request names: the tool call id, the tool name and
/// the raw input shown to the user.
#[derive(Debug)]
pub struct PermissionTarget {
    pub tool_call_id: String,
    pub tool_name: String,
    pub raw_input: String,
}

/// A JSON array of strings.
pub open spec fn json_str_array(v: Seq<Seq<char>>) -> Seq<char>
    decreases v.len(),
{
    if v.len() == 0 {
        seq!['[', ']']
    } else {
        json_str_array_body(v) + seq![']']
    }
}

/// `[` and the quoted items with commas between them.
pub open spec fn json_str_array_body(v: Seq<Seq<char>>) -> Seq<char>
    decreases v.len(),
{
    if v.len() == 0 {
        seq!['[']
    } else if v.len() == 1 {
        seq!['['] + json_quote(v[0])
    } else {
        json_str_array_body(v.drop_last()) + seq![','] + json_quote(v.last())
    }
}

/// The raw input of a patch approval, as JSON text.
pub open spec fn patch_input(root: Seq<char>, files: Seq<Seq<char>>, changes: Seq<char>) -> Seq<char> {
    seq!['{'] + "\"changes\":"@ + changes + seq![','] + "\"files\":"@ + json_str_array(files) + seq![',']
        + str_field("root"@, root) + seq!['}']
}

/// The target a permission request names for an action.
pub open spec fn target_of(a: ApprovalAction) -> (Seq<char>, Seq<char>, Seq<char>) {
    match a {
        ApprovalAction::Tool { tool_name, invocation_id, input_preview } => (
            invocation_id.0@,
            tool_name@,
            input_preview@,
        ),
        ApprovalAction::Mcp { server, tool_name, input_preview } => (
            "mcp:"@ + server@ + seq!['/'] + tool_name@,
            "mcp__"@ + server@ + "__"@ + tool_name@,
            input_preview@,
        ),
        ApprovalAction::ApplyPatch { root, files, changes } => (
            "apply_patch:"@ + root@,
            "apply_patch"@,
            patch_input(root@, files@.map_values(|f: String| f@), changes@),
        ),
    }
}

fn push_str_array(out: &mut Vec<char>, items: &Vec<String>)
    ensures
        final(out)@ == old(out)@ + json_str_array(items@.map_values(|f: String| f@)),
{
    let ghost start = out@;
    let ghost v = items@.map_values(|f: String| f@);
    out.push('[');
    let mut i: usize = 0;
    while i < items.len()
        invariant
            i <= items.len(),
            v == items@.map_values(|f: String| f@),
            out@ == start + json_str_array_body(v.take(i as int)),
        decreases items.len() - i,
    {
        if i > 0 {
            out.push(',');
        }
        let q = crate::json::quote(items[i].as_str());
        push_str(out, q.as_str());
        i = i + 1;
        proof {
            assert(v.take(i as int).drop_last() =~= v.take(i - 1));
            assert(v.take(i as int).last() == items@[i - 1]@);
            if i == 1 {
                assert(v.take(0) =~= Seq::<Seq<char>>::empty());
            }
        }
        assert(out@ =~= start + json_str_array_body(v.take(i as int)));
    }
    assert(v.take(items.len() as int) =~= v);
    out.push(']');
    assert(out@ =~= start + json_str_array(v));
}

/// The target a permission request names for `action`.
pub fn permission_target(action: &ApprovalAction) -> (t: PermissionTarget)
    ensures
        (t.tool_call_id@, t.tool_name@, t.raw_input@) == target_of(*action),
{
    match action {
        ApprovalAction::Tool { tool_name, invocation_id, input_preview } => PermissionTarget {
            tool_call_id: invocation_id.0.clone(),
            tool_name: tool_name.clone(),
            raw_input: input_preview.clone(),
        },
        ApprovalAction::Mcp { server, tool_name, input_preview } => {
            let mut id = chars_of("mcp:");
            push_str(&mut id, server.as_str());
            id.push('/');
            push_str(&mut id, tool_name.as_str());
            let mut name = chars_of("mcp__");
            push_str(&mut name, server.as_str());
            push_str(&mut name, "__");
            push_str(&mut name, tool_name.as_str());
            PermissionTarget {
                tool_call_id: string_of(&id),
                tool_name: string_of(&name),
                raw_input: input_preview.clone(),
            }
        },
        ApprovalAction::ApplyPatch { root, files, changes } => {
            let mut id = chars_of("apply_patch:");
            push_str(&mut id, root.as_str());
            let mut raw: Vec<char> = Vec::new();
            raw.push('{');
            push_str(&mut raw, "\"changes\":");
            push_str(&mut raw, changes.as_str());
            raw.push(',');
            push_str(&mut raw, "\"files\":");
            push_str_array(&mut raw, files);
            raw.push(',');
            push_str_field(&mut raw, "root", root.as_str());
            raw.push('}');
            assert(raw@ =~= patch_input(root@, files@.map_values(|f: String| f@), changes@));
            PermissionTarget {
                tool_call_id: string_of(&id),
                tool_name: String::from_str("apply_patch"),
                raw_input: string_of(&raw),
            }
        },
    }
}

/// The answer an ACP permission option id stands for; an unknown id is a
/// one-time rejection.
pub open spec fn option_decision(id: Seq<char>) -> AcpPermissionDecision {
    if id == "allow_once"@ {
        AcpPermissionDecision::AllowOnce
    } else if id == "allow_session"@ {
        AcpPermissionDecision::AllowAlways
    } else if id == "reject_once"@ {
        AcpPermissionDecision::RejectOnce
    } else if id == "reject_always"@ {
        AcpPermissionDecision::RejectAlways
    } else {
        AcpPermissionDecision::RejectOnce
    }
}

/// The answer for the option the editor selected.
pub fn decode_option(id: &str) -> (d: AcpPermissionDecision)
    ensures
        d == option_decision(id@),
{
    if crate::text::str_eq(id, "allow_once") {
        AcpPermissionDecision::AllowOnce
    } else if crate::text::str_eq(id, "allow_session") {
        AcpPermissionDecision::AllowAlways
    } else if crate::text::str_eq(id, "reject_once") {
        AcpPermissionDecision::RejectOnce
    } else if crate::text::str_eq(id, "reject_always") {
        AcpPermissionDecision::RejectAlways
    } else {
        AcpPermissionDecision::RejectOnce
    }
}

} // verus!
