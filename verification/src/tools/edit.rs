//! `edit_file` — exact-string replacement. `old_string` must occur exactly
//! once in the file unless `replace_all` is set, so an ambiguous edit is
//! refused before anything is written.

use vstd::prelude::*;
use crate::json::{json_quote, num_field, push_num_field, push_str_field, str_field};
use crate::message::{ContentBlock, ToolOutcome};
use crate::text::{
    chars_of, count_matches, count_occurrences, decimal, push_decimal, push_str, replace_all,
    replace_all_chars, replace_first, replace_first_chars, str_eq, string_of,
};
use crate::tools::error::ToolError;
use crate::tools::safety::WorkspaceRoot;

verus! {

/// The edit tool, bound to a workspace root.
#[derive(Debug)]
pub struct EditTool {
    root: WorkspaceRoot,
}

/// The arguments of one edit.
#[derive(Debug)]
pub struct EditArgs {
    pub path: String,
    pub old_string: String,
    pub new_string: String,
    pub replace_all: bool,
}

/// What an edit writes back: the new file contents and how many
/// occurrences were replaced.
#[derive(Debug)]
pub struct EditPlan {
    pub new_contents: String,
    pub count: usize,
}

/// The summary line of a successful edit.
pub open spec fn edit_summary(path: Seq<char>, count: nat) -> Seq<char> {
    "edited "@ + path + " ("@ + decimal(count) + " occurrence"@ + (if count == 1 {
        Seq::empty()
    } else {
        "s"@
    }) + " replaced)"@
}

/// The details of a successful edit, as JSON text.
pub open spec fn edit_details(path: Seq<char>, count: nat) -> Seq<char> {
    seq!['{'] + num_field("occurrences_replaced"@, count) + seq![','] + str_field("path"@, path)
        + seq!['}']
}

impl EditTool {
    pub fn new(root: WorkspaceRoot) -> (t: Self)
        ensures
            t.root()@ == root@,
    {
        EditTool { root }
    }

    pub closed spec fn root(&self) -> WorkspaceRoot {
        self.root
    }

    /// The root the tool resolves paths against.
    pub fn workspace(&self) -> (r: &WorkspaceRoot)
        ensures
            *r == self.root(),
    {
        &self.root
    }

    pub fn name(&self) -> (s: &'static str)
        ensures
            s@ == "edit_file"@,
    {
        "edit_file"
    }

    /// Refuses an edit that would change nothing.
    pub fn check_args(args: &EditArgs) -> (r: Result<(), ToolError>)
        ensures
            args.old_string@ == args.new_string@ ==> (r matches Err(ToolError::InvalidArg(m))
                && m@ == "old_string == new_string"@),
            args.old_string@ != args.new_string@ ==> r is Ok,
    {
        if str_eq(args.old_string.as_str(), args.new_string.as_str()) {
            Err(ToolError::InvalidArg(String::from_str("old_string == new_string")))
        } else {
            Ok(())
        }
    }

    /// The new contents of a file holding `original`: with `replace_all`
    /// every occurrence of `old_string` is replaced; otherwise it must
    /// occur exactly once.
    pub fn plan(args: &EditArgs, original: &str) -> (r: Result<EditPlan, ToolError>)
        requires
            original@.len() < usize::MAX,
        ensures
            count_matches(original@, args.old_string@) == 0 ==> (r matches Err(ToolError::StringNotFound)),
            count_matches(original@, args.old_string@) > 0 && args.replace_all ==> (r matches Ok(p)
                && p.count == count_matches(original@, args.old_string@)
                && p.new_contents@ == replace_all(original@, args.old_string@, args.new_string@)),
            count_matches(original@, args.old_string@) > 1 && !args.replace_all ==> (r matches Err(
                ToolError::StringNotUnique { count },
            ) && count == count_matches(original@, args.old_string@)),
            count_matches(original@, args.old_string@) == 1 && !args.replace_all ==> (r matches Ok(p)
                && p.count == 1
                && p.new_contents@ == replace_first(original@, args.old_string@, args.new_string@)),
    {
        let s = chars_of(original);
        let p = chars_of(args.old_string.as_str());
        let n = chars_of(args.new_string.as_str());
        let count = count_occurrences(&s, &p);
        if count == 0 {
            return Err(ToolError::StringNotFound);
        }
        if args.replace_all {
            let out = replace_all_chars(&s, &p, &n);
            Ok(EditPlan { new_contents: string_of(&out), count })
        } else {
            if count > 1 {
                return Err(ToolError::StringNotUnique { count });
            }
            let out = replace_first_chars(&s, &p, &n);
            Ok(EditPlan { new_contents: string_of(&out), count })
        }
    }

    /// The error for a file that could not be read: `NotFound` with the
    /// user's path when the file is missing, the I/O error otherwise.
    pub fn read_error(path: &str, not_found: bool, io_message: String) -> (e: ToolError)
        ensures
            not_found ==> (e matches ToolError::NotFound(p) && p@ == path@),
            !not_found ==> e == ToolError::Io(io_message),
    {
        if not_found {
            ToolError::NotFound(String::from_str(path))
        } else {
            ToolError::Io(io_message)
        }
    }

    /// The outcome reported after `count` occurrences were replaced in
    /// `path`.
    pub fn outcome(path: &str, count: usize) -> (o: ToolOutcome)
        ensures
            o.content@.len() == 1,
            o.content@[0] matches ContentBlock::Text { text } && text@ == edit_summary(path@, count as nat),
            o.details matches Some(d) && d@ == edit_details(path@, count as nat),
            !o.is_error,
    {
        let mut t = chars_of("edited ");
        push_str(&mut t, path);
        push_str(&mut t, " (");
        push_decimal(&mut t, count as u64);
        push_str(&mut t, " occurrence");
        if count != 1 {
            push_str(&mut t, "s");
        }
        push_str(&mut t, " replaced)");
        let mut d: Vec<char> = Vec::new();
        d.push('{');
        push_num_field(&mut d, "occurrences_replaced", count as u64);
        d.push(',');
        push_str_field(&mut d, "path", path);
        d.push('}');
        proof {
            let c = count as nat;
            assert(t@ =~= edit_summary(path@, c));
            assert(d@ =~= edit_details(path@, c));
        }
        let mut content: Vec<ContentBlock> = Vec::new();
        content.push(ContentBlock::Text { text: string_of(&t) });
        ToolOutcome { content, details: Some(string_of(&d)), is_error: false }
    }
}

} // verus!
