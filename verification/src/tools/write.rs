//! `write_file` — overwrite or create a file with the supplied content.

use vstd::prelude::*;
use crate::json::{json_quote, num_field, push_num_field, push_str_field, str_field};
use crate::message::{ContentBlock, ToolOutcome};
use crate::text::{chars_of, decimal, push_decimal, push_str, string_of, utf8_len};
use crate::tools::safety::WorkspaceRoot;

verus! {

/// The write tool, bound to a workspace root.
#[derive(Debug)]
pub struct WriteTool {
    root: WorkspaceRoot,
}

/// `wrote {bytes} bytes to {path}`.
pub open spec fn write_summary(path: Seq<char>, bytes: nat) -> Seq<char> {
    "wrote "@ + decimal(bytes) + " bytes to "@ + path
}

/// The details of a write, as JSON text.
pub open spec fn write_details(path: Seq<char>, bytes: nat) -> Seq<char> {
    seq!['{'] + num_field("bytes"@, bytes) + seq![','] + str_field("path"@, path) + seq!['}']
}

impl WriteTool {
    pub fn new(root: WorkspaceRoot) -> (t: Self)
        ensures
            t.root()@ == root@,
    {
        WriteTool { root }
    }

    pub closed spec fn root(&self) -> WorkspaceRoot {
        self.root
    }

    /// The root the tool resolves paths against.
    pub fn workspace(&self) -> (r: &WorkspaceRoot)
        ensures
            *r == self.root(),
    {
        &self.root
    }

    pub fn name(&self) -> (s: &'static str)
        ensures
            s@ == "write_file"@,
    {
        "write_file"
    }

    /// The outcome of writing `content` to `path`; the size is the
    /// content's length in UTF-8 bytes.
    pub fn outcome(path: &str, content: &str) -> (o: ToolOutcome)
        requires
            utf8_len(content@) <= usize::MAX,
        ensures
            o.content@.len() == 1,
            o.content@[0] matches ContentBlock::Text { text } && text@ == write_summary(
                path@,
                utf8_len(content@),
            ),
            o.details matches Some(d) && d@ == write_details(path@, utf8_len(content@)),
            !o.is_error,
    {
        let bytes = content.len();
        let mut t = chars_of("wrote ");
        push_decimal(&mut t, bytes as u64);
        push_str(&mut t, " bytes to ");
        push_str(&mut t, path);
        let mut d: Vec<char> = Vec::new();
        d.push('{');
        push_num_field(&mut d, "bytes", bytes as u64);
        d.push(',');
        push_str_field(&mut d, "path", path);
        d.push('}');
        proof {
            assert(t@ =~= write_summary(path@, utf8_len(content@)));
            assert(d@ =~= write_details(path@, utf8_len(content@)));
        }
        let mut c: Vec<ContentBlock> = Vec::new();
        c.push(ContentBlock::Text { text: string_of(&t) });
        ToolOutcome { content: c, details: Some(string_of(&d)), is_error: false }
    }
}

} // verus!
