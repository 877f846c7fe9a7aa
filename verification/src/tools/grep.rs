//! `grep` — regex search across the workspace, returning `path:line:text`
//! rows, bounded by `max_matches` (200 by default). Hidden entries (a name
//! that begins with `.`) and entries outside the root are skipped.
//!
//! The walk itself reads directories and files, so it is driven from
//! outside: `GrepScan` holds the search state and decides, step by step,
//! what happens to each directory, entry and file text it is handed.

use vstd::prelude::*;
use crate::json::{bool_field, json_quote, num_field, push_bool_field, push_num_field, push_str_field, str_field};
use crate::message::{ContentBlock, ToolOutcome};
use crate::text::{chars_of, decimal, lines_of, push_decimal, push_str, split_lines, string_of, views};
use crate::tools::error::ToolError;
use crate::tools::path::{
    comps_prefix, comps_starts_with, components, join_rel, join_rel_range, parent_comp,
    path_components, root_comp,
};
use crate::tools::safety::WorkspaceRoot;

verus! {

/// Matches reported when the call gives no bound.
pub const DEFAULT_MAX_MATCHES: usize = 200;

/// `regex::Regex`, declared so that a compiled pattern can be held; its
/// contents stay opaque.
#[verifier::external_type_specification]
#[verifier::external_body]
pub struct ExRegex(regex::Regex);

/// The message of the error `regex::Regex::new` returns for `pattern`, or
/// `None` when it compiles.
pub uninterp spec fn regex_error(pattern: Seq<char>) -> Option<Seq<char>>;

/// Whether the regex compiled from `pattern` matches anywhere in
/// `haystack`.
pub uninterp spec fn regex_is_match(pattern: Seq<char>, haystack: Seq<char>) -> bool;

/// `regex::Regex::new`, with the error turned into its message
/// (`Display`). The claim is that success and the message depend on the
/// pattern alone.
#[verifier::external_body]
fn compile_regex(pattern: &str) -> (r: Result<regex::Regex, String>)
    ensures
        match r {
            Ok(_) => regex_error(pattern@) is None,
            Err(m) => regex_error(pattern@) == Some(m@),
        },
{
    regex::Regex::new(pattern).map_err(|e| e.to_string())
}

/// A compiled search pattern together with its source text.
#[derive(Debug)]
pub struct Pattern {
    re: regex::Regex,
    source: String,
}

impl View for Pattern {
    type V = Seq<char>;

    closed spec fn view(&self) -> Seq<char> {
        self.source@
    }
}

/// `regex::Regex::is_match` of the pattern's compiled regex on `line`.
/// A `Pattern` is only built from the regex compiled from its source, so
/// the claim is that the answer is a function of the source and the line.
#[verifier::external_body]
fn pattern_is_match(p: &Pattern, line: &str) -> (r: bool)
    ensures
        r == regex_is_match(p@, line@),
{
    p.re.is_match(line)
}

/// The regex source searched for: `(?i)` in front when the search ignores
/// case.
pub open spec fn search_source(pattern: Seq<char>, case_insensitive: bool) -> Seq<char> {
    if case_insensitive {
        "(?i)"@ + pattern
    } else {
        pattern
    }
}

impl Pattern {
    /// Compiles `source` as it stands, or gives the compiler's message.
    pub fn build(source: &str) -> (r: Result<Pattern, String>)
        ensures
            match regex_error(source@) {
                None => r matches Ok(p) && p@ == source@,
                Some(m) => r matches Err(e) && e@ == m,
            },
    {
        match compile_regex(source) {
            Ok(re) => Ok(Pattern { re, source: String::from_str(source) }),
            Err(m) => Err(m),
        }
    }

    /// Compiles the search pattern.
    pub fn compile(pattern: &str, case_insensitive: bool) -> (r: Result<Pattern, ToolError>)
        ensures
            ({
                let src = search_source(pattern@, case_insensitive);
                match regex_error(src) {
                    None => r matches Ok(p) && p@ == src,
                    Some(m) => r matches Err(ToolError::Regex(e)) && e@ == m,
                }
            }),
    {
        let source = if case_insensitive {
            let mut v = chars_of("(?i)");
            push_str(&mut v, pattern);
            string_of(&v)
        } else {
            String::from_str(pattern)
        };
        match Pattern::build(source.as_str()) {
            Ok(p) => Ok(p),
            Err(m) => Err(ToolError::Regex(m)),
        }
    }

    /// Does the pattern match anywhere in `line`?
    pub fn is_match(&self, line: &str) -> (r: bool)
        ensures
            r == regex_is_match(self@, line@),
    {
        pattern_is_match(self, line)
    }
}

/// Is the last component of `p` a name that begins with `.`?
pub open spec fn is_hidden_path(p: Seq<char>) -> bool {
    let cs = components(p);
    cs.len() > 0 && cs.last() != root_comp() && cs.last() != parent_comp() && cs.last()[0] == '.'
}

/// `entry` relative to `root` when it lies under it, else `entry` itself.
pub open spec fn relative_to(entry: Seq<char>, root: Seq<char>) -> Seq<char> {
    let ec = components(entry);
    let rc = components(root);
    if comps_prefix(rc, ec) {
        join_rel(ec.skip(rc.len() as int))
    } else {
        entry
    }
}

/// One result row: `{rel}:{lineno}:{line}`.
pub open spec fn hit_row(rel: Seq<char>, lineno: nat, line: Seq<char>) -> Seq<char> {
    rel + seq![':'] + decimal(lineno) + seq![':'] + line
}

/// The rows of the lines that match, numbered from 1.
pub open spec fn file_hits(rel: Seq<char>, lines: Seq<Seq<char>>, pattern: Seq<char>) -> Seq<Seq<char>>
    decreases lines.len(),
{
    if lines.len() == 0 {
        Seq::empty()
    } else {
        file_hits(rel, lines.drop_last(), pattern) + if regex_is_match(pattern, lines.last()) {
            seq![hit_row(rel, lines.len(), lines.last())]
        } else {
            Seq::empty()
        }
    }
}

/// Rows joined with line breaks.
pub open spec fn joined_rows(rows: Seq<Seq<char>>) -> Seq<char>
    decreases rows.len(),
{
    if rows.len() == 0 {
        Seq::empty()
    } else if rows.len() == 1 {
        rows[0]
    } else {
        joined_rows(rows.drop_last()) + seq!['\n'] + rows.last()
    }
}

/// `{n} match{es} ({truncated|complete})`.
pub open spec fn grep_summary(n: nat, truncated: bool) -> Seq<char> {
    decimal(n) + " match"@ + (if n == 1 { Seq::empty() } else { "es"@ }) + " ("@ + (if truncated {
        "truncated"@
    } else {
        "complete"@
    }) + ")"@
}

/// The details of a search, as JSON text.
pub open spec fn grep_details(n: nat, truncated: bool) -> Seq<char> {
    seq!['{'] + num_field("matches"@, n) + seq![','] + str_field("summary"@, grep_summary(n, truncated))
        + seq![','] + bool_field("truncated"@, truncated) + seq!['}']
}

proof fn lemma_file_hits_prefix(rel: Seq<char>, lines: Seq<Seq<char>>, pattern: Seq<char>, j: int)
    requires
        0 <= j <= lines.len(),
    ensures
        file_hits(rel, lines.take(j), pattern).len() <= file_hits(rel, lines, pattern).len(),
        file_hits(rel, lines, pattern).take(file_hits(rel, lines.take(j), pattern).len() as int)
            == file_hits(rel, lines.take(j), pattern),
    decreases lines.len(),
{
    if j == lines.len() {
        assert(lines.take(j) =~= lines);
        assert(file_hits(rel, lines, pattern).take(file_hits(rel, lines, pattern).len() as int)
            =~= file_hits(rel, lines, pattern));
    } else {
        let d = lines.drop_last();
        assert(d.take(j) =~= lines.take(j));
        lemma_file_hits_prefix(rel, d, pattern, j);
        let a = file_hits(rel, lines.take(j), pattern);
        let b = file_hits(rel, d, pattern);
        let full = file_hits(rel, lines, pattern);
        assert(full.take(b.len() as int) =~= b);
        assert(full.take(a.len() as int) =~= b.take(a.len() as int));
    }
}

/// What happens to one directory entry.
#[derive(Debug, Clone, Copy, PartialEq, Eq, Structural)]
pub enum EntryStep {
    /// The bound is reached: stop the walk.
    Stop,
    /// Hidden or outside the root: skip it.
    Skip,
    /// Look at it: descend into a directory, search a file.
    Inspect,
}

/// The state of one search.
#[derive(Debug)]
pub struct GrepScan {
    root: String,
    stack: Vec<String>,
    hits: Vec<String>,
    truncated: bool,
    max: usize,
}

/// Views of a vector of strings.
pub open spec fn strs(v: Seq<String>) -> Seq<Seq<char>> {
    v.map_values(|s: String| s@)
}

impl GrepScan {
    pub closed spec fn root_path(&self) -> Seq<char> {
        self.root@
    }

    /// Directories still to visit; the last one is visited next.
    pub closed spec fn pending(&self) -> Seq<Seq<char>> {
        strs(self.stack@)
    }

    /// Result rows so far.
    pub closed spec fn rows(&self) -> Seq<Seq<char>> {
        strs(self.hits@)
    }

    pub closed spec fn is_truncated(&self) -> bool {
        self.truncated
    }

    pub closed spec fn bound(&self) -> nat {
        self.max as nat
    }

    /// A search of `search_root` under `root`, reporting at most
    /// `max_matches` rows (200 when not given).
    pub fn new(root: &WorkspaceRoot, search_root: String, max_matches: Option<usize>) -> (s: Self)
        ensures
            s.root_path() == root@,
            s.pending() == seq![search_root@],
            s.rows() == Seq::<Seq<char>>::empty(),
            !s.is_truncated(),
            s.bound() == match max_matches {
                Some(m) => m as nat,
                None => DEFAULT_MAX_MATCHES as nat,
            },
    {
        let mut stack: Vec<String> = Vec::new();
        let ghost sr = search_root@;
        stack.push(search_root);
        assert(strs(stack@) =~= seq![sr]);
        let max = match max_matches {
            Some(m) => m,
            None => DEFAULT_MAX_MATCHES,
        };
        let hits: Vec<String> = Vec::new();
        assert(strs(hits@) =~= Seq::<Seq<char>>::empty());
        GrepScan { root: String::from_str(root.path()), stack, hits, truncated: false, max }
    }

    /// Takes the next directory to visit.
    pub fn pop_dir(&mut self) -> (d: Option<String>)
        ensures
            old(self).pending().len() == 0 ==> d is None && final(self).pending() == old(self).pending(),
            old(self).pending().len() > 0 ==> (d matches Some(x) && x@ == old(self).pending().last()
                && final(self).pending() == old(self).pending().drop_last()),
            final(self).rows() == old(self).rows(),
            final(self).is_truncated() == old(self).is_truncated(),
            final(self).bound() == old(self).bound(),
            final(self).root_path() == old(self).root_path(),
    {
        let d = self.stack.pop();
        proof {
            if old(self).stack@.len() > 0 {
                assert(strs(self.stack@) =~= strs(old(self).stack@).drop_last());
            } else {
                assert(strs(self.stack@) =~= strs(old(self).stack@));
            }
        }
        d
    }

    /// Checks the bound before a directory is listed; reaching it marks the
    /// search truncated.
    pub fn check_full(&mut self) -> (full: bool)
        ensures
            full == (old(self).rows().len() >= old(self).bound()),
            final(self).is_truncated() == (old(self).is_truncated() || full),
            final(self).rows() == old(self).rows(),
            final(self).pending() == old(self).pending(),
            final(self).bound() == old(self).bound(),
            final(self).root_path() == old(self).root_path(),
    {
        if self.hits.len() >= self.max {
            self.truncated = true;
            true
        } else {
            false
        }
    }

    /// Decides what happens to a directory entry.
    pub fn classify(&mut self, entry: &str) -> (step: EntryStep)
        ensures
            old(self).rows().len() >= old(self).bound() ==> step == EntryStep::Stop
                && final(self).is_truncated(),
            old(self).rows().len() < old(self).bound() ==> final(self).is_truncated() == old(self).is_truncated()
                && step == (if is_hidden_path(entry@) {
                    EntryStep::Skip
                } else if !comps_prefix(components(old(self).root_path()), components(entry@)) {
                    EntryStep::Skip
                } else {
                    EntryStep::Inspect
                }),
            final(self).rows() == old(self).rows(),
            final(self).pending() == old(self).pending(),
            final(self).bound() == old(self).bound(),
            final(self).root_path() == old(self).root_path(),
    {
        if self.hits.len() >= self.max {
            self.truncated = true;
            return EntryStep::Stop;
        }
        let ev = chars_of(entry);
        let ec = path_components(&ev);
        let n = ec.len();
        let mut hidden = false;
        if n > 0 {
            let last = &ec[n - 1];
            let is_root = last.len() == 1 && last[0] == '/';
            let is_parent = last.len() == 2 && last[0] == '.' && last[1] == '.';
            proof {
                assert(views(ec@).last() == last@);
                if is_root {
                    assert(last@ =~= root_comp());
                }
                if is_parent {
                    assert(last@ =~= parent_comp());
                }
                if last@ == root_comp() {
                    assert(last@.len() == 1);
                }
                if last@ == parent_comp() {
                    assert(last@.len() == 2);
                }
            }
            if !is_root && !is_parent && last.len() > 0 && last[0] == '.' {
                hidden = true;
            }
            proof {
                if !is_root && !is_parent && last@[0] == '.' {
                    assert(last@.len() > 0) by {
                        crate::tools::path::lemma_components_plain(entry@);
                        if crate::tools::path::is_absolute(entry@) {
                            assert(components(entry@).skip(1)[n - 2] == components(entry@)[n - 1]);
                        }
                    }
                }
            }
        }
        if hidden {
            return EntryStep::Skip;
        }
        let rv = chars_of(self.root.as_str());
        let rc = path_components(&rv);
        if !comps_starts_with(&ec, &rc) {
            return EntryStep::Skip;
        }
        EntryStep::Inspect
    }

    /// Queues a directory to visit.
    pub fn push_dir(&mut self, dir: String)
        ensures
            final(self).pending() == old(self).pending().push(dir@),
            final(self).rows() == old(self).rows(),
            final(self).is_truncated() == old(self).is_truncated(),
            final(self).bound() == old(self).bound(),
            final(self).root_path() == old(self).root_path(),
    {
        let ghost d = dir@;
        self.stack.push(dir);
        assert(strs(self.stack@) =~= strs(old(self).stack@).push(d));
    }

    /// Takes one line's match result. A matching line adds the row
    /// `rel:line_no:line`; when that brings the rows to the bound, the scan
    /// is marked truncated. Returns whether the bound is reached.
    pub fn take_line(&mut self, rel: &str, line_no: u64, line: &str, matched: bool) -> (full: bool)
        requires
            old(self).rows().len() < old(self).bound(),
        ensures
            final(self).rows() == (if matched {
                old(self).rows().push(hit_row(rel@, line_no as nat, line@))
            } else {
                old(self).rows()
            }),
            full == (final(self).rows().len() >= final(self).bound()),
            final(self).is_truncated() == (old(self).is_truncated() || full),
            final(self).pending() == old(self).pending(),
            final(self).bound() == old(self).bound(),
            final(self).root_path() == old(self).root_path(),
            final(self).rows().len() <= final(self).bound(),
    {
        if !matched {
            return false;
        }
        let mut row = chars_of(rel);
        row.push(':');
        push_decimal(&mut row, line_no);
        row.push(':');
        push_str(&mut row, line);
        let ghost rowv = row@;
        assert(rowv =~= hit_row(rel@, line_no as nat, line@));
        self.hits.push(string_of(&row));
        assert(strs(self.hits@) =~= strs(old(self).hits@).push(rowv));
        if self.hits.len() >= self.max {
            self.truncated = true;
            return true;
        }
        false
    }

    /// Searches the text of the file at `entry`, adding a row for each
    /// matching line until the bound is reached.
    pub fn scan_file(&mut self, entry: &str, text: &str, pattern: &Pattern)
        requires
            old(self).rows().len() < old(self).bound(),
        ensures
            ({
                let f = file_hits(relative_to(entry@, old(self).root_path()), lines_of(text@), pattern@);
                let all = old(self).rows() + f;
                &&& all.len() >= old(self).bound() ==> final(self).rows() == all.take(old(self).bound() as int)
                    && final(self).is_truncated()
                &&& all.len() < old(self).bound() ==> final(self).rows() == all
                    && final(self).is_truncated() == old(self).is_truncated()
            }),
            final(self).pending() == old(self).pending(),
            final(self).bound() == old(self).bound(),
            final(self).root_path() == old(self).root_path(),
            final(self).rows().len() <= final(self).bound(),
    {
        let ev = chars_of(entry);
        let ec = path_components(&ev);
        let rv = chars_of(self.root.as_str());
        let rc = path_components(&rv);
        let rel: Vec<char> = if comps_starts_with(&ec, &rc) {
            let r = join_rel_range(&ec, rc.len(), ec.len());
            assert(views(ec@).subrange(rc.len() as int, ec.len() as int) =~= components(entry@).skip(
                rc.len() as int,
            ));
            r
        } else {
            ev
        };
        let ghost relv = relative_to(entry@, old(self).root_path());
        assert(rel@ == relv);
        let rel_s = string_of(&rel);
        let tv = chars_of(text);
        let lines = split_lines(&tv);
        let ghost ls = lines_of(text@);
        let ghost start = self.rows();
        let ghost pat = pattern@;
        let mut i: usize = 0;
        while i < lines.len()
            invariant
                i <= lines.len(),
                views(lines@) == ls,
                ls == lines_of(text@),
                relv == relative_to(entry@, old(self).root_path()),
                rel_s@ == relv,
                pat == pattern@,
                self.rows() == start + file_hits(relv, ls.take(i as int), pat),
                self.rows().len() < self.bound(),
                self.bound() == old(self).bound(),
                start == old(self).rows(),
                self.pending() == old(self).pending(),
                self.root_path() == old(self).root_path(),
                self.is_truncated() == old(self).is_truncated(),
            decreases lines.len() - i,
        {
            let line = string_of(lines[i].as_slice());
            let m = pattern.is_match(line.as_str());
            proof {
                assert(ls.take(i + 1).drop_last() =~= ls.take(i as int));
                assert(ls.take(i + 1).last() == ls[i as int]);
                assert(views(lines@)[i as int] == lines@[i as int]@);
            }
            let full = self.take_line(rel_s.as_str(), (i + 1) as u64, line.as_str(), m);
            assert(self.rows() =~= start + file_hits(relv, ls.take(i + 1), pat));
            if full {
                proof {
                    lemma_file_hits_prefix(relv, ls, pat, i + 1);
                    let f = file_hits(relv, ls, pat);
                    let fi = file_hits(relv, ls.take(i + 1), pat);
                    let all = start + f;
                    assert(self.rows().len() == self.bound());
                    assert(self.rows() == start + fi);
                    assert(all.len() >= self.bound());
                    assert(f.take(fi.len() as int) == fi);
                    assert(all.take(self.bound() as int) =~= start + f.take(fi.len() as int));
                    assert(all.take(self.bound() as int) =~= self.rows());
                }
                return;
            }
            i = i + 1;
        }
        assert(ls.take(lines.len() as int) =~= ls);
    }

    /// The outcome of the search: the rows joined by line breaks, a
    /// summary, and the counts.
    pub fn finish(self) -> (o: ToolOutcome)
        ensures
            o.content@.len() == 1,
            o.content@[0] matches ContentBlock::Text { text } && text@ == joined_rows(self.rows()),
            o.details matches Some(d) && d@ == grep_details(self.rows().len(), self.is_truncated()),
            !o.is_error,
    {
        let mut out: Vec<char> = Vec::new();
        let mut i: usize = 0;
        let ghost rows = self.rows();
        while i < self.hits.len()
            invariant
                i <= self.hits.len(),
                rows == strs(self.hits@),
                out@ == joined_rows(rows.take(i as int)),
            decreases self.hits.len() - i,
        {
            if i > 0 {
                out.push('\n');
            }
            push_str(&mut out, self.hits[i].as_str());
            i = i + 1;
            proof {
                assert(rows.take(i as int).drop_last() =~= rows.take(i - 1));
                assert(rows.take(i as int).last() == rows[i - 1]);
                if i == 1 {
                    assert(rows.take(0) =~= Seq::<Seq<char>>::empty());
                }
            }
        }
        assert(rows.take(self.hits.len() as int) =~= rows);
        let n = self.hits.len();
        let mut sm: Vec<char> = Vec::new();
        push_decimal(&mut sm, n as u64);
        push_str(&mut sm, " match");
        if n != 1 {
            push_str(&mut sm, "es");
        }
        push_str(&mut sm, " (");
        if self.truncated {
            push_str(&mut sm, "truncated");
        } else {
            push_str(&mut sm, "complete");
        }
        push_str(&mut sm, ")");
        let summary = string_of(&sm);
        assert(summary@ =~= grep_summary(n as nat, self.truncated));
        let mut d: Vec<char> = Vec::new();
        d.push('{');
        push_num_field(&mut d, "matches", n as u64);
        d.push(',');
        push_str_field(&mut d, "summary", summary.as_str());
        d.push(',');
        push_bool_field(&mut d, "truncated", self.truncated);
        d.push('}');
        assert(d@ =~= grep_details(n as nat, self.truncated));
        let mut content: Vec<ContentBlock> = Vec::new();
        content.push(ContentBlock::Text { text: string_of(&out) });
        ToolOutcome { content, details: Some(string_of(&d)), is_error: false }
    }
}

} // verus!
