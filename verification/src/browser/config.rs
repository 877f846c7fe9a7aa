//! Configuration of the Chromium provider.

use vstd::prelude::*;
use crate::text::chars_of;
use crate::tools::path::{join_path, join_path_chars};
use crate::text::string_of;

verus! {

/// How the provider launches Chromium and where it keeps artifacts.
#[derive(Debug)]
pub struct ChromeConfig {
    /// The browser binary.
    pub chrome_path: Option<String>,
    pub headless: bool,
    /// Pass `--no-sandbox` (needed in many CI environments).
    pub no_sandbox: bool,
    /// Artifacts land under `<artifact_root>/<tenant>/<session>/`.
    pub artifact_root: String,
}

/// The default artifact root: `$HIVECORE_SESSIONS_DIR/__browser__`, or
/// `$HOME/.hivecore/sessions/__browser__` (with `.` for an unset home).
pub open spec fn default_artifact_root(sessions_dir: Option<Seq<char>>, home: Option<Seq<char>>) -> Seq<char> {
    let base = match sessions_dir {
        Some(d) => d,
        None => join_path(
            join_path(
                match home {
                    Some(h) => h,
                    None => "."@,
                },
                ".hivecore"@,
            ),
            "sessions"@,
        ),
    };
    join_path(base, "__browser__"@)
}

impl ChromeConfig {
    /// The defaults, given the `HIVECORE_SESSIONS_DIR` and `HOME`
    /// environment values.
    pub fn default_with(sessions_dir: Option<String>, home: Option<String>) -> (c: Self)
        ensures
            c.chrome_path matches Some(p) && p@ == "/usr/bin/google-chrome-stable"@,
            c.headless,
            c.no_sandbox,
            c.artifact_root@ == default_artifact_root(
                match sessions_dir {
                    Some(d) => Some(d@),
                    None => None,
                },
                match home {
                    Some(h) => Some(h@),
                    None => None,
                },
            ),
    {
        let base = match sessions_dir {
            Some(d) => chars_of(d.as_str()),
            None => {
                let h = match home {
                    Some(h) => chars_of(h.as_str()),
                    None => chars_of("."),
                };
                let a = join_path_chars(&h, &chars_of(".hivecore"));
                join_path_chars(&a, &chars_of("sessions"))
            },
        };
        let root = join_path_chars(&base, &chars_of("__browser__"));
        ChromeConfig {
            chrome_path: Some(String::from_str("/usr/bin/google-chrome-stable")),
            headless: true,
            no_sandbox: true,
            artifact_root: string_of(&root),
        }
    }

    /// The extra command-line arguments the browser is launched with.
    pub fn extra_args(&self) -> (a: Vec<String>)
        ensures
            self.no_sandbox ==> a@.len() == 1 && a@[0]@ == "--no-sandbox"@,
            !self.no_sandbox ==> a@.len() == 0,
    {
        let mut a: Vec<String> = Vec::new();
        if self.no_sandbox {
            a.push(String::from_str("--no-sandbox"));
        }
        a
    }
}

} // verus!
