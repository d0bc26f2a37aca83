//! The command line: commands and options, and the small text decisions the
//! commands make.

use vstd::prelude::*;
use crate::text::chars_of;

verus! {

/// Parsed command line.
#[derive(Debug)]
pub struct Cli {
    /// Verbose logging.
    pub verbose: bool,
    pub command: Option<Commands>,
}

/// Top-level commands.
#[derive(Debug)]
pub enum Commands {
    /// Start the proxy.
    Start {
        /// Subscription names to use (empty: all).
        subscriptions: Vec<String>,
        /// Print shell export statements.
        env: bool,
        /// Shell PID to watch.
        shell_pid: Option<u32>,
        /// Select the lowest-latency node after startup.
        auto_best: bool,
        /// Path of a mihomo binary.
        mihomo_bin: Option<String>,
    },
    /// Stop the proxy.
    Stop {
        /// Also print unset statements.
        env: bool,
    },
    /// Print export statements.
    Env,
    /// Print unset statements.
    Unenv,
    /// Open the node picker.
    Tui,
    /// Show proxy status.
    Status,
    /// Subscription management.
    Sub { action: SubCommands },
    /// Add a subscription.
    Add { url: String, name: Option<String>, interval: u64 },
    /// Force an update of subscription providers.
    Update { subscriptions: Vec<String> },
    /// Install the shell integration.
    Install { shell: Option<String> },
}

/// Subscription management commands.
#[derive(Debug)]
pub enum SubCommands {
    Add { url: String, name: Option<String>, interval: u64 },
    List,
    Remove { name: String },
}

/// The text after the last `/` of `s` (all of `s` when it has none).
pub open spec fn after_last_slash(s: Seq<char>) -> Seq<char>
    decreases s.len(),
{
    if s.len() == 0 {
        s
    } else if s.last() == '/' {
        Seq::empty()
    } else {
        after_last_slash(s.drop_last()).push(s.last())
    }
}

/// The text before the first `?` of `s` (all of `s` when it has none).
pub open spec fn before_question(s: Seq<char>) -> Seq<char>
    decreases s.len(),
{
    if s.len() == 0 {
        s
    } else if s[0] == '?' {
        Seq::empty()
    } else {
        seq![s[0]] + before_question(s.drop_first())
    }
}

fn last_slash_start(cs: &Vec<char>) -> (start: usize)
    ensures
        start <= cs.len(),
        cs@.subrange(start as int, cs.len() as int) == after_last_slash(cs@),
{
    let mut start: usize = cs.len();
    assert(cs@.subrange(0, start as int) =~= cs@);
    assert(cs@.subrange(start as int, start as int) =~= Seq::<char>::empty());
    assert(after_last_slash(cs@) =~= after_last_slash(cs@) + Seq::<char>::empty());
    while start > 0 && cs[start - 1] != '/'
        invariant
            start <= cs.len(),
            after_last_slash(cs@) == after_last_slash(cs@.subrange(0, start as int)) + cs@.subrange(
                start as int,
                cs.len() as int,
            ),
        decreases start,
    {
        proof {
            let p = cs@.subrange(0, start as int);
            assert(p.drop_last() =~= cs@.subrange(0, start - 1));
            assert(cs@.subrange(start - 1, cs.len() as int) =~= seq![p.last()] + cs@.subrange(
                start as int,
                cs.len() as int,
            ));
        }
        start = start - 1;
    }
    proof {
        let p = cs@.subrange(0, start as int);
        assert(after_last_slash(p) =~= Seq::<char>::empty());
    }
    start
}

proof fn lemma_before_question_range(s: Seq<char>, i: int)
    requires
        0 <= i <= s.len(),
        forall|k: int| 0 <= k < i ==> s[k] != '?',
    ensures
        before_question(s) == s.subrange(0, i) + before_question(s.subrange(i, s.len() as int)),
    decreases i,
{
    if i > 0 {
        lemma_before_question_range(s.drop_first(), i - 1);
        assert(s.drop_first().subrange(0, i - 1) =~= s.subrange(1, i));
        assert(s.drop_first().subrange(i - 1, s.len() - 1) =~= s.subrange(i, s.len() as int));
        assert(seq![s[0]] + s.subrange(1, i) =~= s.subrange(0, i));
    } else {
        assert(s.subrange(0, 0) =~= Seq::<char>::empty());
        assert(s.subrange(0, s.len() as int) =~= s);
    }
}

/// The name `sub add` gives a subscription added without `--name`: the last
/// `/`-separated piece of the URL, cut at the first `?`.
pub fn display_name_from_url(url: &str) -> (name: String)
    ensures
        name@ == before_question(after_last_slash(url@)),
{
    let cs = chars_of(url);
    let start = last_slash_start(&cs);
    let mut end: usize = start;
    let ghost tail = cs@.subrange(start as int, cs.len() as int);
    while end < cs.len() && cs[end] != '?'
        invariant
            start <= end <= cs.len(),
            tail == cs@.subrange(start as int, cs.len() as int),
            forall|k: int| 0 <= k < end - start ==> tail[k] != '?',
        decreases cs.len() - end,
    {
        end = end + 1;
    }
    proof {
        lemma_before_question_range(tail, end - start);
        let rest = tail.subrange(end - start, tail.len() as int);
        if end < cs.len() {
            assert(rest[0] == '?');
        } else {
            assert(rest.len() == 0);
        }
        assert(before_question(rest) =~= Seq::<char>::empty());
        assert(tail.subrange(0, end - start) =~= cs@.subrange(start as int, end as int));
    }
    crate::text::string_from_range(&cs, start, end)
}

/// The shell's name from the `SHELL` variable: the text after the last `/`.
pub fn shell_name_from_path(shell_path: &str) -> (name: String)
    ensures
        name@ == after_last_slash(shell_path@),
{
    let cs = chars_of(shell_path);
    let start = last_slash_start(&cs);
    crate::text::string_from_range(&cs, start, cs.len())
}

/// The shell start-up file for `shell` under `home`: `.zshrc` for zsh; for
/// bash `.bash_profile` when it is preferred (it exists on macOS), else
/// `.bashrc`; `.bashrc` for any other shell.
pub fn rc_file_path(shell: &str, home: &str, bash_profile_preferred: bool) -> (p: String)
    ensures
        p@ == home@ + (if shell@ == "zsh"@ {
            "/.zshrc"@
        } else if shell@ == "bash"@ && bash_profile_preferred {
            "/.bash_profile"@
        } else {
            "/.bashrc"@
        }),
{
    let mut p = String::from_str(home);
    if crate::text::str_eq(shell, "zsh") {
        p.append("/.zshrc");
    } else if crate::text::str_eq(shell, "bash") && bash_profile_preferred {
        p.append("/.bash_profile");
    } else {
        p.append("/.bashrc");
    }
    p
}

} // verus!
