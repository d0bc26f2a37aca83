//! Shell environment statements for the proxy, and the runtime state record.

use vstd::prelude::*;
use crate::text::{decimal, decimal_string, join};
use crate::url::strings_view;

verus! {

/// The proxy environment variable values.
#[derive(Debug, Clone)]
pub struct EnvVars {
    pub http_proxy: String,
    pub socks_proxy: String,
    pub no_proxy: String,
}

/// `http://127.0.0.1:<port>`.
pub open spec fn http_proxy_url(port: u16) -> Seq<char> {
    "http://127.0.0.1:"@ + decimal(port as nat)
}

/// `socks5://127.0.0.1:<port>`.
pub open spec fn socks_proxy_url(port: u16) -> Seq<char> {
    "socks5://127.0.0.1:"@ + decimal(port as nat)
}

/// Hosts that bypass the proxy.
pub open spec fn no_proxy_list() -> Seq<char> {
    "localhost,127.0.0.1,::1"@
}

/// `export NAME="VALUE"`.
pub open spec fn export_line(name: Seq<char>, value: Seq<char>) -> Seq<char> {
    "export "@ + name + "=\""@ + value + "\""@
}

/// The variables set by `export_statements`, with their values, in output order.
pub open spec fn export_pairs(
    http: Seq<char>,
    socks: Seq<char>,
    no_proxy: Seq<char>,
    shell_pid: Option<u32>,
) -> Seq<(Seq<char>, Seq<char>)> {
    let pid_part: Seq<(Seq<char>, Seq<char>)> = match shell_pid {
        Some(p) => seq![("LADDER_SHELL_PID"@, decimal(p as nat))],
        None => Seq::empty(),
    };
    pid_part + seq![
        ("HTTP_PROXY"@, http),
        ("HTTPS_PROXY"@, http),
        ("ALL_PROXY"@, socks),
        ("http_proxy"@, http),
        ("https_proxy"@, http),
        ("all_proxy"@, socks),
        ("NO_PROXY"@, no_proxy),
        ("no_proxy"@, no_proxy),
    ]
}

/// The lines of `export_statements`: the shell PID line is unquoted, the
/// others quote their value.
pub open spec fn export_lines(
    http: Seq<char>,
    socks: Seq<char>,
    no_proxy: Seq<char>,
    shell_pid: Option<u32>,
) -> Seq<Seq<char>> {
    let pairs = export_pairs(http, socks, no_proxy, shell_pid);
    Seq::new(
        pairs.len(),
        |i: int|
            if shell_pid is Some && i == 0 {
                "export "@ + pairs[i].0 + "="@ + pairs[i].1
            } else {
                export_line(pairs[i].0, pairs[i].1)
            },
    )
}

/// The variable groups unset by `unset_statements`, one line per group.
pub open spec fn unset_groups() -> Seq<Seq<Seq<char>>> {
    seq![
        seq!["HTTP_PROXY"@, "HTTPS_PROXY"@, "ALL_PROXY"@],
        seq!["http_proxy"@, "https_proxy"@, "all_proxy"@],
        seq!["NO_PROXY"@, "no_proxy"@],
        seq!["LADDER_SHELL_PID"@],
    ]
}

/// The text of `unset_statements`.
pub open spec fn unset_text() -> Seq<char> {
    join(
        Seq::new(unset_groups().len(), |i: int| "unset "@ + join(unset_groups()[i], " "@)),
        "\n"@,
    )
}

/// `lines` joined by `sep`.
pub fn join_strings(lines: &Vec<String>, sep: &str) -> (res: String)
    ensures
        res@ == join(strings_view(lines@), sep@),
{
    let mut res = String::new();
    let mut i: usize = 0;
    while i < lines.len()
        invariant
            i <= lines.len(),
            res@ == join(strings_view(lines@.subrange(0, i as int)), sep@),
        decreases lines.len() - i,
    {
        proof {
            let pre = strings_view(lines@.subrange(0, i + 1));
            assert(pre.drop_last() =~= strings_view(lines@.subrange(0, i as int)));
            assert(pre.last() == lines@[i as int]@);
        }
        if i > 0 {
            res.append(sep);
        }
        res.append(lines[i].as_str());
        i = i + 1;
    }
    assert(lines@.subrange(0, lines.len() as int) =~= lines@);
    res
}

/// `unset` followed by the given names separated by spaces.
fn unset_line(names: &Vec<String>) -> (s: String)
    ensures
        s@ == "unset "@ + join(strings_view(names@), " "@),
{
    let joined = join_strings(names, " ");
    let mut s = String::from_str("unset ");
    s.append(joined.as_str());
    s
}

/// `prefix` followed by the decimal text of `n`.
fn with_decimal(prefix: &str, n: u64) -> (s: String)
    ensures
        s@ == prefix@ + decimal(n as nat),
{
    let d = decimal_string(n);
    let mut s = String::from_str(prefix);
    s.append(d.as_str());
    s
}

/// `export NAME="VALUE"` as a string.
fn quoted_export(name: &str, value: &str) -> (s: String)
    ensures
        s@ == export_line(name@, value@),
{
    let mut s = String::from_str("export ");
    s.append(name);
    s.append("=\"");
    s.append(value);
    s.append("\"");
    s
}

impl EnvVars {
    /// Proxy URLs on the loopback address for the given ports.
    pub fn new(http_port: u16, socks_port: u16) -> (e: Self)
        ensures
            e.http_proxy@ == http_proxy_url(http_port),
            e.socks_proxy@ == socks_proxy_url(socks_port),
            e.no_proxy@ == no_proxy_list(),
    {
        EnvVars {
            http_proxy: with_decimal("http://127.0.0.1:", http_port as u64),
            socks_proxy: with_decimal("socks5://127.0.0.1:", socks_port as u64),
            no_proxy: String::from_str("localhost,127.0.0.1,::1"),
        }
    }

    /// Shell `export` statements, one per line; the shell PID comes first
    /// when given.
    pub fn export_statements(&self, shell_pid: Option<u32>) -> (res: String)
        ensures
            res@ == join(
                export_lines(self.http_proxy@, self.socks_proxy@, self.no_proxy@, shell_pid),
                "\n"@,
            ),
    {
        let mut lines: Vec<String> = Vec::new();
        let ghost expected = export_lines(
            self.http_proxy@,
            self.socks_proxy@,
            self.no_proxy@,
            shell_pid,
        );
        match shell_pid {
            Some(pid) => {
                lines.push(with_decimal("export LADDER_SHELL_PID=", pid as u64));
            },
            None => {},
        }
        let h = self.http_proxy.as_str();
        let s = self.socks_proxy.as_str();
        let n = self.no_proxy.as_str();
        lines.push(quoted_export("HTTP_PROXY", h));
        lines.push(quoted_export("HTTPS_PROXY", h));
        lines.push(quoted_export("ALL_PROXY", s));
        lines.push(quoted_export("http_proxy", h));
        lines.push(quoted_export("https_proxy", h));
        lines.push(quoted_export("all_proxy", s));
        lines.push(quoted_export("NO_PROXY", n));
        lines.push(quoted_export("no_proxy", n));
        proof {
            assert(("export LADDER_SHELL_PID="@) =~= "export "@ + "LADDER_SHELL_PID"@ + "="@)
                by {
                reveal_strlit("export LADDER_SHELL_PID=");
                reveal_strlit("export ");
                reveal_strlit("LADDER_SHELL_PID");
                reveal_strlit("=");
            }
            assert(strings_view(lines@) =~= expected);
        }
        join_strings(&lines, "\n")
    }

    /// Shell `unset` statements for every variable `export_statements` sets.
    pub fn unset_statements() -> (res: String)
        ensures
            res@ == unset_text(),
    {
        let mut lines: Vec<String> = Vec::new();
        let mut g0: Vec<String> = Vec::new();
        g0.push(String::from_str("HTTP_PROXY"));
        g0.push(String::from_str("HTTPS_PROXY"));
        g0.push(String::from_str("ALL_PROXY"));
        lines.push(unset_line(&g0));
        let mut g1: Vec<String> = Vec::new();
        g1.push(String::from_str("http_proxy"));
        g1.push(String::from_str("https_proxy"));
        g1.push(String::from_str("all_proxy"));
        lines.push(unset_line(&g1));
        let mut g2: Vec<String> = Vec::new();
        g2.push(String::from_str("NO_PROXY"));
        g2.push(String::from_str("no_proxy"));
        lines.push(unset_line(&g2));
        let mut g3: Vec<String> = Vec::new();
        g3.push(String::from_str("LADDER_SHELL_PID"));
        lines.push(unset_line(&g3));
        proof {
            let g = unset_groups();
            assert(strings_view(g0@) =~= g[0]);
            assert(strings_view(g1@) =~= g[1]);
            assert(strings_view(g2@) =~= g[2]);
            assert(strings_view(g3@) =~= g[3]);
            assert(strings_view(lines@) =~= Seq::new(
                unset_groups().len(),
                |i: int| "unset "@ + join(unset_groups()[i], " "@),
            ));
        }
        join_strings(&lines, "\n")
    }
}

/// Every variable that `export_statements` sets is cleared by `unset_statements`.
pub proof fn law_unset_covers_export(
    http: Seq<char>,
    socks: Seq<char>,
    no_proxy: Seq<char>,
    shell_pid: Option<u32>,
)
    ensures
        forall|i: int|
            0 <= i < export_pairs(http, socks, no_proxy, shell_pid).len() ==> exists|g: int, k: int|
                0 <= g < unset_groups().len() && 0 <= k < unset_groups()[g].len()
                    && #[trigger] export_pairs(http, socks, no_proxy, shell_pid)[i].0
                    == unset_groups()[g][k],
{
    let pairs = export_pairs(http, socks, no_proxy, shell_pid);
    let groups = unset_groups();
    let off: int = if shell_pid is Some { 1 } else { 0 };
    assert forall|i: int| 0 <= i < pairs.len() implies exists|g: int, k: int|
        0 <= g < groups.len() && 0 <= k < groups[g].len() && #[trigger] pairs[i].0
            == groups[g][k] by {
        if shell_pid is Some && i == 0 {
            assert(pairs[i].0 == groups[3][0]);
        } else {
            let j = i - off;
            if j == 0 {
                assert(pairs[i].0 == groups[0][0]);
            } else if j == 1 {
                assert(pairs[i].0 == groups[0][1]);
            } else if j == 2 {
                assert(pairs[i].0 == groups[0][2]);
            } else if j == 3 {
                assert(pairs[i].0 == groups[1][0]);
            } else if j == 4 {
                assert(pairs[i].0 == groups[1][1]);
            } else if j == 5 {
                assert(pairs[i].0 == groups[1][2]);
            } else if j == 6 {
                assert(pairs[i].0 == groups[2][0]);
            } else {
                assert(pairs[i].0 == groups[2][1]);
            }
        }
    }
}

/// The shell PID variable is exported exactly when a shell PID is given.
pub proof fn law_shell_pid_exported_iff_given(
    http: Seq<char>,
    socks: Seq<char>,
    no_proxy: Seq<char>,
    shell_pid: Option<u32>,
)
    ensures
        (exists|i: int|
            0 <= i < export_pairs(http, socks, no_proxy, shell_pid).len()
                && #[trigger] export_pairs(http, socks, no_proxy, shell_pid)[i].0
                == "LADDER_SHELL_PID"@) <==> shell_pid is Some,
{
    let pairs = export_pairs(http, socks, no_proxy, shell_pid);
    reveal_strlit("LADDER_SHELL_PID");
    reveal_strlit("HTTP_PROXY");
    reveal_strlit("HTTPS_PROXY");
    reveal_strlit("ALL_PROXY");
    reveal_strlit("http_proxy");
    reveal_strlit("https_proxy");
    reveal_strlit("all_proxy");
    reveal_strlit("NO_PROXY");
    reveal_strlit("no_proxy");
    if shell_pid is Some {
        assert(pairs[0].0 == "LADDER_SHELL_PID"@);
    } else {
        assert forall|i: int| 0 <= i < pairs.len() implies #[trigger] pairs[i].0
            != "LADDER_SHELL_PID"@ by {
            assert(pairs[i].0.len() != 16 || pairs[i].0[0] != 'L');
        }
    }
}

/// The runtime state record kept while the proxy runs.
#[derive(Debug, Clone)]
pub struct RuntimeState {
    /// PID of the managing process itself.
    pub pid: Option<u32>,
    /// PID of the mihomo child process.
    pub mihomo_pid: Option<u32>,
    /// PID of the bound parent shell.
    pub shell_pid: Option<u32>,
    /// HTTP proxy port.
    pub http_port: u16,
    /// SOCKS5 proxy port.
    pub socks_port: u16,
    /// Mihomo API control port.
    pub control_port: u16,
    /// Name of the selected node.
    pub current_node: Option<String>,
    /// Whether the proxy runs.
    pub running: bool,
}

impl Default for RuntimeState {
    fn default() -> (s: Self)
        ensures
            s.pid is None,
            s.mihomo_pid is None,
            s.shell_pid is None,
            s.http_port == 0,
            s.socks_port == 0,
            s.control_port == 0,
            s.current_node is None,
            !s.running,
    {
        RuntimeState {
            pid: None,
            mihomo_pid: None,
            shell_pid: None,
            http_port: 0,
            socks_port: 0,
            control_port: 0,
            current_node: None,
            running: false,
        }
    }
}

/// `dir` joined with `file` as `Path::join` does for a relative file name.
pub open spec fn path_join(dir: Seq<char>, file: Seq<char>) -> Seq<char> {
    if dir.len() == 0 || dir.last() == '/' {
        dir + file
    } else {
        dir + "/"@ + file
    }
}

impl RuntimeState {
    /// Location of the state file inside the cache directory `cache_dir`.
    pub fn state_path(cache_dir: &str) -> (p: String)
        ensures
            p@ == path_join(cache_dir@, "state.json"@),
    {
        let n: usize = cache_dir.unicode_len();
        let mut p = String::from_str(cache_dir);
        if n > 0 && cache_dir.get_char(n - 1) != '/' {
            p.append("/");
        }
        p.append("state.json");
        p
    }
}

/// Joining a line in front of a non-empty list puts the separator between it
/// and the join of the rest.
proof fn lemma_join_prepend(first: Seq<char>, rest: Seq<Seq<char>>, sep: Seq<char>)
    requires
        rest.len() >= 1,
    ensures
        join(seq![first] + rest, sep) == first + sep + join(rest, sep),
    decreases rest.len(),
{
    let all = seq![first] + rest;
    assert(all.drop_last() =~= seq![first] + rest.drop_last());
    assert(all.last() == rest.last());
    assert(join(all, sep) == join(all.drop_last(), sep) + sep + all.last());
    if rest.len() == 1 {
        assert(all.drop_last() =~= seq![first]);
        assert(join(seq![first], sep) == first);
        assert(join(rest, sep) == rest[0]);
    } else {
        lemma_join_prepend(first, rest.drop_last(), sep);
        assert(join(rest, sep) == join(rest.drop_last(), sep) + sep + rest.last());
        assert(first + sep + join(rest.drop_last(), sep) + sep + rest.last() =~= first + sep + (
        join(rest.drop_last(), sep) + sep + rest.last()));
    }
}

/// With a shell PID, the export text is the PID line, a newline, and then
/// exactly the text exported without one.
pub proof fn law_export_with_pid_prefixes_plain(
    http: Seq<char>,
    socks: Seq<char>,
    no_proxy: Seq<char>,
    pid: u32,
)
    ensures
        join(export_lines(http, socks, no_proxy, Some(pid)), "\n"@) == "export LADDER_SHELL_PID="@
            + decimal(pid as nat) + "\n"@ + join(export_lines(http, socks, no_proxy, None), "\n"@),
{
    let with = export_lines(http, socks, no_proxy, Some(pid));
    let plain = export_lines(http, socks, no_proxy, None);
    assert(("export LADDER_SHELL_PID="@) =~= "export "@ + "LADDER_SHELL_PID"@ + "="@) by {
        reveal_strlit("export LADDER_SHELL_PID=");
        reveal_strlit("export ");
        reveal_strlit("LADDER_SHELL_PID");
        reveal_strlit("=");
    }
    let pid_line = "export LADDER_SHELL_PID="@ + decimal(pid as nat);
    assert(with =~= seq![pid_line] + plain);
    lemma_join_prepend(pid_line, plain, "\n"@);
}

/// The HTTP(S) proxy variables, in both cases, are set to the HTTP proxy
/// URL; only `ALL_PROXY`/`all_proxy` carry the SOCKS URL and only
/// `NO_PROXY`/`no_proxy` the bypass list. Each of these eight variables is
/// exported, after the shell PID line when a PID is given, and every line but
/// the PID line is `export NAME="VALUE"` for its variable.
pub proof fn law_export_values_by_variable(
    http: Seq<char>,
    socks: Seq<char>,
    no_proxy: Seq<char>,
    shell_pid: Option<u32>,
)
    ensures
        ({
            let pairs = export_pairs(http, socks, no_proxy, shell_pid);
            let lines = export_lines(http, socks, no_proxy, shell_pid);
            let off: int = if shell_pid is Some { 1 } else { 0 };
            &&& pairs.len() == 8 + off
            &&& lines.len() == pairs.len()
            &&& forall|i: int|
                0 <= i < pairs.len() ==> {
                    &&& ((#[trigger] pairs[i]).0 == "HTTP_PROXY"@ || pairs[i].0 == "HTTPS_PROXY"@
                        || pairs[i].0 == "http_proxy"@ || pairs[i].0 == "https_proxy"@) ==> pairs[i].1
                        == http
                    &&& (pairs[i].0 == "ALL_PROXY"@ || pairs[i].0 == "all_proxy"@) ==> pairs[i].1
                        == socks
                    &&& (pairs[i].0 == "NO_PROXY"@ || pairs[i].0 == "no_proxy"@) ==> pairs[i].1
                        == no_proxy
                    &&& i >= off ==> lines[i] == "export "@ + pairs[i].0 + "=\""@ + pairs[i].1
                        + "\""@
                }
            &&& shell_pid matches Some(p) ==> pairs[0] == ("LADDER_SHELL_PID"@, decimal(p as nat))
            &&& Seq::new(8, |i: int| pairs[off + i].0) == seq![
                "HTTP_PROXY"@, "HTTPS_PROXY"@, "ALL_PROXY"@, "http_proxy"@,
                "https_proxy"@, "all_proxy"@, "NO_PROXY"@, "no_proxy"@,
            ]
        }),
{
    let pairs = export_pairs(http, socks, no_proxy, shell_pid);
    let off: int = if shell_pid is Some { 1 } else { 0 };
    reveal_strlit("LADDER_SHELL_PID");
    reveal_strlit("HTTP_PROXY");
    reveal_strlit("HTTPS_PROXY");
    reveal_strlit("ALL_PROXY");
    reveal_strlit("http_proxy");
    reveal_strlit("https_proxy");
    reveal_strlit("all_proxy");
    reveal_strlit("NO_PROXY");
    reveal_strlit("no_proxy");
    assert(pairs[off + 0].0 == "HTTP_PROXY"@);
    assert(pairs[off + 1].0 == "HTTPS_PROXY"@);
    assert(pairs[off + 2].0 == "ALL_PROXY"@);
    assert(pairs[off + 3].0 == "http_proxy"@);
    assert(pairs[off + 4].0 == "https_proxy"@);
    assert(pairs[off + 5].0 == "all_proxy"@);
    assert(pairs[off + 6].0 == "NO_PROXY"@);
    assert(pairs[off + 7].0 == "no_proxy"@);
    assert(Seq::new(8, |i: int| pairs[off + i].0) =~= seq![
        "HTTP_PROXY"@, "HTTPS_PROXY"@, "ALL_PROXY"@, "http_proxy"@,
        "https_proxy"@, "all_proxy"@, "NO_PROXY"@, "no_proxy"@,
    ]);
}

} // verus!
