//! State of the interactive node picker: tabs, cursor, node list, background
//! operations, and how keys and background results change it.

use vstd::prelude::*;
use crate::api::ProxyInfo;
use crate::config::{LadderConfig, Subscription};
use crate::env::RuntimeState;
use crate::mihomo::SubscriptionUpdateReport;
use crate::text::{decimal, decimal_string};
pub use crate::nodes::{build_node_list, is_group_type, is_reserved_proxy};
use crate::nodes::{
    current_node_of, distinct_names, main_group_index_spec, mark_views, node_list_spec, nodes_view,
    switch_candidates,
};

verus! {

/// What the picker is doing.
#[derive(Debug, Clone, Copy, PartialEq, Eq, Structural)]
pub enum AppMode {
    Normal,
    /// Speed test in progress.
    Testing,
    /// Automatic best-node selection in progress.
    AutoBest,
    /// Subscription update in progress.
    Updating,
}

/// Results that background operations send back to the picker.
pub enum BgMessage {
    /// One node's delay (0 = timeout).
    DelayResult(String, u64),
    /// The speed test finished.
    SpeedTestDone,
    /// Best-node selection finished: the node and its delay, or the error text.
    AutoBestDone(Result<(String, u64), String>),
    /// Subscription update finished: per-subscription reports, or the error text.
    UpdateDone(Result<Vec<SubscriptionUpdateReport>, String>),
    /// A status line to show.
    Status(String),
}

/// One row of the node table.
#[derive(Debug, Clone)]
pub struct NodeEntry {
    pub name: String,
    /// Latest delay in ms; 0 = timeout or unknown.
    pub delay: u64,
    pub is_current: bool,
    /// Subscription the node belongs to.
    pub subscription: String,
}

/// A tab of the node table.
#[derive(Debug, Clone)]
pub enum TabFilter {
    All,
    Sub(String),
}

impl TabFilter {
    /// The tab title: `全部` for all nodes, else the subscription name.
    pub fn label(&self) -> (s: String)
        ensures
            match self {
                TabFilter::All => s@ == "全部"@,
                TabFilter::Sub(n) => s@ == n@,
            },
    {
        match self {
            TabFilter::All => String::from_str("全部"),
            TabFilter::Sub(s) => s.clone(),
        }
    }
}

/// Keys the picker reacts to.
#[derive(Debug, Clone, Copy, PartialEq, Eq, Structural)]
pub enum Key {
    Esc,
    Enter,
    Up,
    Down,
    Left,
    Right,
    Tab,
    BackTab,
    Char(char),
    Other,
}

/// Work a key asks the surrounding event loop to do.
#[derive(Debug, Clone, Copy, PartialEq, Eq, Structural)]
pub enum KeyAction {
    Nothing,
    /// Cancel the running background operation.
    Cancel,
    /// Switch to the node under the cursor.
    Select,
    SpeedTest,
    AutoBest,
    UpdateProviders,
    Refresh,
}

/// Bookkeeping the event loop does after a background message.
#[derive(Debug, Clone, Copy, PartialEq, Eq, Structural)]
pub struct BgOutcome {
    /// Forget the cancellation handle of the finished operation.
    pub clear_cancel: bool,
    /// Reload the node list.
    pub refresh: bool,
}

/// The picker state.
pub struct App {
    pub cfg: LadderConfig,
    pub state: RuntimeState,
    /// Whether a Mihomo API client is available (the proxy runs).
    pub has_api: bool,
    /// All nodes.
    pub nodes: Vec<NodeEntry>,
    /// `[All, one tab per subscription]`.
    pub tabs: Vec<TabFilter>,
    pub active_tab: usize,
    /// Cursor position in the visible node list.
    pub cursor: usize,
    /// Name of the selected proxy node.
    pub current_node: Option<String>,
    pub mode: AppMode,
    pub status_msg: Option<String>,
    pub should_quit: bool,
    /// Speed test progress `(completed, total)`.
    pub test_progress: Option<(usize, usize)>,
}

/// The nodes shown under a tab.
pub open spec fn visible_spec(nodes: Seq<NodeEntry>, tab: TabFilter) -> Seq<NodeEntry>
    decreases nodes.len(),
{
    match tab {
        TabFilter::All => nodes,
        TabFilter::Sub(name) => if nodes.len() == 0 {
            Seq::empty()
        } else {
            let rest = visible_spec(nodes.drop_last(), tab);
            if nodes.last().subscription@ == name@ {
                rest.push(nodes.last())
            } else {
                rest
            }
        },
    }
}

/// The nodes a sequence of references points to.
pub open spec fn deref_nodes(v: Seq<&NodeEntry>) -> Seq<NodeEntry> {
    Seq::new(v.len(), |i: int| *v[i])
}

/// `(completed, total)` with `completed` below `total` or still zero.
pub open spec fn progress_ok(p: Option<(usize, usize)>) -> bool {
    match p {
        Some((d, t)) => d < t || d == 0,
        None => true,
    }
}

/// The cursor one row up, if there is a row above.
pub open spec fn cursor_up_spec(a: App) -> App {
    App {
        cursor: if a.visible().len() > 0 && a.cursor > 0 {
            (a.cursor - 1) as usize
        } else {
            a.cursor
        },
        ..a
    }
}

/// The cursor one row down, if there is a visible row below.
pub open spec fn cursor_down_spec(a: App) -> App {
    App {
        cursor: if a.visible().len() > 0 && a.cursor + 1 < a.visible().len() {
            (a.cursor + 1) as usize
        } else {
            a.cursor
        },
        ..a
    }
}

/// The next tab (wrapping), cursor at the top.
pub open spec fn next_tab_spec(a: App) -> App {
    App { active_tab: ((a.active_tab + 1) % (a.tabs@.len() as int)) as usize, cursor: 0, ..a }
}

/// The previous tab (wrapping), cursor at the top.
pub open spec fn prev_tab_spec(a: App) -> App {
    App {
        active_tab: if a.active_tab == 0 {
            (a.tabs@.len() - 1) as usize
        } else {
            (a.active_tab - 1) as usize
        },
        cursor: 0,
        ..a
    }
}

/// Idle, without progress, showing `status`.
pub open spec fn cancel_spec(a: App, status: Option<String>) -> App {
    App { mode: AppMode::Normal, test_progress: None, status_msg: status, ..a }
}

/// Effect of a navigation key (shared by idle and busy pickers), if it is one.
pub open spec fn nav_spec(a: App, key: Key) -> Option<App> {
    match key {
        Key::Up | Key::Char('k') => Some(cursor_up_spec(a)),
        Key::Down | Key::Char('j') => Some(cursor_down_spec(a)),
        Key::Tab | Key::Right | Key::Char('l') => Some(next_tab_spec(a)),
        Key::BackTab | Key::Left | Key::Char('h') => Some(prev_tab_spec(a)),
        _ => None,
    }
}

/// The picker after a key, and the work the key asks for. While a background
/// operation runs only cancelling (`Esc`, or `q` which also quits) and
/// navigation are available.
pub open spec fn key_spec(a: App, key: Key) -> (App, KeyAction) {
    if a.mode != AppMode::Normal {
        match key {
            Key::Esc => (a, KeyAction::Cancel),
            Key::Char('q') | Key::Char('Q') => (App { should_quit: true, ..a }, KeyAction::Cancel),
            _ => match nav_spec(a, key) {
                Some(b) => (b, KeyAction::Nothing),
                None => (a, KeyAction::Nothing),
            },
        }
    } else {
        match key {
            Key::Char('q') | Key::Char('Q') => (App { should_quit: true, ..a }, KeyAction::Nothing),
            Key::Enter => (a, KeyAction::Select),
            Key::Char('t') | Key::Char('T') => (a, KeyAction::SpeedTest),
            Key::Char('a') | Key::Char('A') => (a, KeyAction::AutoBest),
            Key::Char('u') | Key::Char('U') => (a, KeyAction::UpdateProviders),
            Key::Char('r') | Key::Char('R') => (a, KeyAction::Refresh),
            _ => match nav_spec(a, key) {
                Some(b) => (b, KeyAction::Nothing),
                None => (a, KeyAction::Nothing),
            },
        }
    }
}

impl App {
    /// The well-formedness of the picker: at least the `All` tab, an active
    /// tab that exists, and a sensible progress counter.
    pub open spec fn wf(&self) -> bool {
        &&& self.tabs@.len() >= 1
        &&& self.active_tab < self.tabs@.len()
        &&& progress_ok(self.test_progress)
    }

    /// The nodes shown under the active tab.
    pub open spec fn visible(&self) -> Seq<NodeEntry> {
        visible_spec(self.nodes@, self.tabs@[self.active_tab as int])
    }

    /// A picker for a configuration and runtime state: one tab for all nodes
    /// and one per subscription, no nodes yet, idle.
    pub fn new(cfg: LadderConfig, state: RuntimeState) -> (app: App)
        ensures
            app.wf(),
            app.tabs@.len() == cfg.subscriptions@.len() + 1,
            app.tabs@[0] is All,
            forall|i: int|
                0 <= i < cfg.subscriptions@.len() ==> (#[trigger] app.tabs@[i + 1] matches TabFilter::Sub(n) && n@ == cfg.subscriptions@[i].name@),
            app.has_api == state.running,
            app.cfg == cfg,
            app.state == state,
            app.nodes@.len() == 0,
            app.active_tab == 0,
            app.cursor == 0,
            app.current_node is None,
            app.mode == AppMode::Normal,
            app.status_msg is None,
            !app.should_quit,
            app.test_progress is None,
    {
        let mut tabs: Vec<TabFilter> = Vec::new();
        tabs.push(TabFilter::All);
        let mut i: usize = 0;
        while i < cfg.subscriptions.len()
            invariant
                i <= cfg.subscriptions@.len(),
                tabs@.len() == i + 1,
                tabs@[0] is All,
                forall|k: int|
                    0 <= k < i ==> (#[trigger] tabs@[k + 1] matches TabFilter::Sub(n) && n@ == cfg.subscriptions@[k].name@),
            decreases cfg.subscriptions.len() - i,
        {
            tabs.push(TabFilter::Sub(cfg.subscriptions[i].name.clone()));
            i = i + 1;
        }
        let has_api = state.running;
        App {
            cfg,
            state,
            has_api,
            nodes: Vec::new(),
            tabs,
            active_tab: 0,
            cursor: 0,
            current_node: None,
            mode: AppMode::Normal,
            status_msg: None,
            should_quit: false,
            test_progress: None,
        }
    }

    /// The nodes shown under the active tab, in list order.
    pub fn visible_nodes(&self) -> (v: Vec<&NodeEntry>)
        requires
            self.wf(),
        ensures
            deref_nodes(v@) == self.visible(),
    {
        let tab = &self.tabs[self.active_tab];
        let mut v: Vec<&NodeEntry> = Vec::new();
        let mut i: usize = 0;
        while i < self.nodes.len()
            invariant
                i <= self.nodes@.len(),
                *tab == self.tabs@[self.active_tab as int],
                deref_nodes(v@) == visible_spec(self.nodes@.subrange(0, i as int), *tab),
            decreases self.nodes.len() - i,
        {
            let ghost before = deref_nodes(v@);
            proof {
                let post = self.nodes@.subrange(0, i + 1);
                assert(post.drop_last() =~= self.nodes@.subrange(0, i as int));
            }
            let keep = match tab {
                TabFilter::All => true,
                TabFilter::Sub(name) => self.nodes[i].subscription == *name,
            };
            if keep {
                v.push(&self.nodes[i]);
                assert(deref_nodes(v@) =~= before.push(self.nodes@[i as int]));
            }
            proof {
                if let TabFilter::All = *tab {
                    assert(deref_nodes(v@) =~= self.nodes@.subrange(0, i + 1));
                }
            }
            i = i + 1;
        }
        assert(self.nodes@.subrange(0, self.nodes@.len() as int) =~= self.nodes@);
        v
    }

    /// Number of visible nodes.
    fn visible_len(&self) -> (n: usize)
        requires
            self.wf(),
        ensures
            n == self.visible().len(),
    {
        self.visible_nodes().len()
    }

    /// Moves the cursor one row up (not above the first row).
    pub fn cursor_up(&mut self)
        requires
            old(self).wf(),
        ensures
            *final(self) == cursor_up_spec(*old(self)),
            final(self).wf(),
    {
        let len = self.visible_len();
        if len == 0 {
            return;
        }
        if self.cursor > 0 {
            self.cursor = self.cursor - 1;
        }
    }

    /// Moves the cursor one row down (not below the last visible row).
    pub fn cursor_down(&mut self)
        requires
            old(self).wf(),
        ensures
            *final(self) == cursor_down_spec(*old(self)),
            final(self).wf(),
    {
        let len = self.visible_len();
        if len == 0 {
            return;
        }
        if self.cursor < len - 1 {
            self.cursor = self.cursor + 1;
        }
    }

    /// Cycles to the next tab (wrapping) and resets the cursor.
    pub fn next_tab(&mut self)
        requires
            old(self).wf(),
        ensures
            *final(self) == next_tab_spec(*old(self)),
            final(self).wf(),
    {
        let n: usize = self.tabs.len();
        assert(self.active_tab < n);
        self.active_tab = (self.active_tab + 1) % n;
        self.cursor = 0;
    }

    /// Cycles to the previous tab (wrapping) and resets the cursor.
    pub fn prev_tab(&mut self)
        requires
            old(self).wf(),
        ensures
            *final(self) == prev_tab_spec(*old(self)),
            final(self).wf(),
    {
        if self.active_tab == 0 {
            self.active_tab = self.tabs.len() - 1;
        } else {
            self.active_tab = self.active_tab - 1;
        }
        self.cursor = 0;
    }

    /// Shows a status message.
    pub fn set_status(&mut self, msg: String)
        ensures
            *final(self) == (App { status_msg: Some(msg), ..*old(self) }),
    {
        self.status_msg = Some(msg);
    }

    /// Clears the status message once it has `expired` (shown for more than
    /// three seconds) and the picker is idle; returns whether it cleared it.
    pub fn tick_status(&mut self, expired: bool) -> (cleared: bool)
        ensures
            cleared == (expired && old(self).mode == AppMode::Normal),
            *final(self) == (if cleared {
                App { status_msg: None, ..*old(self) }
            } else {
                *old(self)
            }),
    {
        if expired && self.mode == AppMode::Normal {
            self.status_msg = None;
            true
        } else {
            false
        }
    }

    /// Abandons the running background operation: back to idle, no progress.
    pub fn cancel_current(&mut self)
        ensures
            final(self).mode == AppMode::Normal,
            final(self).test_progress is None,
            final(self).status_msg matches Some(m) && m@ == "⚠ 操作已取消"@,
            *final(self) == cancel_spec(*old(self), final(self).status_msg),
    {
        self.mode = AppMode::Normal;
        self.test_progress = None;
        self.set_status(String::from_str("⚠ 操作已取消"));
    }

    /// Applies a navigation key; `false` when `key` is not one.
    fn navigate(&mut self, key: Key) -> (handled: bool)
        requires
            old(self).wf(),
        ensures
            final(self).wf(),
            match nav_spec(*old(self), key) {
                Some(b) => handled && *final(self) == b,
                None => !handled && *final(self) == *old(self),
            },
    {
        match key {
            Key::Up | Key::Char('k') => {
                self.cursor_up();
                true
            },
            Key::Down | Key::Char('j') => {
                self.cursor_down();
                true
            },
            Key::Tab | Key::Right | Key::Char('l') => {
                self.next_tab();
                true
            },
            Key::BackTab | Key::Left | Key::Char('h') => {
                self.prev_tab();
                true
            },
            _ => false,
        }
    }

    /// Handles a key press (see [`key_spec`]).
    pub fn handle_key(&mut self, key: Key) -> (action: KeyAction)
        requires
            old(self).wf(),
        ensures
            final(self).wf(),
            (*final(self), action) == key_spec(*old(self), key),
    {
        if self.mode != AppMode::Normal {
            match key {
                Key::Esc => KeyAction::Cancel,
                Key::Char('q') | Key::Char('Q') => {
                    self.should_quit = true;
                    KeyAction::Cancel
                },
                _ => {
                    self.navigate(key);
                    KeyAction::Nothing
                },
            }
        } else {
            match key {
                Key::Char('q') | Key::Char('Q') => {
                    self.should_quit = true;
                    KeyAction::Nothing
                },
                Key::Enter => KeyAction::Select,
                Key::Char('t') | Key::Char('T') => KeyAction::SpeedTest,
                Key::Char('a') | Key::Char('A') => KeyAction::AutoBest,
                Key::Char('u') | Key::Char('U') => KeyAction::UpdateProviders,
                Key::Char('r') | Key::Char('R') => KeyAction::Refresh,
                _ => {
                    self.navigate(key);
                    KeyAction::Nothing
                },
            }
        }
    }
}


/// Switching tabs forward then back returns to the same tab.
pub proof fn law_next_then_prev_tab(a: App)
    requires
        a.wf(),
        a.tabs@.len() <= usize::MAX,
    ensures
        prev_tab_spec(next_tab_spec(a)).active_tab == a.active_tab,
        next_tab_spec(a).wf(),
{
    let n = a.tabs@.len() as int;
    if a.active_tab + 1 == n {
        assert((a.active_tab + 1) % n == 0) by (nonlinear_arith)
            requires
                a.active_tab + 1 == n,
                n >= 1,
        ;
        assert(next_tab_spec(a).active_tab == 0);
    } else {
        assert((a.active_tab + 1) % n == a.active_tab + 1) by (nonlinear_arith)
            requires
                0 <= a.active_tab + 1 < n,
        ;
        assert(next_tab_spec(a).active_tab == a.active_tab + 1);
    }
}

/// While a background operation runs no key starts new work: keys only
/// cancel or navigate. Quitting an idle picker asks for no work at all, so
/// the proxy keeps running.
pub proof fn law_keys_while_busy(a: App, key: Key)
    ensures
        a.mode != AppMode::Normal ==> (key_spec(a, key).1 == KeyAction::Nothing || key_spec(a, key).1
            == KeyAction::Cancel),
        a.mode == AppMode::Normal && (key == Key::Char('q') || key == Key::Char('Q')) ==> key_spec(
            a,
            key,
        ).1 == KeyAction::Nothing && key_spec(a, key).0.should_quit,
{
}

/// `k` and `j` are the Up and Down keys, `l` and `h` the Right and Left
/// keys, whether or not a background operation runs. Up (and so `k`) moves
/// the cursor one row up when there is a row above and otherwise leaves it;
/// Down (and so `j`) moves it one row down when there is a visible row
/// below. Neither changes anything else nor asks for work.
pub proof fn law_vim_keys_are_arrows(a: App)
    requires
        a.visible().len() <= usize::MAX,
    ensures
        key_spec(a, Key::Char('k')) == key_spec(a, Key::Up),
        key_spec(a, Key::Char('j')) == key_spec(a, Key::Down),
        key_spec(a, Key::Char('l')) == key_spec(a, Key::Right),
        key_spec(a, Key::Char('h')) == key_spec(a, Key::Left),
        key_spec(a, Key::Up) == (
            App {
                cursor: if a.visible().len() > 0 && a.cursor > 0 {
                    (a.cursor - 1) as usize
                } else {
                    a.cursor
                },
                ..a
            },
            KeyAction::Nothing,
        ),
        key_spec(a, Key::Down) == (
            App {
                cursor: if a.cursor + 1 < a.visible().len() {
                    (a.cursor + 1) as usize
                } else {
                    a.cursor
                },
                ..a
            },
            KeyAction::Nothing,
        ),
        key_spec(a, Key::Up).0.cursor <= a.cursor,
        key_spec(a, Key::Down).0.cursor >= a.cursor,
{
}

/// Moving the cursor keeps it on a visible row.
pub proof fn law_cursor_stays_visible(a: App)
    requires
        a.wf(),
        a.cursor < a.visible().len(),
    ensures
        cursor_up_spec(a).cursor < cursor_up_spec(a).visible().len(),
        cursor_down_spec(a).cursor < cursor_down_spec(a).visible().len(),
{
}

// ─── Background results ─────────────────────────────────────────────────────

/// `nodes` with the delay of every node named `name` set to `d`.
pub open spec fn with_delay(nodes: Seq<NodeEntry>, name: Seq<char>, d: u64) -> Seq<NodeEntry> {
    Seq::new(
        nodes.len(),
        |i: int|
            if nodes[i].name@ == name {
                NodeEntry { delay: d, ..nodes[i] }
            } else {
                nodes[i]
            },
    )
}

/// `nodes` with exactly the nodes named `name` marked current.
pub open spec fn marked(nodes: Seq<NodeEntry>, name: Option<Seq<char>>) -> Seq<NodeEntry> {
    Seq::new(
        nodes.len(),
        |i: int| NodeEntry { is_current: name == Some(nodes[i].name@), ..nodes[i] },
    )
}

/// The progress counter after one more delay result.
pub open spec fn advance_progress(p: Option<(usize, usize)>) -> Option<(usize, usize)> {
    match p {
        Some((d, t)) => if d + 1 >= t {
            None
        } else {
            Some(((d + 1) as usize, t))
        },
        None => None,
    }
}

/// How many reports failed.
pub open spec fn count_failed(reports: Seq<SubscriptionUpdateReport>) -> nat
    decreases reports.len(),
{
    if reports.len() == 0 {
        0
    } else {
        count_failed(reports.drop_last()) + if reports.last().success {
            0nat
        } else {
            1nat
        }
    }
}

/// The status line after a subscription update.
pub open spec fn update_status_text(reports: Seq<SubscriptionUpdateReport>) -> Seq<char> {
    let failed = count_failed(reports);
    if failed == 0 {
        "✓ 已更新 "@ + decimal(reports.len()) + " 个订阅"@
    } else {
        "更新完成，"@ + decimal((reports.len() - failed) as nat) + " 个成功，"@ + decimal(failed)
            + " 个失败"@
    }
}

/// The status line after a successful best-node selection.
pub open spec fn auto_best_text(node: Seq<char>, delay: u64) -> Seq<char> {
    "✓ 已切换到最优节点 "@ + node + " ("@ + decimal(delay as nat) + "ms)"@
}

/// Fields that background results never touch.
pub open spec fn same_frame(a: App, b: App) -> bool {
    &&& b.cfg == a.cfg
    &&& b.state == a.state
    &&& b.has_api == a.has_api
    &&& b.tabs == a.tabs
    &&& b.active_tab == a.active_tab
    &&& b.cursor == a.cursor
    &&& b.should_quit == a.should_quit
}

/// The status line `a` shows after an error `e` of an operation, unless it
/// was cancelled.
pub open spec fn status_after_error(a: App, prefix: Seq<char>, e: Seq<char>, b: App) -> bool {
    if e != "cancelled"@ {
        b.status_msg matches Some(m) && m@ == prefix + e
    } else {
        b.status_msg == a.status_msg
    }
}

/// The picker after a background result (`a` before, `b` after).
pub open spec fn bg_spec(a: App, msg: BgMessage, b: App, out: BgOutcome) -> bool {
    &&& same_frame(a, b)
    &&& match msg {
        BgMessage::DelayResult(name, d) => {
            &&& b.nodes@ == with_delay(a.nodes@, name@, d)
            &&& b.test_progress == advance_progress(a.test_progress)
            &&& b.current_node == a.current_node
            &&& b.mode == a.mode
            &&& b.status_msg == a.status_msg
            &&& out == BgOutcome { clear_cancel: false, refresh: false }
        },
        BgMessage::SpeedTestDone => {
            &&& b.nodes == a.nodes
            &&& b.test_progress is None
            &&& b.current_node == a.current_node
            &&& b.mode == AppMode::Normal
            &&& b.status_msg == a.status_msg
            &&& out == BgOutcome { clear_cancel: true, refresh: false }
        },
        BgMessage::AutoBestDone(res) => {
            &&& b.test_progress == a.test_progress
            &&& b.mode == AppMode::Normal
            &&& out == BgOutcome { clear_cancel: true, refresh: false }
            &&& match res {
                Ok((node, delay)) => {
                    &&& b.current_node matches Some(c) && c@ == node@
                    &&& b.nodes@ == marked(a.nodes@, Some(node@))
                    &&& b.status_msg matches Some(m) && m@ == auto_best_text(node@, delay)
                },
                Err(e) => {
                    &&& b.current_node == a.current_node
                    &&& b.nodes == a.nodes
                    &&& status_after_error(a, "自动选优失败: "@, e@, b)
                },
            }
        },
        BgMessage::UpdateDone(res) => {
            &&& b.test_progress == a.test_progress
            &&& b.mode == AppMode::Normal
            &&& b.current_node == a.current_node
            &&& b.nodes == a.nodes
            &&& match res {
                Ok(reports) => {
                    &&& b.status_msg matches Some(m) && m@ == update_status_text(reports@)
                    &&& out == BgOutcome { clear_cancel: true, refresh: true }
                },
                Err(e) => {
                    &&& status_after_error(a, "更新失败: "@, e@, b)
                    &&& out == BgOutcome { clear_cancel: true, refresh: false }
                },
            }
        },
        BgMessage::Status(m) => {
            &&& b.nodes == a.nodes
            &&& b.test_progress == a.test_progress
            &&& b.current_node == a.current_node
            &&& b.mode == a.mode
            &&& b.status_msg == Some(m)
            &&& out == BgOutcome { clear_cancel: false, refresh: false }
        },
    }
}

/// `prefix` followed by `s`.
fn prefixed(prefix: &str, s: &str) -> (r: String)
    ensures
        r@ == prefix@ + s@,
{
    let mut r = String::from_str(prefix);
    r.append(s);
    r
}

/// The status line after a subscription update.
pub fn update_status_message(reports: &Vec<SubscriptionUpdateReport>) -> (m: String)
    ensures
        m@ == update_status_text(reports@),
{
    let mut failed: usize = 0;
    let mut i: usize = 0;
    while i < reports.len()
        invariant
            i <= reports.len(),
            failed == count_failed(reports@.subrange(0, i as int)),
            failed <= i,
        decreases reports.len() - i,
    {
        proof {
            assert(reports@.subrange(0, i + 1).drop_last() =~= reports@.subrange(0, i as int));
        }
        if !reports[i].success {
            failed = failed + 1;
        }
        i = i + 1;
    }
    assert(reports@.subrange(0, reports.len() as int) =~= reports@);
    if failed == 0 {
        let mut m = String::from_str("✓ 已更新 ");
        m.append(decimal_string(reports.len() as u64).as_str());
        m.append(" 个订阅");
        m
    } else {
        let mut m = String::from_str("更新完成，");
        m.append(decimal_string((reports.len() - failed) as u64).as_str());
        m.append(" 个成功，");
        m.append(decimal_string(failed as u64).as_str());
        m.append(" 个失败");
        m
    }
}

impl App {
    /// Sets the delay of every node called `name`.
    fn set_node_delay(&mut self, name: &String, d: u64)
        ensures
            final(self).nodes@ == with_delay(old(self).nodes@, name@, d),
            *final(self) == (App { nodes: final(self).nodes, ..*old(self) }),
    {
        let ghost orig = self.nodes@;
        let mut i: usize = 0;
        while i < self.nodes.len()
            invariant
                i <= self.nodes@.len(),
                self.nodes@.len() == orig.len(),
                forall|k: int| 0 <= k < i ==> #[trigger] self.nodes@[k] == with_delay(orig, name@, d)[k],
                forall|k: int| i <= k < orig.len() ==> #[trigger] self.nodes@[k] == orig[k],
                *self == (App { nodes: self.nodes, ..*old(self) }),
            decreases self.nodes.len() - i,
        {
            if self.nodes[i].name == *name {
                let e = NodeEntry {
                    name: self.nodes[i].name.clone(),
                    delay: d,
                    is_current: self.nodes[i].is_current,
                    subscription: self.nodes[i].subscription.clone(),
                };
                self.nodes.set(i, e);
            }
            i = i + 1;
        }
        assert(self.nodes@ =~= with_delay(orig, name@, d));
    }

    /// Marks exactly the nodes called `name` as current.
    pub fn mark_current(&mut self, name: &Option<String>)
        ensures
            final(self).nodes@ == marked(
                old(self).nodes@,
                match name {
                    Some(n) => Some(n@),
                    None => None,
                },
            ),
            *final(self) == (App { nodes: final(self).nodes, ..*old(self) }),
    {
        let ghost orig = self.nodes@;
        let ghost nv: Option<Seq<char>> = match name {
            Some(n) => Some(n@),
            None => None,
        };
        let mut i: usize = 0;
        while i < self.nodes.len()
            invariant
                i <= self.nodes@.len(),
                self.nodes@.len() == orig.len(),
                nv == match name {
                    Some(n) => Some(n@),
                    None => None::<Seq<char>>,
                },
                forall|k: int| 0 <= k < i ==> #[trigger] self.nodes@[k] == marked(orig, nv)[k],
                forall|k: int| i <= k < orig.len() ==> #[trigger] self.nodes@[k] == orig[k],
                *self == (App { nodes: self.nodes, ..*old(self) }),
            decreases self.nodes.len() - i,
        {
            let cur = match name {
                Some(n) => self.nodes[i].name == *n,
                None => false,
            };
            let e = NodeEntry {
                name: self.nodes[i].name.clone(),
                delay: self.nodes[i].delay,
                is_current: cur,
                subscription: self.nodes[i].subscription.clone(),
            };
            self.nodes.set(i, e);
            i = i + 1;
        }
        assert(self.nodes@ =~= marked(orig, nv));
    }

    /// Applies one background result (see [`bg_spec`]); the event loop does
    /// the returned bookkeeping.
    pub fn apply_bg_message(&mut self, msg: BgMessage) -> (out: BgOutcome)
        requires
            old(self).wf(),
        ensures
            final(self).wf(),
            bg_spec(*old(self), msg, *final(self), out),
    {
        match msg {
            BgMessage::DelayResult(name, delay) => {
                self.set_node_delay(&name, delay);
                match self.test_progress {
                    Some((done, total)) => {
                        let next: usize = done + 1;
                        if next >= total {
                            self.test_progress = None;
                        } else {
                            self.test_progress = Some((next, total));
                        }
                    },
                    None => {},
                }
                BgOutcome { clear_cancel: false, refresh: false }
            },
            BgMessage::SpeedTestDone => {
                self.mode = AppMode::Normal;
                self.test_progress = None;
                BgOutcome { clear_cancel: true, refresh: false }
            },
            BgMessage::AutoBestDone(result) => {
                match result {
                    Ok((node, delay)) => {
                        let cur = Some(node.clone());
                        self.mark_current(&cur);
                        self.current_node = cur;
                        let mut m = prefixed("✓ 已切换到最优节点 ", node.as_str());
                        m.append(" (");
                        m.append(decimal_string(delay).as_str());
                        m.append("ms)");
                        self.set_status(m);
                    },
                    Err(e) => {
                        if !crate::text::str_eq(e.as_str(), "cancelled") {
                            self.set_status(prefixed("自动选优失败: ", e.as_str()));
                        }
                    },
                }
                self.mode = AppMode::Normal;
                BgOutcome { clear_cancel: true, refresh: false }
            },
            BgMessage::UpdateDone(result) => {
                let refresh = match result {
                    Ok(reports) => {
                        self.set_status(update_status_message(&reports));
                        true
                    },
                    Err(e) => {
                        if !crate::text::str_eq(e.as_str(), "cancelled") {
                            self.set_status(prefixed("更新失败: ", e.as_str()));
                        }
                        false
                    },
                };
                self.mode = AppMode::Normal;
                BgOutcome { clear_cancel: true, refresh }
            },
            BgMessage::Status(m) => {
                self.set_status(m);
                BgOutcome { clear_cancel: false, refresh: false }
            },
        }
    }
}


// ─── Refresh, selection, and starting background work ───────────────────────

/// The node selected in the main group of a proxies table.
pub open spec fn current_of(t: Seq<(String, ProxyInfo)>) -> Option<Seq<char>> {
    let k = main_group_index_spec(t, switch_candidates());
    if k >= 0 {
        match t[k].1.now {
            Some(n) => Some(n@),
            None => None,
        }
    } else {
        None
    }
}

/// `测速中... (<done>/<total>)`.
pub open spec fn progress_text(done: nat, total: nat) -> Seq<char> {
    "测速中... ("@ + decimal(done) + "/"@ + decimal(total) + ")"@
}

/// The status line while a speed test runs.
pub fn speed_test_status(done: usize, total: usize) -> (s: String)
    ensures
        s@ == progress_text(done as nat, total as nat),
{
    let mut s = String::from_str("测速中... (");
    s.append(decimal_string(done as u64).as_str());
    s.append("/");
    s.append(decimal_string(total as u64).as_str());
    s.append(")");
    s
}

impl App {
    /// Replaces the node list with the one built from `proxies` and marks the
    /// node selected in the main group.
    pub fn apply_refresh(&mut self, proxies: &Vec<(String, ProxyInfo)>)
        requires
            old(self).wf(),
            distinct_names(proxies@),
        ensures
            final(self).wf(),
            nodes_view(final(self).nodes@) == mark_views(
                node_list_spec(proxies@, old(self).cfg.subscriptions@),
                current_of(proxies@),
            ),
            final(self).current_node matches Some(c) ==> current_of(proxies@) == Some(c@),
            final(self).current_node is None ==> current_of(proxies@) is None,
            final(self).cfg == old(self).cfg,
            final(self).state == old(self).state,
            final(self).has_api == old(self).has_api,
            final(self).tabs == old(self).tabs,
            final(self).active_tab == old(self).active_tab,
            final(self).cursor == old(self).cursor,
            final(self).mode == old(self).mode,
            final(self).status_msg == old(self).status_msg,
            final(self).should_quit == old(self).should_quit,
            final(self).test_progress == old(self).test_progress,
    {
        self.nodes = build_node_list(proxies, &self.cfg);
        let cur = current_node_of(proxies);
        let ghost built = self.nodes@;
        self.mark_current(&cur);
        self.current_node = cur;
        assert(nodes_view(self.nodes@) =~= mark_views(nodes_view(built), current_of(proxies@)));
    }

    /// Reports that the node list could not be refreshed.
    pub fn refresh_failed(&mut self, err: &str)
        ensures
            final(self).status_msg matches Some(m) && m@ == "Refresh error: "@ + err@,
            *final(self) == (App { status_msg: final(self).status_msg, ..*old(self) }),
    {
        self.set_status(prefixed("Refresh error: ", err));
    }

    /// The name of the node under the cursor; `None` when no node is visible.
    pub fn selected_node_name(&self) -> (res: Option<String>)
        requires
            self.wf(),
            self.visible().len() > 0 ==> self.cursor < self.visible().len(),
        ensures
            match res {
                Some(n) => self.visible().len() > 0 && n@ == self.visible()[self.cursor as int].name@,
                None => self.visible().len() == 0,
            },
    {
        let visible = self.visible_nodes();
        if visible.len() == 0 {
            return None;
        }
        Some(visible[self.cursor].name.clone())
    }

    /// Records the outcome of switching to `node`: on success it becomes the
    /// current node; either way the status line says what happened.
    pub fn apply_selection(&mut self, node: String, result: Result<(), String>)
        ensures
            match result {
                Ok(_) => {
                    &&& final(self).current_node == Some(node)
                    &&& final(self).nodes@ == marked(old(self).nodes@, Some(node@))
                    &&& final(self).status_msg matches Some(m) && m@ == "✓ 已切换到 "@ + node@
                    &&& *final(self) == (App {
                        current_node: final(self).current_node,
                        nodes: final(self).nodes,
                        status_msg: final(self).status_msg,
                        ..*old(self)
                    })
                },
                Err(e) => {
                    &&& final(self).status_msg matches Some(m) && m@ == "切换失败: "@ + e@
                    &&& *final(self) == (App { status_msg: final(self).status_msg, ..*old(self) })
                },
            },
    {
        match result {
            Ok(_) => {
                let msg = prefixed("✓ 已切换到 ", node.as_str());
                let cur = Some(node);
                self.mark_current(&cur);
                self.current_node = cur;
                self.set_status(msg);
            },
            Err(e) => {
                self.set_status(prefixed("切换失败: ", e.as_str()));
            },
        }
    }

    /// Starts a speed test of all nodes: returns their names, in list order.
    pub fn begin_speed_test(&mut self) -> (names: Vec<String>)
        requires
            old(self).wf(),
        ensures
            final(self).wf(),
            names@.len() == old(self).nodes@.len(),
            forall|i: int| 0 <= i < names@.len() ==> #[trigger] names@[i]@ == old(self).nodes@[i].name@,
            final(self).mode == AppMode::Testing,
            final(self).test_progress == Some((0usize, names@.len() as usize)),
            final(self).status_msg matches Some(m) && m@ == progress_text(0, names@.len()),
            *final(self) == (App {
                mode: final(self).mode,
                test_progress: final(self).test_progress,
                status_msg: final(self).status_msg,
                ..*old(self)
            }),
    {
        let mut names: Vec<String> = Vec::new();
        let mut i: usize = 0;
        while i < self.nodes.len()
            invariant
                i <= self.nodes@.len(),
                names@.len() == i,
                forall|k: int| 0 <= k < i ==> #[trigger] names@[k]@ == self.nodes@[k].name@,
            decreases self.nodes.len() - i,
        {
            names.push(self.nodes[i].name.clone());
            i = i + 1;
        }
        let total: usize = names.len();
        self.mode = AppMode::Testing;
        self.test_progress = Some((0, total));
        self.set_status(speed_test_status(0, total));
        names
    }

    /// Starts best-node selection.
    pub fn begin_auto_best(&mut self)
        ensures
            final(self).mode == AppMode::AutoBest,
            final(self).status_msg matches Some(m) && m@ == "🔍 自动选优中..."@,
            *final(self) == (App {
                mode: final(self).mode,
                status_msg: final(self).status_msg,
                ..*old(self)
            }),
    {
        self.mode = AppMode::AutoBest;
        self.set_status(String::from_str("🔍 自动选优中..."));
    }

    /// Starts a subscription update.
    pub fn begin_update(&mut self)
        ensures
            final(self).mode == AppMode::Updating,
            final(self).status_msg matches Some(m) && m@ == "更新订阅中..."@,
            *final(self) == (App {
                mode: final(self).mode,
                status_msg: final(self).status_msg,
                ..*old(self)
            }),
    {
        self.mode = AppMode::Updating;
        self.set_status(String::from_str("更新订阅中..."));
    }
}

// ─── Display helpers ────────────────────────────────────────────────────────

/// How a delay is coloured in the node table.
#[derive(Debug, Clone, Copy, PartialEq, Eq, Structural)]
pub enum DelayLevel {
    Good,
    Fair,
    Bad,
}

/// The delay cell: `timeout` (bad) for 0, else `<n>ms`, good below 100 ms,
/// fair below 300 ms, bad otherwise.
pub fn delay_display(delay: u64) -> (r: (String, DelayLevel))
    ensures
        delay == 0 ==> r.0@ == "timeout"@ && r.1 == DelayLevel::Bad,
        delay > 0 ==> r.0@ == decimal(delay as nat) + "ms"@,
        0 < delay < 100 ==> r.1 == DelayLevel::Good,
        100 <= delay < 300 ==> r.1 == DelayLevel::Fair,
        delay >= 300 ==> r.1 == DelayLevel::Bad,
{
    if delay == 0 {
        return (String::from_str("timeout"), DelayLevel::Bad);
    }
    let mut s = decimal_string(delay);
    s.append("ms");
    let level = if delay < 100 {
        DelayLevel::Good
    } else if delay < 300 {
        DelayLevel::Fair
    } else {
        DelayLevel::Bad
    };
    (s, level)
}

/// The status bar text: the status message, else the current node, else a
/// notice that there is none.
pub fn status_bar_text(app: &App) -> (s: String)
    ensures
        match app.status_msg {
            Some(m) => s@ == m@,
            None => match app.current_node {
                Some(n) => s@ == "当前节点: "@ + n@,
                None => s@ == "无当前节点"@,
            },
        },
{
    match &app.status_msg {
        Some(m) => m.clone(),
        None => match &app.current_node {
            Some(n) => prefixed("当前节点: ", n.as_str()),
            None => String::from_str("无当前节点"),
        },
    }
}

/// The header's mode indicator (none while idle or updating).
pub fn mode_indicator(mode: AppMode) -> (s: &'static str)
    ensures
        mode == AppMode::Testing ==> s@ == "  [测速中...]"@,
        mode == AppMode::AutoBest ==> s@ == "  [自动选优...]"@,
        mode == AppMode::Updating ==> s@ == ""@,
        mode == AppMode::Normal ==> s@ == ""@,
{
    match mode {
        AppMode::Testing => "  [测速中...]",
        AppMode::AutoBest => "  [自动选优...]",
        AppMode::Updating | AppMode::Normal => "",
    }
}

} // verus!
