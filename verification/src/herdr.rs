//! What the Herdr command line reports, and how its replies are read.

use vstd::prelude::*;

use crate::error::{debug_text, quoted_text};
use crate::text::{contains_text, joined, signed_decimal, signed_decimal_text, text_contains, trim_text, trimmed};

verus! {

/// A Herdr workspace.
#[derive(Debug)]
pub struct Workspace {
    pub workspace_id: String,
    pub label: String,
    pub number: u64,
    pub active_tab_id: Option<String>,
    pub agent_status: Option<String>,
    pub focused: bool,
    pub pane_count: u64,
    pub tab_count: u64,
}

/// A Herdr tab.
#[derive(Debug)]
pub struct Tab {
    pub tab_id: String,
    pub workspace_id: String,
    pub label: String,
    pub number: u64,
    pub pane_count: u64,
    pub agent_status: Option<String>,
    pub focused: bool,
}

/// Identity of a running agent session.
#[derive(Debug)]
pub struct AgentSession {
    pub agent: String,
    pub kind: String,
    pub source: String,
    pub value: String,
}

/// Scrollbar position reported for a pane.
#[derive(Debug)]
pub struct Scroll {
    pub max_offset_from_bottom: i64,
    pub offset_from_bottom: i64,
    pub viewport_rows: u64,
}

/// A Herdr pane.
#[derive(Debug)]
pub struct Pane {
    pub pane_id: String,
    pub workspace_id: String,
    pub tab_id: String,
    pub terminal_id: Option<String>,
    pub terminal_title: Option<String>,
    pub terminal_title_stripped: Option<String>,
    pub cwd: Option<String>,
    pub agent_status: Option<String>,
    pub focused: bool,
    pub revision: u64,
    pub scroll: Option<Scroll>,
    pub agent: Option<String>,
    pub agent_session: Option<AgentSession>,
}

/// A Herdr agent (an agent terminal attached to a pane).
#[derive(Debug)]
pub struct Agent {
    pub agent: String,
    pub agent_session: Option<AgentSession>,
    pub agent_status: Option<String>,
    pub cwd: Option<String>,
    pub focused: bool,
    pub pane_id: Option<String>,
    pub revision: u64,
    pub state_change_seq: Option<u64>,
    pub tab_id: Option<String>,
    pub terminal_id: Option<String>,
    pub terminal_title: Option<String>,
    pub terminal_title_stripped: Option<String>,
    pub workspace_id: String,
}

/// Result of starting an agent.
#[derive(Debug, Clone, Copy, PartialEq, Eq, Structural)]
pub enum AgentStart {
    /// The agent is ready and can accept prompts.
    Ready,
    /// The agent was created but is still blocked during startup; it cannot
    /// accept prompts yet.
    Initializing,
}

/// Whether some pane in `panes` has id `id`.
pub open spec fn pane_listed(panes: Seq<Pane>, id: Seq<char>) -> bool {
    exists|i: int| 0 <= i < panes.len() && #[trigger] panes[i].pane_id@ == id
}


/// A call of the Herdr command line.
pub enum HerdrCall {
    ListWorkspaces,
    ListPanes { workspace: Option<String> },
    ListTabs { workspace: Option<String> },
    ListAgents,
    CurrentPane,
    AgentFocus { pane_id: String },
    PluginPaneFocus { pane_id: String },
    ClosePane { pane_id: String },
    OpenPluginPane { plugin: String, entrypoint: String, placement: String },
    SplitPane { source: Option<String>, direction: String },
    CreateTab,
    RunInPane { pane_id: String, command: String },
    AgentStart { name: String, kind: String, pane_id: String },
    AgentPrompt { target: String, text: String },
}

/// `--workspace {id}` when a workspace is given.
pub open spec fn workspace_args(workspace: Option<String>) -> Seq<Seq<char>> {
    match workspace {
        Some(w) => seq!["--workspace"@, w@],
        None => Seq::empty(),
    }
}

/// The arguments a call passes to `herdr`.
pub open spec fn call_args(c: HerdrCall) -> Seq<Seq<char>> {
    match c {
        HerdrCall::ListWorkspaces => seq!["workspace"@, "list"@],
        HerdrCall::ListPanes { workspace } => seq!["pane"@, "list"@] + workspace_args(workspace),
        HerdrCall::ListTabs { workspace } => seq!["tab"@, "list"@] + workspace_args(workspace),
        HerdrCall::ListAgents => seq!["agent"@, "list"@],
        HerdrCall::CurrentPane => seq!["pane"@, "current"@],
        HerdrCall::AgentFocus { pane_id } => seq!["agent"@, "focus"@, pane_id@],
        HerdrCall::PluginPaneFocus { pane_id } => seq!["plugin"@, "pane"@, "focus"@, pane_id@],
        HerdrCall::ClosePane { pane_id } => seq!["pane"@, "close"@, pane_id@],
        HerdrCall::OpenPluginPane { plugin, entrypoint, placement } => seq![
            "plugin"@, "pane"@, "open"@, "--plugin"@, plugin@, "--entrypoint"@, entrypoint@,
            "--placement"@, placement@, "--focus"@],
        HerdrCall::SplitPane { source, direction } => seq!["pane"@, "split"@] + (match source {
            Some(s) => seq![s@],
            None => Seq::empty(),
        }) + seq!["--direction"@, direction@, "--no-focus"@],
        HerdrCall::CreateTab => seq!["tab"@, "create"@],
        HerdrCall::RunInPane { pane_id, command } => seq!["pane"@, "run"@, pane_id@, command@],
        HerdrCall::AgentStart { name, kind, pane_id } => seq![
            "agent"@, "start"@, name@, "--kind"@, kind@, "--pane"@, pane_id@],
        HerdrCall::AgentPrompt { target, text } => seq!["agent"@, "prompt"@, target@, text@],
    }
}

pub open spec fn text_views(v: Seq<String>) -> Seq<Seq<char>> {
    v.map_values(|s: String| s@)
}

fn push_text(v: &mut Vec<String>, s: &str)
    ensures
        text_views(final(v)@) == text_views(old(v)@).push(s@),
{
    v.push(s.to_owned());
    assert(text_views(v@) =~= text_views(old(v)@).push(s@));
}

impl HerdrCall {
    /// The arguments the call passes to `herdr`.
    pub fn args(&self) -> (r: Vec<String>)
        ensures
            text_views(r@) == call_args(*self),
    {
        let mut v: Vec<String> = Vec::new();
        match self {
            HerdrCall::ListWorkspaces => {
                push_text(&mut v, "workspace");
                push_text(&mut v, "list");
            },
            HerdrCall::ListPanes { workspace } => {
                push_text(&mut v, "pane");
                push_text(&mut v, "list");
                match workspace {
                    Some(w) => {
                        push_text(&mut v, "--workspace");
                        push_text(&mut v, w.as_str());
                    },
                    None => {},
                }
            },
            HerdrCall::ListTabs { workspace } => {
                push_text(&mut v, "tab");
                push_text(&mut v, "list");
                match workspace {
                    Some(w) => {
                        push_text(&mut v, "--workspace");
                        push_text(&mut v, w.as_str());
                    },
                    None => {},
                }
            },
            HerdrCall::ListAgents => {
                push_text(&mut v, "agent");
                push_text(&mut v, "list");
            },
            HerdrCall::CurrentPane => {
                push_text(&mut v, "pane");
                push_text(&mut v, "current");
            },
            HerdrCall::AgentFocus { pane_id } => {
                push_text(&mut v, "agent");
                push_text(&mut v, "focus");
                push_text(&mut v, pane_id.as_str());
            },
            HerdrCall::PluginPaneFocus { pane_id } => {
                push_text(&mut v, "plugin");
                push_text(&mut v, "pane");
                push_text(&mut v, "focus");
                push_text(&mut v, pane_id.as_str());
            },
            HerdrCall::ClosePane { pane_id } => {
                push_text(&mut v, "pane");
                push_text(&mut v, "close");
                push_text(&mut v, pane_id.as_str());
            },
            HerdrCall::OpenPluginPane { plugin, entrypoint, placement } => {
                push_text(&mut v, "plugin");
                push_text(&mut v, "pane");
                push_text(&mut v, "open");
                push_text(&mut v, "--plugin");
                push_text(&mut v, plugin.as_str());
                push_text(&mut v, "--entrypoint");
                push_text(&mut v, entrypoint.as_str());
                push_text(&mut v, "--placement");
                push_text(&mut v, placement.as_str());
                push_text(&mut v, "--focus");
            },
            HerdrCall::SplitPane { source, direction } => {
                push_text(&mut v, "pane");
                push_text(&mut v, "split");
                match source {
                    Some(s) => {
                        push_text(&mut v, s.as_str());
                    },
                    None => {},
                }
                push_text(&mut v, "--direction");
                push_text(&mut v, direction.as_str());
                push_text(&mut v, "--no-focus");
            },
            HerdrCall::CreateTab => {
                push_text(&mut v, "tab");
                push_text(&mut v, "create");
            },
            HerdrCall::RunInPane { pane_id, command } => {
                push_text(&mut v, "pane");
                push_text(&mut v, "run");
                push_text(&mut v, pane_id.as_str());
                push_text(&mut v, command.as_str());
            },
            HerdrCall::AgentStart { name, kind, pane_id } => {
                push_text(&mut v, "agent");
                push_text(&mut v, "start");
                push_text(&mut v, name.as_str());
                push_text(&mut v, "--kind");
                push_text(&mut v, kind.as_str());
                push_text(&mut v, "--pane");
                push_text(&mut v, pane_id.as_str());
            },
            HerdrCall::AgentPrompt { target, text } => {
                push_text(&mut v, "agent");
                push_text(&mut v, "prompt");
                push_text(&mut v, target.as_str());
                push_text(&mut v, text.as_str());
            },
        }
        assert(text_views(v@) =~= call_args(*self));
        v
    }
}

/// The words of `words` separated by single spaces.
pub open spec fn spaced(words: Seq<Seq<char>>) -> Seq<char>
    decreases words.len(),
{
    if words.len() == 0 {
        Seq::empty()
    } else if words.len() == 1 {
        words[0]
    } else {
        spaced(words.drop_last()) + seq![' '] + words.last()
    }
}

/// `words` joined by single spaces.
pub fn spaced_text(words: &Vec<String>) -> (r: String)
    ensures
        r@ == spaced(text_views(words@)),
{
    let n = words.len();
    let mut out = String::new();
    let mut i: usize = 0;
    assert(text_views(words@).take(0) =~= Seq::<Seq<char>>::empty());
    while i < n
        invariant
            n == words@.len(),
            i <= n,
            out@ == spaced(text_views(words@).take(i as int)),
        decreases n - i,
    {
        let ghost ws = text_views(words@);
        assert(ws.take(i + 1).drop_last() =~= ws.take(i as int));
        assert(ws.take(i + 1).last() == words@[i as int]@);
        if i > 0 {
            let space = " ";
            proof {
                reveal_strlit(" ");
            }
            out.append(space);
        } else {
            assert(ws.take(0) =~= Seq::<Seq<char>>::empty());
        }
        out.append(words[i].as_str());
        i = i + 1;
    }
    assert(text_views(words@).take(n as int) =~= text_views(words@));
    out
}

/// The exit code of a failed call, or how it ended without one.
pub open spec fn code_text(code: Option<i32>) -> Seq<char> {
    match code {
        Some(c) => signed_decimal(c as int),
        None => "terminated by signal"@,
    }
}

/// What the error output adds to a failure: `stderr: {trimmed}`, or
/// `no stderr output` when the trimmed output is empty.
pub open spec fn stderr_detail(stderr: Seq<char>) -> Seq<char> {
    if trimmed(stderr).len() == 0 {
        "no stderr output"@
    } else {
        "stderr: "@ + trimmed(stderr)
    }
}

/// The error a failed call reports:
/// `herdr {args} exited with code {code} ({detail})`.
pub open spec fn failure_text(args: Seq<Seq<char>>, code: Option<i32>, stderr: Seq<char>) -> Seq<char> {
    "herdr "@ + spaced(args) + " exited with code "@ + code_text(code) + " ("@ + stderr_detail(stderr) + ")"@
}

/// The error message of a call that exited unsuccessfully.
pub fn failure_message(args: &Vec<String>, code: Option<i32>, stderr: &str) -> (r: String)
    ensures
        r@ == failure_text(text_views(args@), code, stderr@),
{
    let words = spaced_text(args);
    let code_part = match code {
        Some(c) => signed_decimal_text(c as i64),
        None => "terminated by signal".to_owned(),
    };
    let t = trim_text(stderr);
    let detail = if t.as_str().is_empty() {
        "no stderr output".to_owned()
    } else {
        joined("stderr: ", t.as_str())
    };
    let a = joined("herdr ", words.as_str());
    let b = joined(a.as_str(), " exited with code ");
    let c = joined(b.as_str(), code_part.as_str());
    let d = joined(c.as_str(), " (");
    let e = joined(d.as_str(), detail.as_str());
    joined(e.as_str(), ")")
}

/// How `herdr agent start` went: success means the agent is ready; an error
/// output that mentions `agent_not_ready` means it was created but is still
/// starting; anything else is a failure with its message.
pub fn classify_agent_start(
    name: &str,
    kind: &str,
    pane_id: &str,
    success: bool,
    code: Option<i32>,
    stderr: &str,
) -> (r: Result<AgentStart, String>)
    ensures
        success ==> r == Ok::<AgentStart, String>(AgentStart::Ready),
        !success && contains_text(stderr@, "agent_not_ready"@) ==> r == Ok::<AgentStart, String>(
            AgentStart::Initializing,
        ),
        !success && !contains_text(stderr@, "agent_not_ready"@) ==> (r matches Err(m) && m@ == failure_text(
            seq!["agent"@, "start"@, name@, "--kind"@, kind@, "--pane"@, pane_id@],
            code,
            stderr@,
        )),
{
    if success {
        return Ok(AgentStart::Ready);
    }
    if text_contains(stderr, "agent_not_ready") {
        return Ok(AgentStart::Initializing);
    }
    let call = HerdrCall::AgentStart { name: name.to_owned(), kind: kind.to_owned(), pane_id: pane_id.to_owned() };
    let args = call.args();
    Err(failure_message(&args, code, stderr))
}

/// The error when neither the agent nor the plugin-pane surface could focus a
/// pane, with `quoted_pane` standing for the quoted pane id.
pub open spec fn focus_failure_quoted(quoted_pane: Seq<char>, agent_err: Seq<char>, plugin_err: Seq<char>) -> Seq<char> {
    "could not focus pane "@ + quoted_pane + " (agent focus: "@ + agent_err + "; plugin pane focus: "@ + plugin_err
        + ")"@
}

/// The error when neither the agent nor the plugin-pane surface could focus a
/// pane, the pane id quoted as `{:?}` writes it.
pub open spec fn focus_failure_text(pane_id: Seq<char>, agent_err: Seq<char>, plugin_err: Seq<char>) -> Seq<char> {
    focus_failure_quoted(debug_text(pane_id), agent_err, plugin_err)
}

/// The error when both focus surfaces failed, with `quoted_pane` in place of
/// the quoted pane id.
pub fn focus_failure_quoting(quoted_pane: &str, agent_err: &str, plugin_err: &str) -> (r: String)
    ensures
        r@ == focus_failure_quoted(quoted_pane@, agent_err@, plugin_err@),
{
    let a = joined("could not focus pane ", quoted_pane);
    let b = joined(a.as_str(), " (agent focus: ");
    let c = joined(b.as_str(), agent_err);
    let d = joined(c.as_str(), "; plugin pane focus: ");
    let e = joined(d.as_str(), plugin_err);
    joined(e.as_str(), ")")
}

/// The error when both focus surfaces failed.
pub fn focus_failure_message(pane_id: &str, agent_err: &str, plugin_err: &str) -> (r: String)
    ensures
        r@ == focus_failure_text(pane_id@, agent_err@, plugin_err@),
{
    let q = quoted_text(pane_id);
    focus_failure_quoting(q.as_str(), agent_err, plugin_err)
}

/// What to do next while focusing a pane: the agent surface is tried first,
/// the plugin-pane surface only after it failed.
#[derive(Debug, PartialEq, Eq)]
pub enum FocusStep {
    /// One of the surfaces focused the pane.
    Focused,
    /// The agent surface failed; the plugin-pane surface is to be tried.
    TryPluginPane,
    /// Both surfaces failed.
    Failed { message: String },
}

/// Decides the focus fallback from what each surface answered so far
/// (`plugin` is `None` while the plugin-pane surface has not been tried).
pub fn focus_next(pane_id: &str, agent: &Result<(), String>, plugin: &Option<Result<(), String>>) -> (r: FocusStep)
    ensures
        agent is Ok ==> r == FocusStep::Focused,
        agent is Err && plugin is None ==> r == FocusStep::TryPluginPane,
        (agent is Err && (plugin matches Some(Ok(_)))) ==> r == FocusStep::Focused,
        match (agent, plugin) {
            (Err(a), Some(Err(p))) => r matches FocusStep::Failed { message } && message@ == focus_failure_text(
                pane_id@,
                a@,
                p@,
            ),
            _ => true,
        },
{
    match agent {
        Ok(_) => FocusStep::Focused,
        Err(a) => match plugin {
            None => FocusStep::TryPluginPane,
            Some(Ok(_)) => FocusStep::Focused,
            Some(Err(p)) => FocusStep::Failed { message: focus_failure_message(pane_id, a.as_str(), p.as_str()) },
        },
    }
}

} // verus!
