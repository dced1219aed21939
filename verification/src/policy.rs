//! Which tools a turn may see and which calls it may run.

use vstd::prelude::*;

use crate::text;

verus! {

/// Which row of the permission table a turn is judged by.
#[derive(Clone, Copy, Debug, PartialEq, Eq, Structural)]
pub enum Origin {
    /// Authenticated before the turn started, with nobody to ask: runs everything.
    Trusted,
    /// A chat channel.
    Channel,
    /// An editor session, in the mode its user picked.
    Acp(SessionMode),
}

/// How much an editor session may do without asking.
#[derive(Clone, Copy, Debug, PartialEq, Eq, Structural)]
pub enum SessionMode {
    Default,
    AcceptEdits,
    Bypass,
}

/// The identifier of a mode on the wire.
pub open spec fn mode_id(mode: SessionMode) -> Seq<char> {
    match mode {
        SessionMode::Default => "default"@,
        SessionMode::AcceptEdits => "accept_edits"@,
        SessionMode::Bypass => "bypass"@,
    }
}

impl SessionMode {
    /// The identifier of this mode on the wire.
    pub fn id(&self) -> (id: &'static str)
        ensures
            id@ == mode_id(*self),
    {
        match self {
            SessionMode::Default => "default",
            SessionMode::AcceptEdits => "accept_edits",
            SessionMode::Bypass => "bypass",
        }
    }

    /// The mode with this identifier.
    pub fn from_id(id: &str) -> (mode: Option<SessionMode>)
        ensures
            mode matches Some(m) ==> mode_id(m) == id@,
            mode is None ==> forall|m: SessionMode|
                #![trigger mode_id(m)]
                mode_id(m) != id@,
    {
        if text::same(id, "default") {
            Some(SessionMode::Default)
        } else if text::same(id, "accept_edits") {
            Some(SessionMode::AcceptEdits)
        } else if text::same(id, "bypass") {
            Some(SessionMode::Bypass)
        } else {
            None
        }
    }
}

/// Two modes never share an identifier.
pub proof fn mode_ids_differ(a: SessionMode, b: SessionMode)
    ensures
        mode_id(a) == mode_id(b) ==> a == b,
{
    reveal_strlit("default");
    reveal_strlit("accept_edits");
    reveal_strlit("bypass");
    assert("default"@.len() == 7);
    assert("accept_edits"@.len() == 12);
    assert("bypass"@.len() == 6);
}

/// What a tool does, as the permission table and editors tell tools apart.
#[derive(Clone, Copy, Debug, PartialEq, Eq, Structural)]
pub enum ToolKind {
    Read,
    Edit,
    Delete,
    Move,
    Search,
    Execute,
    Think,
    Fetch,
    SwitchMode,
    Other,
}

/// What the permission table says of a call.
#[derive(Clone, Copy, Debug, PartialEq, Eq, Structural)]
pub enum Decision {
    Allow,
    Deny,
    /// A human has to say.
    Ask,
}

/// What a human said to a call.
#[derive(Clone, Copy, Debug, PartialEq, Eq, Structural)]
pub enum Approval {
    AllowOnce,
    AllowAlways,
    RejectOnce,
    RejectAlways,
}

impl Approval {
    /// Whether the answer lets the call run.
    pub open spec fn allowed(self) -> bool {
        self == Approval::AllowOnce || self == Approval::AllowAlways
    }

    /// Whether the answer stands for later calls of the same tool too.
    pub open spec fn sticky(self) -> bool {
        self == Approval::AllowAlways || self == Approval::RejectAlways
    }

    /// Whether the answer lets the call run.
    pub fn allows(&self) -> (r: bool)
        ensures
            r == self.allowed(),
    {
        matches!(self, Approval::AllowOnce | Approval::AllowAlways)
    }

    /// Whether the answer stands for later calls of the same tool too.
    pub fn is_sticky(&self) -> (r: bool)
        ensures
            r == self.sticky(),
    {
        matches!(self, Approval::AllowAlways | Approval::RejectAlways)
    }
}

/// Why a call did not run.
#[derive(Clone, Copy, Debug, PartialEq, Eq, Structural)]
pub enum Refusal {
    /// The name was not among the tools of the round.
    NotOffered,
    /// The tool may not run here at all.
    Unavailable,
    /// A human said no.
    UserDeclined,
}

/// Which round budget a turn is judged by: whether a human can stop it in flight.
#[derive(Clone, Copy, Debug, PartialEq, Eq, Structural)]
pub enum RoundBudget {
    Interactive,
    Unattended,
}

/// How many tool rounds a turn may take, per budget; zero stands for no bound.
#[derive(Clone, Copy, Debug, PartialEq, Eq, Structural)]
pub struct ToolRounds {
    pub interactive: usize,
    pub unattended: usize,
}

impl Default for ToolRounds {
    /// A turn that can be stopped has no bound; one that cannot has.
    fn default() -> (r: ToolRounds)
        ensures
            r == (ToolRounds { interactive: 0, unattended: 25 }),
    {
        ToolRounds { interactive: 0, unattended: 25 }
    }
}

impl ToolRounds {
    /// The configured number for a budget.
    pub open spec fn configured(self, budget: RoundBudget) -> usize {
        match budget {
            RoundBudget::Interactive => self.interactive,
            RoundBudget::Unattended => self.unattended,
        }
    }

    /// The bound for a budget, or `None` where there is none.
    pub fn limit(&self, budget: RoundBudget) -> (limit: Option<usize>)
        ensures
            limit == if self.configured(budget) == 0 {
                None
            } else {
                Some(self.configured(budget))
            },
    {
        let n: usize = match budget {
            RoundBudget::Interactive => self.interactive,
            RoundBudget::Unattended => self.unattended,
        };
        if n == 0 {
            None
        } else {
            Some(n)
        }
    }
}

/// The tools that touch the disk or the shell of whichever machine the turn reaches.
pub open spec fn is_host_tool(name: Seq<char>) -> bool {
    ||| name == "file_read"@
    ||| name == "file_write"@
    ||| name == "file_append"@
    ||| name == "file_delete"@
    ||| name == "dir_list"@
    ||| name == "dir_walk"@
    ||| name == "shell"@
}

/// The tools that exist on an editor's machine only.
pub open spec fn is_client_only_tool(name: Seq<char>) -> bool {
    ||| name == "shell_start"@
    ||| name == "shell_output"@
    ||| name == "shell_kill"@
    ||| is_skill_tool(name)
}

/// The tools that work on skills.
pub open spec fn is_skill_tool(name: Seq<char>) -> bool {
    ||| name == "skill"@
    ||| name == "skill_install"@
    ||| name == "skill_update"@
    ||| name == "skill_uninstall"@
}

/// Whether the deployment keeps a tool off the agent's own machine. A call that
/// goes to an editor's machine is not the deployment's to refuse.
pub open spec fn host_denied(name: Seq<char>, host_access: bool, routed: bool) -> bool {
    is_host_tool(name) && !host_access && !routed
}

/// What an editor must offer for a host tool to work on its machine.
pub open spec fn client_can(
    name: Seq<char>,
    fs_read: bool,
    fs_write: bool,
    terminal: bool,
) -> bool {
    if name == "file_read"@ {
        fs_read
    } else if name == "file_write"@ {
        fs_write
    } else if name == "file_append"@ {
        fs_read && fs_write
    } else if is_host_tool(name) || is_client_only_tool(name) {
        terminal
    } else {
        true
    }
}

/// Which tools a turn's model may see. With an editor, what the editor can do
/// decides; without one, the deployment's switch does, and nothing that exists on
/// an editor's machine only is shown.
pub open spec fn tool_visible(
    host_access: bool,
    has_client: bool,
    fs_read: bool,
    fs_write: bool,
    terminal: bool,
    name: Seq<char>,
) -> bool {
    if has_client {
        client_can(name, fs_read, fs_write, terminal)
    } else {
        !is_client_only_tool(name) && (is_host_tool(name) ==> host_access)
    }
}

/// Whether a name is one of the host tools.
pub fn host_tool(name: &str) -> (r: bool)
    ensures
        r == is_host_tool(name@),
{
    text::same(name, "file_read") || text::same(name, "file_write") || text::same(
        name,
        "file_append",
    ) || text::same(name, "file_delete") || text::same(name, "dir_list") || text::same(
        name,
        "dir_walk",
    ) || text::same(name, "shell")
}

/// Whether a name is one of the tools that work on skills.
pub fn skill_tool(name: &str) -> (r: bool)
    ensures
        r == is_skill_tool(name@),
{
    text::same(name, "skill") || text::same(name, "skill_install") || text::same(
        name,
        "skill_update",
    ) || text::same(name, "skill_uninstall")
}

/// Whether the deployment keeps a tool off the agent's own machine.
pub fn host_tool_denied(name: &str, host_access_enabled: bool, routed_to_client: bool) -> (r: bool)
    ensures
        r == host_denied(name@, host_access_enabled, routed_to_client),
{
    !host_access_enabled && !routed_to_client && host_tool(name)
}

proof fn lemma_tool_names_differ()
    ensures
        forall|n: Seq<char>| is_client_only_tool(n) ==> !#[trigger] is_host_tool(n),
{
    reveal_strlit("file_read");
    reveal_strlit("file_write");
    reveal_strlit("file_append");
    reveal_strlit("file_delete");
    reveal_strlit("dir_list");
    reveal_strlit("dir_walk");
    reveal_strlit("shell");
    reveal_strlit("shell_start");
    reveal_strlit("shell_output");
    reveal_strlit("shell_kill");
    reveal_strlit("skill");
    reveal_strlit("skill_install");
    reveal_strlit("skill_update");
    reveal_strlit("skill_uninstall");
    assert forall|n: Seq<char>| is_client_only_tool(n) implies !#[trigger] is_host_tool(n) by {
        assert(n[0] == 's');
        assert(n[1] == 'h' || n[1] == 'k');
        if n == "shell"@ {
            assert(n.len() == 5);
            assert("skill"@[1] == 'k');
            assert("shell"@[1] == 'h');
        }
        assert("file_read"@[0] == 'f');
        assert("file_write"@[0] == 'f');
        assert("file_append"@[0] == 'f');
        assert("file_delete"@[0] == 'f');
        assert("dir_list"@[0] == 'd');
        assert("dir_walk"@[0] == 'd');
    }
}

/// The rule that decides which tools a turn's model may see, as a predicate on names.
pub fn visible_tool_predicate(
    host_access_enabled: bool,
    has_client: bool,
    client_fs_read: bool,
    client_fs_write: bool,
    client_terminal: bool,
) -> (f: impl Fn(&str) -> bool)
    ensures
        forall|name: &str| call_requires(f, (name,)),
        forall|name: &str, r: bool|
            call_ensures(f, (name,), r) ==> r == tool_visible(
                host_access_enabled,
                has_client,
                client_fs_read,
                client_fs_write,
                client_terminal,
                name@,
            ),
        forall|name: &str, r: bool|
            call_ensures(f, (name,), r) ==> {
                let n = name@;
                let machine = n == "file_delete"@ || n == "dir_list"@ || n == "dir_walk"@ || n
                    == "shell"@;
                let file = n == "file_read"@ || n == "file_write"@ || n == "file_append"@;
                let editors = n == "shell_start"@ || n == "shell_output"@ || n == "shell_kill"@ || n
                    == "skill"@ || n == "skill_install"@ || n == "skill_update"@ || n
                    == "skill_uninstall"@;
                &&& has_client && n == "file_read"@ ==> r == client_fs_read
                &&& has_client && n == "file_write"@ ==> r == client_fs_write
                &&& has_client && n == "file_append"@ ==> r == (client_fs_read && client_fs_write)
                &&& has_client && (machine || editors) ==> r == client_terminal
                &&& !has_client && (machine || file) ==> r == host_access_enabled
                &&& !has_client && editors ==> !r
                &&& !machine && !file && !editors ==> r
            },
{
    proof {
        lemma_names();
    }
    move |name: &str| -> (r: bool)
        ensures
            r == tool_visible(
                host_access_enabled,
                has_client,
                client_fs_read,
                client_fs_write,
                client_terminal,
                name@,
            ),
        {
            proof {
                lemma_tool_names_differ();
            }
            if host_tool_denied(name, host_access_enabled, has_client) {
                return false;
            }
            if text::same(name, "shell_start") || text::same(name, "shell_output") || text::same(
                name,
                "shell_kill",
            ) || skill_tool(name) {
                proof {
                    lemma_file_names(name@);
                }
                return has_client && client_terminal;
            }
            if !has_client {
                return true;
            }
            if text::same(name, "file_read") {
                client_fs_read
            } else if text::same(name, "file_write") {
                client_fs_write
            } else if text::same(name, "file_append") {
                client_fs_read && client_fs_write
            } else if host_tool(name) {
                client_terminal
            } else {
                true
            }
        }
}

proof fn lemma_file_names(name: Seq<char>)
    requires
        is_client_only_tool(name),
    ensures
        name != "file_read"@,
        name != "file_write"@,
        name != "file_append"@,
{
    lemma_tool_names_differ();
    assert(!is_host_tool(name));
}

/// With an editor at the other end, the deployment's switch changes nothing of
/// what is shown.
pub proof fn client_turns_ignore_host_access(
    fs_read: bool,
    fs_write: bool,
    terminal: bool,
    name: Seq<char>,
)
    ensures
        tool_visible(true, true, fs_read, fs_write, terminal, name) == tool_visible(
            false,
            true,
            fs_read,
            fs_write,
            terminal,
            name,
        ),
{
}

/// Without an editor, what an editor could do changes nothing of what is shown,
/// and no tool that lives on an editor's machine is shown.
pub proof fn agent_turns_ignore_client_flags(
    host_access: bool,
    fs_read: bool,
    fs_write: bool,
    terminal: bool,
    name: Seq<char>,
)
    ensures
        tool_visible(host_access, false, fs_read, fs_write, terminal, name) == tool_visible(
            host_access,
            false,
            false,
            false,
            false,
            name,
        ),
        is_client_only_tool(name) ==> !tool_visible(
            host_access,
            false,
            fs_read,
            fs_write,
            terminal,
            name,
        ),
        is_host_tool(name) ==> tool_visible(host_access, false, fs_read, fs_write, terminal, name)
            == host_access,
{
    lemma_tool_names_differ();
}

/// What is shown is never then refused by the deployment's switch.
pub proof fn shown_tools_are_not_host_denied(
    host_access: bool,
    has_client: bool,
    fs_read: bool,
    fs_write: bool,
    terminal: bool,
    name: Seq<char>,
)
    requires
        tool_visible(host_access, has_client, fs_read, fs_write, terminal, name),
    ensures
        !host_denied(name, host_access, has_client),
{
}

proof fn lemma_names()
    ensures
        "file_read"@.len() == 9 && "file_read"@[0] == 'f',
        "file_write"@.len() == 10 && "file_write"@[0] == 'f',
        "file_append"@.len() == 11 && "file_append"@[5] == 'a',
        "file_delete"@.len() == 11 && "file_delete"@[5] == 'd',
        "dir_list"@.len() == 8 && "dir_list"@[4] == 'l',
        "dir_walk"@.len() == 8 && "dir_walk"@[4] == 'w',
        "shell"@.len() == 5 && "shell"@[1] == 'h',
        "shell_start"@.len() == 11 && "shell_start"@[0] == 's' && "shell_start"@[5] == '_',
        "shell_output"@.len() == 12,
        "shell_kill"@.len() == 10 && "shell_kill"@[0] == 's',
        "skill"@.len() == 5 && "skill"@[1] == 'k',
        "skill_install"@.len() == 13,
        "skill_update"@.len() == 12,
        "skill_uninstall"@.len() == 15,
{
    reveal_strlit("file_read");
    reveal_strlit("file_write");
    reveal_strlit("file_append");
    reveal_strlit("file_delete");
    reveal_strlit("dir_list");
    reveal_strlit("dir_walk");
    reveal_strlit("shell");
    reveal_strlit("shell_start");
    reveal_strlit("shell_output");
    reveal_strlit("shell_kill");
    reveal_strlit("skill");
    reveal_strlit("skill_install");
    reveal_strlit("skill_update");
    reveal_strlit("skill_uninstall");
}

/// With an editor, a tool is shown exactly where the editor can do what the tool is
/// made of, and nothing else counts: reading for `file_read`, writing for
/// `file_write`, both for `file_append`, and a terminal for everything that is a
/// command or lives in one.
pub proof fn editors_are_shown_what_they_can_do(
    host_access: bool,
    fs_read: bool,
    fs_write: bool,
    terminal: bool,
)
    ensures
        tool_visible(host_access, true, fs_read, fs_write, terminal, "file_read"@) <==> fs_read,
        tool_visible(host_access, true, fs_read, fs_write, terminal, "file_write"@) <==> fs_write,
        tool_visible(host_access, true, fs_read, fs_write, terminal, "file_append"@) <==> fs_read
            && fs_write,
        tool_visible(host_access, true, fs_read, fs_write, terminal, "file_delete"@) <==> terminal,
        tool_visible(host_access, true, fs_read, fs_write, terminal, "dir_list"@) <==> terminal,
        tool_visible(host_access, true, fs_read, fs_write, terminal, "dir_walk"@) <==> terminal,
        tool_visible(host_access, true, fs_read, fs_write, terminal, "shell"@) <==> terminal,
        tool_visible(host_access, true, fs_read, fs_write, terminal, "shell_start"@) <==> terminal,
        tool_visible(host_access, true, fs_read, fs_write, terminal, "shell_output"@) <==> terminal,
        tool_visible(host_access, true, fs_read, fs_write, terminal, "shell_kill"@) <==> terminal,
        tool_visible(host_access, true, fs_read, fs_write, terminal, "skill"@) <==> terminal,
        tool_visible(host_access, true, fs_read, fs_write, terminal, "skill_install"@) <==> terminal,
        tool_visible(host_access, true, fs_read, fs_write, terminal, "skill_update"@) <==> terminal,
        tool_visible(host_access, true, fs_read, fs_write, terminal, "skill_uninstall"@)
            <==> terminal,
{
    lemma_names();
}

/// Without an editor, the tools of the machine are shown exactly where the deployment
/// lets them be, and those that live on an editor's machine never are.
pub proof fn agents_are_shown_what_the_deployment_allows(
    host_access: bool,
    fs_read: bool,
    fs_write: bool,
    terminal: bool,
)
    ensures
        tool_visible(host_access, false, fs_read, fs_write, terminal, "file_read"@) <==> host_access,
        tool_visible(host_access, false, fs_read, fs_write, terminal, "file_write"@)
            <==> host_access,
        tool_visible(host_access, false, fs_read, fs_write, terminal, "file_append"@)
            <==> host_access,
        tool_visible(host_access, false, fs_read, fs_write, terminal, "file_delete"@)
            <==> host_access,
        tool_visible(host_access, false, fs_read, fs_write, terminal, "dir_list"@) <==> host_access,
        tool_visible(host_access, false, fs_read, fs_write, terminal, "dir_walk"@) <==> host_access,
        tool_visible(host_access, false, fs_read, fs_write, terminal, "shell"@) <==> host_access,
        !tool_visible(host_access, false, fs_read, fs_write, terminal, "shell_start"@),
        !tool_visible(host_access, false, fs_read, fs_write, terminal, "shell_output"@),
        !tool_visible(host_access, false, fs_read, fs_write, terminal, "shell_kill"@),
        !tool_visible(host_access, false, fs_read, fs_write, terminal, "skill"@),
        !tool_visible(host_access, false, fs_read, fs_write, terminal, "skill_install"@),
        !tool_visible(host_access, false, fs_read, fs_write, terminal, "skill_update"@),
        !tool_visible(host_access, false, fs_read, fs_write, terminal, "skill_uninstall"@),
{
    lemma_names();
}

/// A tool that is neither of the machine nor of an editor's is shown to everybody.
pub proof fn other_tools_are_shown_to_everybody(
    host_access: bool,
    has_client: bool,
    fs_read: bool,
    fs_write: bool,
    terminal: bool,
    name: Seq<char>,
)
    requires
        name != "file_read"@,
        name != "file_write"@,
        name != "file_append"@,
        name != "file_delete"@,
        name != "dir_list"@,
        name != "dir_walk"@,
        name != "shell"@,
        name != "shell_start"@,
        name != "shell_output"@,
        name != "shell_kill"@,
        name != "skill"@,
        name != "skill_install"@,
        name != "skill_update"@,
        name != "skill_uninstall"@,
    ensures
        tool_visible(host_access, has_client, fs_read, fs_write, terminal, name),
        !host_denied(name, host_access, has_client),
{
}

/// The deployment keeps a tool of the machine off it exactly where it gives no access
/// to it and the call does not go to an editor's machine.
pub proof fn machines_are_kept_closed(
    name: &str,
    host_access: bool,
    routed: bool,
    denied: bool,
    of_machine: bool,
    of_skills: bool,
)
    requires
        call_ensures(host_tool_denied, (name, host_access, routed), denied),
        call_ensures(host_tool, (name,), of_machine),
        call_ensures(skill_tool, (name,), of_skills),
    ensures
        of_machine <==> (name@ == "file_read"@ || name@ == "file_write"@ || name@
            == "file_append"@ || name@ == "file_delete"@ || name@ == "dir_list"@ || name@
            == "dir_walk"@ || name@ == "shell"@),
        of_skills <==> (name@ == "skill"@ || name@ == "skill_install"@ || name@
            == "skill_update"@ || name@ == "skill_uninstall"@),
        denied ==> of_machine,
        of_machine ==> (denied <==> !host_access && !routed),
{
}

/// A human's yes lets a call run and a no does not; what was said for always stands,
/// and what was said once does not.
pub proof fn answers_are_yes_or_no(approval: Approval, allows: bool, sticky: bool)
    requires
        call_ensures(Approval::allows, (&approval,), allows),
        call_ensures(Approval::is_sticky, (&approval,), sticky),
    ensures
        approval is AllowOnce ==> allows && !sticky,
        approval is AllowAlways ==> allows && sticky,
        approval is RejectOnce ==> !allows && !sticky,
        approval is RejectAlways ==> !allows && sticky,
        allows == approval.allowed(),
        sticky == approval.sticky(),
{
}

/// A budget bounds a turn to as many rounds as are configured for it, and to none
/// where that is zero. Only a turn that can be stopped goes without a bound unless
/// told otherwise.
pub proof fn budgets_bound_their_own_turns(
    rounds: ToolRounds,
    attended: Option<usize>,
    unattended: Option<usize>,
    usual: ToolRounds,
)
    requires
        call_ensures(ToolRounds::limit, (&rounds, RoundBudget::Interactive), attended),
        call_ensures(ToolRounds::limit, (&rounds, RoundBudget::Unattended), unattended),
        call_ensures(<ToolRounds as Default>::default, (), usual),
    ensures
        rounds.interactive == 0 <==> attended is None,
        rounds.unattended == 0 <==> unattended is None,
        attended matches Some(n) ==> n == rounds.interactive,
        unattended matches Some(n) ==> n == rounds.unattended,
        rounds.configured(RoundBudget::Interactive) == rounds.interactive,
        rounds.configured(RoundBudget::Unattended) == rounds.unattended,
        usual.interactive == 0,
        usual.unattended == 25,
{
}

/// Each mode goes by its own word on the wire, and is found again by it.
pub proof fn modes_are_found_by_their_words(
    word: &str,
    found: Option<SessionMode>,
    mode: SessionMode,
    id: &'static str,
)
    requires
        call_ensures(SessionMode::from_id, (word,), found),
        call_ensures(SessionMode::id, (&mode,), id),
    ensures
        mode is Default ==> id@ == "default"@,
        mode is AcceptEdits ==> id@ == "accept_edits"@,
        mode is Bypass ==> id@ == "bypass"@,
        found == Some(SessionMode::Default) <==> word@ == "default"@,
        found == Some(SessionMode::AcceptEdits) <==> word@ == "accept_edits"@,
        found == Some(SessionMode::Bypass) <==> word@ == "bypass"@,
{
    mode_ids_differ(SessionMode::Default, SessionMode::AcceptEdits);
    mode_ids_differ(SessionMode::Default, SessionMode::Bypass);
    mode_ids_differ(SessionMode::AcceptEdits, SessionMode::Bypass);
    assert(mode_id(SessionMode::Default) == "default"@);
    assert(mode_id(SessionMode::AcceptEdits) == "accept_edits"@);
    assert(mode_id(SessionMode::Bypass) == "bypass"@);
}

} // verus!
