use sapphire_agent::policy::{
    host_tool_denied, visible_tool_predicate, Approval, RoundBudget, SessionMode, ToolRounds,
};
use sapphire_agent::turn::{offered_tools, HostFacts};

const HOST_TOOLS: [&str; 7] = [
    "file_read",
    "file_write",
    "file_append",
    "file_delete",
    "dir_list",
    "dir_walk",
    "shell",
];

struct TestCaps {
    fs_read: bool,
    fs_write: bool,
    terminal: bool,
}

fn registered() -> Vec<String> {
    let mut names: Vec<String> = HOST_TOOLS.iter().map(|n| n.to_string()).collect();
    for n in ["shell_start", "shell_output", "shell_kill", "skill", "echo"] {
        names.push(n.to_string());
    }
    names
}

fn tool_names_for_turn(caps: TestCaps, host_access: bool) -> Vec<String> {
    let visible = visible_tool_predicate(
        host_access,
        true,
        caps.fs_read,
        caps.fs_write,
        caps.terminal,
    );
    registered().into_iter().filter(|n| visible(n)).collect()
}

fn tool_names_for_turn_without_a_client(host_access: bool) -> Vec<String> {
    let visible = visible_tool_predicate(host_access, false, false, false, false);
    registered().into_iter().filter(|n| visible(n)).collect()
}

#[test]
fn the_two_fs_tools_follow_their_own_capability_flags() {
    let names = tool_names_for_turn(
        TestCaps {
            fs_read: true,
            fs_write: false,
            terminal: false,
        },
        false,
    );
    assert!(names.contains(&"file_read".to_string()));
    assert!(!names.contains(&"file_write".to_string()));
    assert!(!names.contains(&"file_append".to_string()));

    let names = tool_names_for_turn(
        TestCaps {
            fs_read: false,
            fs_write: true,
            terminal: false,
        },
        false,
    );
    assert!(!names.contains(&"file_read".to_string()));
    assert!(names.contains(&"file_write".to_string()));
    assert!(!names.contains(&"file_append".to_string()));
}

#[test]
fn the_terminal_tool_follows_its_own_capability_flag() {
    let terminal_tools = [
        "shell",
        "file_delete",
        "dir_list",
        "dir_walk",
        "shell_start",
        "shell_output",
        "shell_kill",
    ];
    let names = tool_names_for_turn(
        TestCaps {
            fs_read: false,
            fs_write: false,
            terminal: true,
        },
        false,
    );
    for tool in terminal_tools {
        assert!(
            names.contains(&tool.to_string()),
            "missing {tool}: {names:?}"
        );
    }
    let names = tool_names_for_turn(
        TestCaps {
            fs_read: false,
            fs_write: false,
            terminal: false,
        },
        false,
    );
    for tool in terminal_tools {
        assert!(
            !names.contains(&tool.to_string()),
            "unexpected {tool}: {names:?}"
        );
    }
}

#[test]
fn an_acp_turn_sees_the_seven_names_by_capability_only() {
    let names = tool_names_for_turn(
        TestCaps {
            fs_read: true,
            fs_write: true,
            terminal: true,
        },
        false,
    );
    for n in HOST_TOOLS {
        assert!(names.contains(&n.to_string()), "missing {n}: {names:?}");
    }
    let names = tool_names_for_turn(
        TestCaps {
            fs_read: true,
            fs_write: false,
            terminal: false,
        },
        false,
    );
    assert!(names.contains(&"file_read".to_string()));
    for n in [
        "file_write",
        "file_append",
        "file_delete",
        "dir_list",
        "dir_walk",
        "shell",
    ] {
        assert!(!names.contains(&n.to_string()), "unexpected {n}: {names:?}");
    }
}

#[test]
fn a_non_acp_turn_is_governed_by_host_access_alone() {
    let off = tool_names_for_turn_without_a_client(false);
    for n in HOST_TOOLS {
        assert!(!off.contains(&n.to_string()), "{n} should be hidden");
    }
    let on = tool_names_for_turn_without_a_client(true);
    for n in HOST_TOOLS {
        assert!(on.contains(&n.to_string()), "{n} should be present");
    }
    for n in ["shell_start", "shell_output", "shell_kill"] {
        assert!(!on.contains(&n.to_string()), "{n} has no agent-side body");
        assert!(!off.contains(&n.to_string()), "{n} has no agent-side body");
    }
}

#[test]
fn a_non_acp_turn_is_offered_no_lifecycle_tools() {
    for host_access in [false, true] {
        let names = tool_names_for_turn_without_a_client(host_access);
        for name in ["shell_start", "shell_output", "shell_kill"] {
            assert!(
                !names.contains(&name.to_string()),
                "{name} has no agent-side body, got: {names:?}"
            );
        }
    }
}

#[test]
fn skill_tools_need_a_client_with_a_terminal() {
    let none = visible_tool_predicate(false, false, false, false, false);
    for t in ["skill", "skill_install", "skill_update", "skill_uninstall"] {
        assert!(!none(t), "{t} offered with no client");
    }
    let none_host_on = visible_tool_predicate(true, false, false, false, false);
    for t in ["skill", "skill_install", "skill_update", "skill_uninstall"] {
        assert!(!none_host_on(t), "{t} offered with no client");
    }
    let full = visible_tool_predicate(false, true, true, true, true);
    for t in ["skill", "skill_install", "skill_update", "skill_uninstall"] {
        assert!(full(t), "{t} hidden from a fully capable editor");
    }
    let no_term = visible_tool_predicate(false, true, true, true, false);
    assert!(!no_term("skill"), "skill offered without a terminal");
}

#[test]
fn skills_are_offered_only_where_the_namespace_has_them_on() {
    let host = HostFacts {
        has_client: true,
        client_fs_read: true,
        client_fs_write: true,
        client_terminal: true,
        round_budget: RoundBudget::Interactive,
    };
    let names = vec!["skill".to_string(), "echo".to_string(), "shell".to_string()];
    assert_eq!(offered_tools(&names, false, host, true), names);
    assert_eq!(
        offered_tools(&names, false, host, false),
        vec!["echo".to_string(), "shell".to_string()]
    );
}

#[test]
fn the_host_gate_fires_for_host_tools_on_this_machine_only() {
    for n in HOST_TOOLS {
        assert!(host_tool_denied(n, false, false));
        assert!(!host_tool_denied(n, true, false));
        assert!(!host_tool_denied(n, false, true));
    }
    assert!(!host_tool_denied("echo", false, false));
}

#[test]
fn a_zero_budget_means_unbounded() {
    let rounds = ToolRounds {
        interactive: 0,
        unattended: 25,
    };
    assert_eq!(rounds.limit(RoundBudget::Interactive), None);
    assert_eq!(rounds.limit(RoundBudget::Unattended), Some(25));
}

#[test]
fn the_shipped_budgets_are_none_and_twenty_five() {
    assert_eq!(
        ToolRounds::default(),
        ToolRounds {
            interactive: 0,
            unattended: 25
        }
    );
}

#[test]
fn modes_are_found_by_their_ids() {
    for mode in [
        SessionMode::Default,
        SessionMode::AcceptEdits,
        SessionMode::Bypass,
    ] {
        assert_eq!(SessionMode::from_id(mode.id()), Some(mode));
    }
    assert_eq!(SessionMode::AcceptEdits.id(), "accept_edits");
    assert_eq!(SessionMode::from_id("plan"), None);
}

#[test]
fn answers_allow_or_not_and_stand_or_not() {
    assert!(Approval::AllowOnce.allows() && !Approval::AllowOnce.is_sticky());
    assert!(Approval::AllowAlways.allows() && Approval::AllowAlways.is_sticky());
    assert!(!Approval::RejectOnce.allows() && !Approval::RejectOnce.is_sticky());
    assert!(!Approval::RejectAlways.allows() && Approval::RejectAlways.is_sticky());
}
