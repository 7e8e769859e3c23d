use nono_approval::policy::{
    load_policy, validate_policy, PathPattern, PolicyError, PolicyFile, PolicyRead, RuleAction,
    RuleDraft, RuleScope, SessionRule, SessionRules, MAX_RULE_PATH_BYTES, MAX_SESSION_RULES,
};
use nono_approval::protocol::{AccessMode, KnownApprovalRequest, WebhookDecision};

fn request(path: &str, access: AccessMode) -> KnownApprovalRequest {
    KnownApprovalRequest::Capability {
        request_id: "r".to_owned(),
        path: path.to_owned(),
        access,
        reason: None,
        child_pid: 1,
        session_id: "s".to_owned(),
    }
}

#[test]
fn editable_draft_validates_coverage_separately_from_general_rule_validity() {
    let source = request("/work/project/src/main.rs", AccessMode::Read);
    let mut draft = RuleDraft::from_request(&source, RuleAction::Allow, RuleScope::Path).unwrap();
    assert!(draft.validate_source(&source).is_ok());
    draft.path = "/work/project".to_owned();
    assert!(draft.compile().is_ok());
    assert_eq!(
        draft.validate_source(&source),
        Err(PolicyError::DoesNotCoverSource)
    );
    draft.scope = RuleScope::Directory;
    assert!(draft.validate_source(&source).is_ok());
    assert_eq!(draft.ancestors().unwrap(), ["/work/project", "/work", "/"]);
    draft.access = AccessMode::ReadWrite;
    assert_eq!(
        draft.validate_source(&source),
        Err(PolicyError::DoesNotCoverSource)
    );
    draft.access = AccessMode::Read;
    draft.path = "/unrelated".to_owned();
    assert_eq!(
        draft.validate_source(&source),
        Err(PolicyError::DoesNotCoverSource)
    );
}

fn rule(path: &str, action: RuleAction, scope: RuleScope) -> SessionRule {
    SessionRule::from_request(&request(path, AccessMode::Read), action, scope).unwrap()
}

#[test]
fn component_glob_semantics() {
    for (pattern, path, expected) in [
        ("/a", "/a/", true),
        ("/a", "/a/b", false),
        ("/a/", "/a", true),
        ("/a/", "/a/b/c", true),
        ("/a/", "/ab/c", false),
        ("/a/*", "/a", false),
        ("/a/*", "/a/b", true),
        ("/a/*", "/a/b/c", false),
        ("/a/**", "/a", false),
        ("/a/**", "/a/b", true),
        ("/a/**", "/a/b/c", true),
        ("/a/*/test", "/a/b/test", true),
        ("/a/*/test", "/a/b/c/test", false),
        ("/a/**/test", "/a/test", false),
        ("/a/**/test", "/a/b/c/test", true),
        ("/a/**/**", "/a/b", false),
        ("/a/**/**", "/a/b/c", true),
        ("/", "/", true),
        ("/", "/a", true),
        ("/a/", "/a/../secret", false),
        ("/a/", "a/b", false),
        ("/a/", "/a/\0", false),
        ("/a/", "/A/b", false),
    ] {
        assert_eq!(
            PathPattern::parse(pattern).unwrap().matches(path),
            expected,
            "{pattern} vs {path}"
        );
    }
    for invalid in ["", "a", "/a/../b", "/a\0", "/a/*.log", "/a/b*c"] {
        assert!(PathPattern::parse(invalid).is_err(), "{invalid:?}");
    }
    assert!(PathPattern::parse(&format!("/{}", "a".repeat(MAX_RULE_PATH_BYTES))).is_err());
}

#[test]
fn specificity_and_last_write_are_independent_of_insertion_order() {
    for reverse in [false, true] {
        let mut rules = vec![
            rule("/a", RuleAction::Deny, RuleScope::Directory),
            rule("/a/b", RuleAction::Allow, RuleScope::Directory),
            rule("/a/b/private", RuleAction::Deny, RuleScope::Path),
        ];
        if reverse {
            rules.reverse();
        }
        let mut store = SessionRules::default();
        for rule in rules {
            store.insert(rule).unwrap();
        }
        for (path, action) in [
            ("/a", RuleAction::Deny),
            ("/a/b", RuleAction::Allow),
            ("/a/b/file", RuleAction::Allow),
            ("/a/b/private", RuleAction::Deny),
        ] {
            assert_eq!(
                store
                    .evaluate(&request(path, AccessMode::Read))
                    .unwrap()
                    .action,
                action
            );
        }
        assert!(store
            .evaluate(&request("/a/b", AccessMode::ReadWrite))
            .is_none());
        store
            .insert(rule("/a/b", RuleAction::Deny, RuleScope::Directory))
            .unwrap();
        assert_eq!(store.count(), 3);
        assert_eq!(
            store
                .evaluate(&request("/a/b", AccessMode::Read))
                .unwrap()
                .action,
            RuleAction::Deny
        );
    }
}

#[test]
fn derived_paths_are_literal_and_do_not_expand_variables_or_parent_directories() {
    let mut store = SessionRules::default();
    store
        .insert(rule(
            "/a/*/$HOME/[x]",
            RuleAction::Allow,
            RuleScope::Directory,
        ))
        .unwrap();
    assert!(store
        .evaluate(&request("/a/foo/$HOME/[x]", AccessMode::Read))
        .is_none());
    assert!(store
        .evaluate(&request("/a/*/$HOME/[x]/child", AccessMode::Read))
        .is_some());
    assert!(store
        .evaluate(&request("/a/*/$HOME", AccessMode::Read))
        .is_none());
    assert!(store
        .evaluate(&request("/a/*/$HOME/[x]2", AccessMode::Read))
        .is_none());
    store
        .insert(rule("/a//b/./", RuleAction::Deny, RuleScope::Path))
        .unwrap();
    store
        .insert(rule("/a/b", RuleAction::Allow, RuleScope::Path))
        .unwrap();
    assert_eq!(store.count(), 2);
}

#[test]
fn capacity_allows_replacement_and_clear_resets_everything() {
    let mut store = SessionRules::default();
    for index in 0..MAX_SESSION_RULES {
        store
            .insert(rule(
                &format!("/a/{index}"),
                RuleAction::Allow,
                RuleScope::Path,
            ))
            .unwrap();
    }
    assert_eq!(
        store.insert(rule("/extra", RuleAction::Deny, RuleScope::Path)),
        Err(PolicyError::Capacity)
    );
    store
        .insert(rule("/a/0", RuleAction::Deny, RuleScope::Path))
        .unwrap();
    assert_eq!(store.count(), MAX_SESSION_RULES);
    assert_eq!(store.clear(), MAX_SESSION_RULES);
    assert_eq!(store.clear(), 0);
}

#[test]
fn access_modes_are_separate_keys_and_deny_reasons_are_sanitized() {
    let mut store = SessionRules::default();
    for access in [AccessMode::Read, AccessMode::Write, AccessMode::ReadWrite] {
        store
            .insert(
                SessionRule::from_request(
                    &request("/a\n", access),
                    RuleAction::Deny,
                    RuleScope::Path,
                )
                .unwrap(),
            )
            .unwrap();
    }
    assert_eq!(store.count(), 3);
    let WebhookDecision::Denied { reason } = store
        .evaluate(&request("/a\n", AccessMode::Read))
        .unwrap()
        .decision()
    else {
        panic!("expected denial");
    };
    assert!(!reason.contains('\n'));
    assert!(reason.contains("\\n"));
}

#[test]
fn denials_name_the_rule() {
    let denial = rule("/work", RuleAction::Deny, RuleScope::Directory).decision();
    assert_eq!(
        denial,
        WebhookDecision::Denied {
            reason: "denied by session rule \"/work\" (Directory)".to_owned()
        }
    );
    assert_eq!(
        rule("/work", RuleAction::Allow, RuleScope::Path).decision(),
        WebhookDecision::Granted
    );
}

#[test]
fn the_longest_path_decides_and_exact_scope_comes_first() {
    let mut store = SessionRules::default();
    store
        .insert(rule("/", RuleAction::Deny, RuleScope::Directory))
        .unwrap();
    store
        .insert(rule("/work", RuleAction::Allow, RuleScope::Directory))
        .unwrap();
    store
        .insert(rule("/work", RuleAction::Deny, RuleScope::Path))
        .unwrap();
    let action = |path: &str| store.evaluate(&request(path, AccessMode::Read)).unwrap().action;
    assert_eq!(action("/other"), RuleAction::Deny);
    assert_eq!(action("/work/file"), RuleAction::Allow);
    assert_eq!(action("/work"), RuleAction::Deny);
    assert_eq!(action("/workspace"), RuleAction::Deny);
    assert!(store
        .evaluate(&request("/work/../secret", AccessMode::Read))
        .is_none());
}

fn draft(path: &str, scope: RuleScope) -> RuleDraft {
    RuleDraft {
        action: RuleAction::Allow,
        path: path.to_owned(),
        scope,
        access: AccessMode::Read,
    }
}

#[test]
fn policies_are_normalized_and_refuse_duplicates() {
    let rules = validate_policy(vec![
        draft("/work//./src/", RuleScope::Directory),
        draft("/work/src", RuleScope::Path),
    ])
    .unwrap();
    assert_eq!(rules[0].path, "/work/src");
    assert_eq!(rules.len(), 2);
    assert_eq!(
        validate_policy(vec![
            draft("/work", RuleScope::Path),
            draft("/work/", RuleScope::Path),
        ]),
        Err(PolicyError::DuplicateRule("/work".to_owned()))
    );
    assert_eq!(
        validate_policy(vec![draft("relative", RuleScope::Path)]),
        Err(PolicyError::InvalidPath)
    );
    assert!(validate_policy(Vec::new()).unwrap().is_empty());
}

#[test]
fn policy_files_that_cannot_be_read_are_refused() {
    assert_eq!(
        load_policy("/p.toml", PolicyRead::Unreadable("gone".to_owned())),
        Err(PolicyError::ReadPolicy {
            path: "/p.toml".to_owned(),
            detail: "gone".to_owned()
        })
    );
    assert_eq!(
        load_policy("/p.toml", PolicyRead::Malformed("bad".to_owned())),
        Err(PolicyError::PolicyToml("bad".to_owned()))
    );
    let file = PolicyFile {
        rules: vec![draft("/work/", RuleScope::Directory)],
    };
    assert_eq!(
        load_policy("/p.toml", PolicyRead::Parsed(file)).unwrap(),
        vec![draft("/work", RuleScope::Directory)]
    );
}

#[test]
fn policy_errors_have_messages() {
    assert_eq!(
        PolicyError::NotCapability.message(),
        "session rules require a capability request"
    );
    assert_eq!(
        PolicyError::Capacity.message(),
        "session rule limit reached (128)"
    );
    assert_eq!(
        PolicyError::InvalidPattern.message(),
        "wildcards must occupy a whole path component"
    );
    assert_eq!(
        PolicyError::DuplicateRule("/a".to_owned()).message(),
        "policy file contains duplicate path/scope/access rule: /a"
    );
    assert_eq!(
        PolicyError::ReadPolicy {
            path: "/p".to_owned(),
            detail: "gone".to_owned()
        }
        .message(),
        "could not read policy file /p: gone"
    );
    assert!(PolicyError::DoesNotCoverSource.message().contains("cover the source"));
    assert!(PolicyError::InvalidPath.message().contains("absolute"));
    assert_eq!(
        PolicyError::PolicyToml("x".to_owned()).message(),
        "invalid policy TOML: x"
    );
}

#[test]
fn rules_are_replaced_whole_and_listed_in_order() {
    let mut store = SessionRules::default();
    store
        .insert(rule("/old", RuleAction::Deny, RuleScope::Path))
        .unwrap();
    store.replace(vec![
        rule("/b", RuleAction::Allow, RuleScope::Path),
        rule("/a", RuleAction::Deny, RuleScope::Directory),
    ]);
    let paths: Vec<String> = store.drafts().into_iter().map(|draft| draft.path).collect();
    assert_eq!(paths, ["/b", "/a"]);
    assert!(store.evaluate(&request("/old", AccessMode::Read)).is_none());
}

#[test]
fn saved_rules_are_accepted_unchanged() {
    let mut rules = SessionRules::default();
    for (path, action, scope) in [
        ("/work//project/", RuleAction::Allow, RuleScope::Directory),
        ("/work/./secret", RuleAction::Deny, RuleScope::Path),
        ("/", RuleAction::Deny, RuleScope::Directory),
    ] {
        rules.insert(rule(path, action, scope)).unwrap();
    }
    let saved = rules.drafts();
    assert_eq!(saved[0].path, "/work/project");
    let loaded = load_policy(
        "work.toml",
        PolicyRead::Parsed(PolicyFile {
            rules: saved.clone(),
        }),
    )
    .unwrap();
    assert_eq!(loaded, saved);
    let mut again = SessionRules::default();
    again.replace(
        loaded
            .iter()
            .map(|draft| draft.compile().unwrap())
            .collect(),
    );
    assert_eq!(again.drafts(), saved);
}
