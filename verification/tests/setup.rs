//! The setup wizard.
use brunson::api::{AuthStatus, LlmSetupStatus, SetupStatusResponse};
use brunson::config::{Config, GithubTarget};
use brunson::keys::{KeyCode, KeyEvent};
use brunson::wizard::{
    handle_auth_check_key, handle_confirm_key, handle_llm_config_key, handle_target_detail_key,
    handle_target_picker_key, handle_watch_list_input_key, handle_watch_mode_key,
    handle_welcome_key, step_keybar_hint, target_org_and_repo, AsyncResource, SetupWizardState,
    WatchModeChoice, WizardStep,
};

fn key(code: KeyCode) -> KeyEvent {
    KeyEvent::plain(code)
}

fn hydrate_default() -> SetupWizardState {
    SetupWizardState::hydrate(
        "/tmp/config.toml".to_string(),
        &Config::default(),
    )
}

#[test]
fn target_org_and_repo_splits_repo_form() {
    assert_eq!(
        target_org_and_repo("myorg/myrepo"),
        (None, Some("myorg/myrepo".to_string()))
    );
}

#[test]
fn target_org_and_repo_treats_bare_name_as_org() {
    assert_eq!(
        target_org_and_repo("myorg"),
        (Some("myorg".to_string()), None)
    );
}

#[test]
fn hydrate_infers_watch_mode_from_config_shape() {
    let mut cfg = Config::default();
    assert_eq!(
        SetupWizardState::hydrate(default_test_path(), &cfg).watch_mode,
        WatchModeChoice::Everything
    );

    cfg.github.watch = vec!["myorg".to_string()];
    assert_eq!(
        SetupWizardState::hydrate(default_test_path(), &cfg).watch_mode,
        WatchModeChoice::BroadWatch
    );

    cfg.github.targets.push(GithubTarget {
        org: Some("myorg".to_string()),
        repo: None,
        direct_review_requests: true,
        team_review_requests: vec![],
        include_authored: true,
        include_involved: false,
    });
    assert_eq!(
        SetupWizardState::hydrate(default_test_path(), &cfg).watch_mode,
        WatchModeChoice::PreciseTargets
    );
}

fn default_test_path() -> String {
    "/tmp/config.toml".to_string()
}

#[test]
fn draft_round_trips_broad_watch() {
    let mut cfg = Config::default();
    cfg.github.watch = vec!["myorg".to_string(), "myorg/repo".to_string()];
    let wizard = SetupWizardState::hydrate(default_test_path(), &cfg);
    let draft = wizard.draft();
    assert_eq!(draft.github.watch, cfg.github.watch);
    assert!(draft.github.targets.is_empty());
}

#[test]
fn draft_round_trips_precise_targets() {
    let mut cfg = Config::default();
    cfg.github.targets.push(GithubTarget {
        org: Some("myorg".to_string()),
        repo: None,
        direct_review_requests: true,
        team_review_requests: vec!["myorg/team-a".to_string()],
        include_authored: false,
        include_involved: false,
    });
    let wizard = SetupWizardState::hydrate(default_test_path(), &cfg);
    let draft = wizard.draft();
    assert!(draft.github.watch.is_empty());
    assert_eq!(draft.github.targets.len(), 1);
    assert_eq!(draft.github.targets[0].org.as_deref(), Some("myorg"));
    assert_eq!(
        draft.github.targets[0].team_review_requests,
        vec!["myorg/team-a".to_string()]
    );
}

#[test]
fn draft_preserves_daemon_and_tui_config_untouched() {
    let mut cfg = Config::default();
    cfg.daemon.port = 12345;
    cfg.tui.show_line_numbers = false;
    let wizard = SetupWizardState::hydrate(default_test_path(), &cfg);
    let draft = wizard.draft();
    assert_eq!(draft.daemon.port, 12345);
    assert!(!draft.tui.show_line_numbers);
}

#[test]
fn welcome_enter_skips_auth_check_when_already_resolved() {
    let mut wizard = hydrate_default();
    wizard.auth = AsyncResource::Ready(SetupStatusResponse {
        ready: true,
        status: "ready".to_string(),
        auth: AuthStatus {
            resolved: true,
            source: None,
            user: Some("me".to_string()),
        },
        llm: LlmSetupStatus::default(),
        next_steps: vec![],
    });
    handle_welcome_key(&mut wizard, key(KeyCode::Enter));
    assert_eq!(wizard.step, WizardStep::WatchMode);
}

#[test]
fn welcome_enter_goes_to_auth_check_when_unresolved() {
    let mut wizard = hydrate_default();
    handle_welcome_key(&mut wizard, key(KeyCode::Enter));
    assert_eq!(wizard.step, WizardStep::AuthCheck);
    assert!(matches!(wizard.auth, AsyncResource::Requested));
}

#[test]
fn watch_mode_navigation_and_selection() {
    let mut wizard = hydrate_default();
    wizard.step = WizardStep::WatchMode;
    handle_watch_mode_key(&mut wizard, key(KeyCode::Down));
    assert_eq!(wizard.watch_mode, WatchModeChoice::BroadWatch);
    handle_watch_mode_key(&mut wizard, key(KeyCode::Enter));
    assert_eq!(wizard.step, WizardStep::WatchListInput);
}

#[test]
fn watch_mode_precise_targets_triggers_membership_load() {
    let mut wizard = hydrate_default();
    wizard.step = WizardStep::WatchMode;
    wizard.watch_mode = WatchModeChoice::PreciseTargets;
    handle_watch_mode_key(&mut wizard, key(KeyCode::Enter));
    assert_eq!(wizard.step, WizardStep::TargetPicker);
    assert!(matches!(wizard.memberships, AsyncResource::Requested));
}

#[test]
fn esc_pops_step_history() {
    let mut wizard = hydrate_default();
    wizard.push_step(WizardStep::WatchMode);
    wizard.push_step(WizardStep::WatchListInput);
    handle_watch_list_input_key(&mut wizard, key(KeyCode::Esc));
    assert_eq!(wizard.step, WizardStep::WatchMode);
}

#[test]
fn watch_list_input_appends_and_backspaces() {
    let mut wizard = hydrate_default();
    wizard.step = WizardStep::WatchListInput;
    handle_watch_list_input_key(&mut wizard, key(KeyCode::Char('a')));
    handle_watch_list_input_key(&mut wizard, key(KeyCode::Char('b')));
    assert_eq!(wizard.watch_raw_input, "ab");
    handle_watch_list_input_key(&mut wizard, key(KeyCode::Backspace));
    assert_eq!(wizard.watch_raw_input, "a");
}

#[test]
fn target_picker_manual_entry_creates_editing_target() {
    let mut wizard = hydrate_default();
    wizard.step = WizardStep::TargetPicker;
    handle_target_picker_key(&mut wizard, key(KeyCode::Char('a')));
    assert!(wizard.manual_entry_active);
    for c in "myorg/myrepo".chars() {
        handle_target_picker_key(&mut wizard, key(KeyCode::Char(c)));
    }
    handle_target_picker_key(&mut wizard, key(KeyCode::Enter));
    assert_eq!(wizard.step, WizardStep::TargetDetail);
    let target = wizard.editing_target.as_ref().unwrap();
    assert_eq!(target.repo.as_deref(), Some("myorg/myrepo"));
}

#[test]
fn target_detail_save_rejects_target_with_no_relationship_enabled() {
    let mut wizard = hydrate_default();
    wizard.editing_target = Some(GithubTarget {
        org: Some("myorg".to_string()),
        repo: None,
        direct_review_requests: false,
        team_review_requests: vec![],
        include_authored: false,
        include_involved: false,
    });
    wizard.step = WizardStep::TargetDetail;
    handle_target_detail_key(&mut wizard, key(KeyCode::Char('s')));
    assert!(wizard.target_error.is_some());
    assert_eq!(wizard.step, WizardStep::TargetDetail);
    assert!(wizard.editing_target.is_some());
}

#[test]
fn target_detail_save_adds_target_and_returns_to_picker() {
    let mut wizard = hydrate_default();
    wizard.step = WizardStep::TargetPicker;
    wizard.push_step(WizardStep::TargetDetail);
    wizard.editing_target = Some(GithubTarget {
        org: Some("myorg".to_string()),
        repo: None,
        direct_review_requests: true,
        team_review_requests: vec![],
        include_authored: true,
        include_involved: false,
    });
    handle_target_detail_key(&mut wizard, key(KeyCode::Char('s')));
    assert_eq!(wizard.step, WizardStep::TargetPicker);
    assert_eq!(wizard.selected_targets.len(), 1);
    assert!(wizard.editing_target.is_none());
}

#[test]
fn target_detail_toggle_direct_review_requests() {
    let mut wizard = hydrate_default();
    wizard.editing_target = Some(GithubTarget {
        org: Some("myorg".to_string()),
        repo: None,
        direct_review_requests: true,
        team_review_requests: vec![],
        include_authored: true,
        include_involved: false,
    });
    wizard.editing_target_cursor = 0;
    handle_target_detail_key(&mut wizard, key(KeyCode::Char(' ')));
    assert!(!wizard.editing_target.unwrap().direct_review_requests);
}

#[test]
fn llm_config_enter_toggles_enabled_on_row_zero() {
    let mut wizard = hydrate_default();
    wizard.step = WizardStep::LlmConfig;
    assert!(!wizard.llm_enabled);
    handle_llm_config_key(&mut wizard, key(KeyCode::Enter));
    assert!(wizard.llm_enabled);
}

#[test]
fn llm_config_text_field_editing() {
    let mut wizard = hydrate_default();
    wizard.step = WizardStep::LlmConfig;
    wizard.llm_cursor = 2; // endpoint field
    handle_llm_config_key(&mut wizard, key(KeyCode::Enter));
    assert!(wizard.llm_editing_field);
    handle_llm_config_key(&mut wizard, key(KeyCode::Char('x')));
    assert_eq!(wizard.llm_endpoint, "x");
    handle_llm_config_key(&mut wizard, key(KeyCode::Enter));
    assert!(!wizard.llm_editing_field);
}

#[test]
fn confirm_y_requests_commit() {
    let mut wizard = hydrate_default();
    wizard.step = WizardStep::Confirm;
    handle_confirm_key(&mut wizard, key(KeyCode::Char('y')));
    assert!(matches!(wizard.commit, AsyncResource::Requested));
}

#[test]
fn confirm_y_does_not_double_spawn_commit_while_in_flight() {
    let mut wizard = hydrate_default();
    wizard.step = WizardStep::Confirm;
    handle_confirm_key(&mut wizard, key(KeyCode::Char('y')));
    assert!(matches!(wizard.commit, AsyncResource::Requested));
    // Simulate the render-loop pump: Requested -> Loading, spawn.
    wizard.commit = AsyncResource::Loading;
    handle_confirm_key(&mut wizard, key(KeyCode::Char('y')));
    assert!(matches!(wizard.commit, AsyncResource::Loading));
}

#[test]
fn async_resource_request_noop_while_requested_or_loading() {
    let mut r: AsyncResource<i32> = AsyncResource::Requested;
    r.request();
    assert!(matches!(r, AsyncResource::Requested));

    let mut r: AsyncResource<i32> = AsyncResource::Loading;
    r.request();
    assert!(matches!(r, AsyncResource::Loading));
}

#[test]
fn async_resource_request_from_ready_or_failed_reenters_requested() {
    let mut r = AsyncResource::Ready(5);
    r.request();
    assert!(matches!(r, AsyncResource::Requested));

    let mut r: AsyncResource<i32> = AsyncResource::Failed("boom".to_string());
    r.request();
    assert!(matches!(r, AsyncResource::Requested));
}

#[test]
fn auth_check_recheck_allowed_after_ready() {
    // Some key handlers legitimately re-request after a resource is
    // already Ready (e.g. 'r' to recheck auth, refresh a preview after
    // the draft changed) — Ready -> Requested must stay allowed.
    let mut wizard = hydrate_default();
    wizard.step = WizardStep::AuthCheck;
    wizard.auth = AsyncResource::Ready(SetupStatusResponse {
        ready: false,
        status: "pending".to_string(),
        auth: AuthStatus {
            resolved: false,
            source: None,
            user: None,
        },
        llm: LlmSetupStatus::default(),
        next_steps: vec![],
    });
    handle_auth_check_key(&mut wizard, key(KeyCode::Char('r')));
    assert!(matches!(wizard.auth, AsyncResource::Requested));
}

#[test]
fn auth_check_full_lifecycle_via_key_pump_and_completion() {
    // Drives the whole Idle -> Requested -> Loading -> Ready path a key
    // handler + the render-loop pump + a completion event would produce,
    // without needing the daemon client or tokio runtime.
    let mut wizard = hydrate_default();
    wizard.step = WizardStep::AuthCheck;

    // Key handler: 'r' requests a recheck.
    handle_auth_check_key(&mut wizard, key(KeyCode::Char('r')));
    assert!(matches!(wizard.auth, AsyncResource::Requested));

    if matches!(wizard.auth, AsyncResource::Requested) {
        wizard.auth = AsyncResource::Loading;
    }
    assert!(wizard.auth.is_loading());

    wizard.auth = AsyncResource::Ready(SetupStatusResponse {
        ready: true,
        status: "ready".to_string(),
        auth: AuthStatus {
            resolved: true,
            source: None,
            user: Some("me".to_string()),
        },
        llm: LlmSetupStatus::default(),
        next_steps: vec![],
    });
    assert!(!wizard.auth.is_loading());
    assert!(wizard.auth_resolved());
}

#[test]
fn step_keybar_hint_is_nonempty_for_every_step() {
    let steps = [
        WizardStep::Welcome,
        WizardStep::AuthCheck,
        WizardStep::WatchMode,
        WizardStep::WatchListInput,
        WizardStep::TargetPicker,
        WizardStep::TargetDetail,
        WizardStep::LivePreview,
        WizardStep::LlmConfig,
        WizardStep::Confirm,
    ];
    for step in steps {
        assert!(!step_keybar_hint(step).is_empty());
    }
}
