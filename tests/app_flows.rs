use karl_tui::app::{App, InputMode, PageView, PendingAction, SaveKind, Section, StackItem};
use karl_tui::config::{
    merge_layers, project_config_path, KarlConfig, ModelConfig, ProviderConfig, StackConfig,
};
use karl_tui::forms::{FormMode, ModelForm, ProviderOption, StackForm, ToolForm};
use karl_tui::keys::{Key, KeyCode};
use karl_tui::table::Table;
use karl_tui::wizard::{InitStep, InitWizard, OAuthStatus};

fn model(provider: &str, id: &str) -> ModelConfig {
    ModelConfig { provider: provider.to_string(), model: id.to_string(), extra: Table::new() }
}

fn stack() -> StackConfig {
    StackConfig {
        name: None,
        extends: None,
        model: None,
        temperature: None,
        timeout: None,
        max_tokens: None,
        skill: None,
        context: None,
        context_file: None,
        unrestricted: None,
    }
}

fn option(key: &str, auth: &str, kind: &str, models: &[(&str, &str)]) -> ProviderOption {
    ProviderOption {
        key: key.to_string(),
        name: key.to_uppercase(),
        auth_type: auth.to_string(),
        provider_type: kind.to_string(),
        default_models: models.iter().map(|(a, m)| (a.to_string(), m.to_string())).collect(),
    }
}

fn catalog() -> Vec<ProviderOption> {
    vec![
        option("pro-max", "oauth", "anthropic", &[("haiku", "haiku-4-5"), ("sonnet", "sonnet-4-5"), ("opus", "opus-4-5")]),
        option("anthropic", "api_key", "anthropic", &[("fast", "sonnet-4"), ("smart", "opus-4"), ("haiku", "haiku-3-5")]),
        option(
            "openrouter",
            "api_key",
            "openai",
            &[
                ("mistral-small", "mistralai/mistral-small-creative"),
                ("devstral", "mistralai/devstral-2512:free"),
                ("mimo", "xiaomi/mimo-v2-flash:free"),
                ("grok", "x-ai/grok-4.1-fast"),
            ],
        ),
    ]
}

fn key(c: char) -> Key {
    Key::plain(KeyCode::Char(c))
}

#[test]
fn defaults_without_any_layer() {
    let (cfg, path) = merge_layers(None, "/home/u/.config/karl/karl.json".to_string(), None, project_config_path());
    assert_eq!(cfg.default_model, "fast");
    assert_eq!(cfg.models.len(), 0);
    assert_eq!(cfg.stacks.len(), 0);
    assert_eq!(cfg.tools.enabled, vec!["bash", "read", "write", "edit"]);
    assert_eq!(cfg.volley.max_concurrent, 3);
    assert_eq!(cfg.volley.retry_attempts, 3);
    assert_eq!(cfg.volley.retry_backoff, "exponential");
    assert_eq!(path, "/home/u/.config/karl/karl.json");
    assert_eq!(project_config_path(), ".karl.json");
}

#[test]
fn project_layer_overrides_global_by_key() {
    let mut g = KarlConfig::default();
    g.models.insert("a".to_string(), model("north", "m-one"));
    g.default_model = "a".to_string();
    let mut p = KarlConfig::default();
    p.models.insert("b".to_string(), model("east", "m-three"));
    p.models.insert("a".to_string(), model("south", "m-two"));
    p.default_model = String::new();
    let (cfg, path) = merge_layers(Some(g), "g.json".to_string(), Some(p), ".karl.json".to_string());
    assert_eq!(cfg.models.get("a").unwrap().provider, "south");
    assert_eq!(cfg.models.get("b").unwrap().provider, "east");
    assert_eq!(cfg.models.len(), 2);
    assert_eq!(cfg.default_model, "a");
    assert_eq!(path, ".karl.json");
}

#[test]
fn global_layer_alone_is_kept_exactly() {
    let mut g = KarlConfig::default();
    g.models.insert("a".to_string(), model("north", "m-one"));
    g.default_model = "a".to_string();
    g.tools.custom.push("/bin/t".to_string());
    let (cfg, path) = merge_layers(Some(g), "g.json".to_string(), None, ".karl.json".to_string());
    assert_eq!(cfg.models.len(), 1);
    assert_eq!(cfg.models.get("a").unwrap().model, "m-one");
    assert_eq!(cfg.default_model, "a");
    assert_eq!(cfg.tools.custom, vec!["/bin/t"]);
    assert_eq!(path, "g.json");
}

#[test]
fn project_default_alias_wins_when_set() {
    let g = KarlConfig::default();
    let mut p = KarlConfig::default();
    p.default_model = "smart".to_string();
    let (cfg, _) = merge_layers(Some(g), "g".to_string(), Some(p), "p".to_string());
    assert_eq!(cfg.default_model, "smart");
}

#[test]
fn table_insert_replace_remove() {
    let mut t: Table<i32> = Table::new();
    t.insert("x".to_string(), 1);
    t.insert("y".to_string(), 2);
    t.insert("x".to_string(), 3);
    assert_eq!(t.len(), 2);
    assert_eq!(t.get("x"), Some(&3));
    assert_eq!(t.keys(), vec!["x", "y"]);
    assert_eq!(t.remove("x"), Some(3));
    assert_eq!(t.remove("x"), None);
    assert!(!t.contains_key("x"));
}

fn app_with_provider() -> App {
    let mut cfg = KarlConfig::default();
    cfg.providers.insert("anthropic".to_string(), ProviderConfig::new());
    App::new(cfg, "cfg.json".to_string(), catalog(), false)
}

#[test]
fn create_model_through_form() {
    let mut app = app_with_provider();
    app.handle_key(key('2'));
    assert_eq!(app.section, Section::Models);
    app.handle_key(key('n'));
    assert!(app.model_form.is_some());
    assert_eq!(app.input_mode, InputMode::Editing);
    app.handle_key(key('x'));
    {
        let form = app.model_form.as_mut().unwrap();
        assert_eq!(form.selected_provider(), Some("anthropic"));
        form.model = karl_tui::widgets::Selector::new(vec!["sonnet-x".to_string()]);
    }
    app.handle_key(Key::plain(KeyCode::Tab));
    app.handle_key(Key::plain(KeyCode::Tab));
    app.handle_key(Key::plain(KeyCode::Tab));
    app.handle_key(key(' '));
    app.handle_key(Key::with_ctrl(KeyCode::Char('s')));
    assert!(app.model_form.is_none());
    let m = app.config.models.get("x").unwrap();
    assert_eq!(m.provider, "anthropic");
    assert_eq!(m.model, "sonnet-x");
    assert_eq!(app.config.default_model, "x");
    assert!(app.dirty);
    assert_eq!(app.view, PageView::List);
    assert_eq!(app.status_message.as_deref(), Some("Created model 'x'"));
    assert_eq!(app.models.total_len(), 1);
}

#[test]
fn invalid_model_form_changes_nothing() {
    let mut app = App::new(KarlConfig::default(), "cfg.json".to_string(), catalog(), false);
    app.handle_key(key('2'));
    app.handle_key(key('n'));
    app.handle_key(Key::with_ctrl(KeyCode::Char('s')));
    assert!(app.model_form.is_some());
    assert_eq!(app.config.models.len(), 0);
    assert_eq!(app.config.default_model, "fast");
    assert!(!app.dirty);
    assert_eq!(
        app.status_message.as_deref(),
        Some("Alias is required, No providers configured, Model is required")
    );
    app.handle_key(Key::plain(KeyCode::Esc));
    assert!(app.model_form.is_none());
    assert_eq!(app.status_message.as_deref(), Some("Cancelled"));
}

#[test]
fn invalid_stack_form_changes_nothing() {
    let mut app = App::new(KarlConfig::default(), "cfg.json".to_string(), catalog(), false);
    app.handle_key(key('3'));
    app.handle_key(key('n'));
    for c in "s1".chars() {
        app.handle_key(key(c));
    }
    {
        let form = app.stack_form.as_mut().unwrap();
        form.temperature = karl_tui::widgets::TextInput::new().with_value("warm");
        form.timeout = karl_tui::widgets::TextInput::new().with_value("-5");
        form.max_tokens = karl_tui::widgets::TextInput::new().with_value("99999999999");
    }
    app.handle_key(Key::with_ctrl(KeyCode::Char('s')));
    assert!(app.stack_form.is_some());
    assert_eq!(app.config.stacks.len(), 0);
    assert!(!app.dirty);
    assert_eq!(
        app.status_message.as_deref(),
        Some("Temperature must be a number, Timeout must be a positive number, Max tokens must be a positive number")
    );
}

#[test]
fn stack_form_commit_converts_fields() {
    let mut app = App::new(KarlConfig::default(), "cfg.json".to_string(), catalog(), false);
    app.handle_key(key('3'));
    app.handle_key(key('n'));
    for c in " arch ".chars() {
        app.handle_key(key(c));
    }
    {
        let form = app.stack_form.as_mut().unwrap();
        form.temperature = karl_tui::widgets::TextInput::new().with_value(" 0.7 ");
        form.timeout = karl_tui::widgets::TextInput::new().with_value("30000");
        form.focused_field = 7;
    }
    app.handle_key(key('c'));
    assert_eq!(app.context_key, Some(key('c')));
    app.set_stack_context("line one\nline two".to_string());
    assert_eq!(app.context_key, None);
    app.handle_key(Key::with_ctrl(KeyCode::Char('s')));
    assert!(app.stack_form.is_none());
    let s = app.config.stacks.get("arch").unwrap();
    assert_eq!(s.name.as_deref(), Some("arch"));
    assert_eq!(s.temperature.as_deref(), Some("0.7"));
    assert_eq!(s.timeout, Some(30000));
    assert_eq!(s.max_tokens, None);
    assert_eq!(s.extends, None);
    assert_eq!(s.context.as_deref(), Some("line one\nline two"));
    assert_eq!(s.unrestricted, None);
    assert_eq!(app.stacks.total_len(), 1);
    assert_eq!(app.stacks.items[0].source, "inline");
}

#[test]
fn delete_stack_needs_confirmation() {
    let mut cfg = KarlConfig::default();
    cfg.stacks.insert("alpha".to_string(), stack());
    let mut app = App::new(cfg, "cfg.json".to_string(), catalog(), false);
    app.handle_key(key('3'));
    assert_eq!(app.section, Section::Stacks);
    app.handle_key(key('d'));
    let d = app.confirm_dialog.as_ref().unwrap();
    assert!(!d.is_confirmed());
    assert!(matches!(app.pending_action, Some(PendingAction::DeleteStack(ref n)) if n == "alpha"));
    app.handle_key(Key::plain(KeyCode::Enter));
    assert!(app.confirm_dialog.is_none());
    assert!(app.config.stacks.contains_key("alpha"));
    assert!(!app.dirty);
    app.handle_key(key('d'));
    app.handle_key(Key::plain(KeyCode::Right));
    app.handle_key(Key::plain(KeyCode::Enter));
    assert!(!app.config.stacks.contains_key("alpha"));
    assert!(app.dirty);
    assert_eq!(app.status_message.as_deref(), Some("Deleted stack 'alpha'"));
}

#[test]
fn confirmation_owns_keys_before_forms_and_globals() {
    let mut cfg = KarlConfig::default();
    cfg.stacks.insert("alpha".to_string(), stack());
    let mut app = App::new(cfg, "cfg.json".to_string(), catalog(), false);
    app.handle_key(key('3'));
    app.handle_key(key('d'));
    app.handle_key(key('q'));
    app.handle_key(Key::with_ctrl(KeyCode::Char('s')));
    app.handle_key(key('1'));
    assert!(!app.should_quit);
    assert!(app.save_request.is_none());
    assert_eq!(app.section, Section::Stacks);
    assert!(app.confirm_dialog.is_some());
    app.handle_key(Key::plain(KeyCode::Esc));
    assert!(app.confirm_dialog.is_none());
    assert!(app.pending_action.is_none());
}

#[test]
fn quit_with_unsaved_changes_asks_first() {
    let mut app = app_with_provider();
    app.dirty = true;
    app.handle_key(key('q'));
    assert!(!app.should_quit);
    assert!(app.confirm_dialog.is_some());
    app.handle_key(key('l'));
    app.handle_key(Key::plain(KeyCode::Enter));
    assert!(app.should_quit);
}

#[test]
fn save_request_and_result() {
    let mut app = app_with_provider();
    app.dirty = true;
    app.handle_key(Key::with_ctrl(KeyCode::Char('s')));
    assert!(matches!(app.save_request, Some(SaveKind::Edits)));
    app.finish_save(Err("disk full".to_string()));
    assert!(app.dirty);
    assert_eq!(app.status_message.as_deref(), Some("Save failed: disk full"));
    app.handle_key(Key::with_ctrl(KeyCode::Char('s')));
    app.finish_save(Ok(()));
    assert!(!app.dirty);
    assert_eq!(app.status_message.as_deref(), Some("Config saved"));
}

#[test]
fn search_filters_and_escape_restores() {
    let mut cfg = KarlConfig::default();
    cfg.models.insert("Fast".to_string(), model("p", "m"));
    cfg.models.insert("smart".to_string(), model("p", "m"));
    let mut app = App::new(cfg, "cfg.json".to_string(), catalog(), false);
    app.handle_key(key('2'));
    app.handle_key(key('/'));
    assert_eq!(app.input_mode, InputMode::Search);
    app.handle_key(key('F'));
    app.handle_key(key('a'));
    assert_eq!(app.models.len(), 1);
    assert_eq!(app.models.selected().unwrap().alias, "Fast");
    app.handle_key(key('q'));
    assert!(!app.should_quit);
    app.handle_key(Key::plain(KeyCode::Esc));
    assert_eq!(app.input_mode, InputMode::Normal);
    assert_eq!(app.models.len(), 2);
    assert_eq!(app.model_search.value, "");
}

#[test]
fn tools_toggle_and_custom_tool() {
    let mut app = app_with_provider();
    app.handle_key(key('5'));
    assert_eq!(app.tools.total_len(), 4);
    app.handle_key(key(' '));
    assert!(!app.tools.items[0].enabled);
    assert_eq!(app.config.tools.enabled, vec!["read", "write", "edit"]);
    app.handle_key(key(' '));
    assert_eq!(app.config.tools.enabled, vec!["read", "write", "edit", "bash"]);
    app.handle_key(key('n'));
    assert!(app.tool_form.is_some());
    app.handle_key(Key::with_ctrl(KeyCode::Char('s')));
    assert_eq!(app.status_message.as_deref(), Some("Path is required"));
    for c in "/bin/t".chars() {
        app.handle_key(key(c));
    }
    app.handle_key(Key::with_ctrl(KeyCode::Char('s')));
    assert_eq!(app.config.tools.custom, vec!["/bin/t"]);
    assert_eq!(app.tools.total_len(), 5);
    app.handle_key(key('n'));
    for c in "/bin/t".chars() {
        app.handle_key(key(c));
    }
    app.handle_key(Key::with_ctrl(KeyCode::Char('s')));
    assert_eq!(app.status_message.as_deref(), Some("Tool already exists"));
    assert!(app.tool_form.is_some());
    app.handle_key(Key::plain(KeyCode::Esc));
    app.handle_key(Key::plain(KeyCode::Up));
    app.handle_key(key('d'));
    app.handle_key(Key::plain(KeyCode::Right));
    app.handle_key(Key::plain(KeyCode::Enter));
    assert!(app.config.tools.custom.is_empty());
}

#[test]
fn discovered_stacks_merge_in_name_order() {
    let mut cfg = KarlConfig::default();
    cfg.stacks.insert("zeta".to_string(), stack());
    cfg.stacks.insert("beta".to_string(), stack());
    let mut app = App::new(cfg, "cfg.json".to_string(), catalog(), false);
    let file = |n: &str, p: &str| StackItem { name: n.to_string(), config: stack(), source: p.to_string() };
    app.set_discovery(vec![file("beta", "/s/beta.json"), file("alpha", "/s/alpha.json"), file("alpha", "/t/alpha.json")], vec![], vec![]);
    let names: Vec<&str> = app.stacks.items.iter().map(|s| s.name.as_str()).collect();
    assert_eq!(names, vec!["alpha", "beta", "zeta"]);
    assert_eq!(app.stacks.items[0].source, "/s/alpha.json");
    assert_eq!(app.stacks.items[1].source, "inline");
}

#[test]
fn section_cycle_and_numbers() {
    assert_eq!(Section::Hooks.next(), Section::Settings);
    assert_eq!(Section::Settings.prev(), Section::Hooks);
    assert_eq!(Section::from_number(3), Some(Section::Stacks));
    assert_eq!(Section::from_number(0), None);
    assert_eq!(Section::from_number(7), None);
    assert_eq!(Section::Tools.name(), "Tools");
    assert_eq!(Section::all().len(), 6);
}

#[test]
fn provider_model_table() {
    assert_eq!(
        ProviderOption::models_for_provider(&catalog(), "anthropic"),
        vec!["sonnet-4", "opus-4", "haiku-3-5"]
    );
    assert_eq!(ProviderOption::models_for_provider(&catalog(), "openrouter").len(), 4);
    assert!(ProviderOption::models_for_provider(&catalog(), "nope").is_empty());
    assert!(ProviderOption::models_for_provider(&vec![], "anthropic").is_empty());
}

#[test]
fn model_form_provider_change_rebuilds_models() {
    let cat = catalog();
    let mut f = ModelForm::new_create(vec!["anthropic".to_string(), "openrouter".to_string()], &cat);
    assert_eq!(f.mode, FormMode::Create);
    assert_eq!(f.model.options.len(), 3);
    f.provider.next();
    f.update_model_options(&cat);
    assert_eq!(f.model.options.len(), 4);
    assert_eq!(f.model.selected, 0);
    f.prev_field();
    assert_eq!(f.focused_field, 3);
    f.next_field();
    assert_eq!(f.focused_field, 0);
    assert_eq!(ModelForm::field_count(), 4);
}

#[test]
fn stack_form_edit_shows_values() {
    let mut c = stack();
    c.timeout = Some(1500);
    c.max_tokens = Some(42);
    c.unrestricted = Some(true);
    let f = StackForm::new_edit("s", &c);
    assert_eq!(f.timeout.value, "1500");
    assert_eq!(f.max_tokens.value, "42");
    assert!(f.unrestricted.value);
    assert!(f.validate().is_empty());
    assert_eq!(StackForm::field_count(), 10);
    assert_eq!(StackForm::new_create().validate(), vec!["Name is required"]);
    assert_eq!(ToolForm::new().validate(), vec!["Path is required"]);
}

#[test]
fn wizard_setup_flow() {
    let mut app = App::new(KarlConfig::default(), "cfg.json".to_string(), catalog(), true);
    assert!(app.is_wizard_mode());
    app.handle_key(Key::plain(KeyCode::Enter));
    assert_eq!(app.init_wizard.as_ref().unwrap().step, InitStep::SelectProvider);
    app.handle_key(Key::plain(KeyCode::Down));
    app.handle_key(Key::plain(KeyCode::Enter));
    assert_eq!(app.init_wizard.as_ref().unwrap().step, InitStep::AuthenticateApiKey);
    app.handle_key(Key::plain(KeyCode::Enter));
    assert_eq!(app.init_wizard.as_ref().unwrap().error_message.as_deref(), Some("API key is required"));
    for c in "sk-1".chars() {
        app.handle_key(key(c));
    }
    app.handle_key(Key::plain(KeyCode::Enter));
    assert_eq!(app.init_wizard.as_ref().unwrap().step, InitStep::CreateModel);
    app.handle_key(Key::plain(KeyCode::Enter));
    assert_eq!(app.init_wizard.as_ref().unwrap().step, InitStep::Confirm);
    app.handle_key(key('N'));
    assert_eq!(app.init_wizard.as_ref().unwrap().step, InitStep::CreateModel);
    app.handle_key(Key::plain(KeyCode::Enter));
    app.handle_key(key('y'));
    assert!(app.init_wizard.is_none());
    assert!(app.should_quit);
    assert_eq!(app.config.default_model, "fast");
    let m = app.config.models.get("fast").unwrap();
    assert_eq!(m.provider, "anthropic");
    assert_eq!(m.model, "sonnet-4");
    assert_eq!(app.config.providers.get("anthropic").unwrap().api_key.as_deref(), Some("sk-1"));
    app.finish_save(Ok(()));
    assert_eq!(app.status_message.as_deref(), Some("Setup complete! Default model: fast"));
}

#[test]
fn wizard_oauth_and_escape() {
    let mut w = InitWizard::new(catalog());
    assert_eq!(w.selected_model(), Some("haiku-4-5"));
    w.prev_provider();
    assert_eq!(w.provider_index, 2);
    w.next_provider();
    assert_eq!(w.selected_provider().key, "pro-max");
    let mut app = App::new(KarlConfig::default(), "cfg.json".to_string(), catalog(), true);
    app.handle_key(Key::plain(KeyCode::Enter));
    app.handle_key(Key::plain(KeyCode::Enter));
    assert_eq!(app.init_wizard.as_ref().unwrap().step, InitStep::AuthenticateOAuth);
    app.handle_key(Key::plain(KeyCode::Enter));
    assert!(app.needs_login_flow);
    app.wizard_oauth_complete(false);
    assert!(matches!(app.init_wizard.as_ref().unwrap().oauth_status, OAuthStatus::Failed(_)));
    app.wizard_oauth_complete(true);
    assert_eq!(app.init_wizard.as_ref().unwrap().step, InitStep::CreateModel);
    app.handle_key(Key::plain(KeyCode::Esc));
    assert!(app.should_quit);
}

#[test]
fn refresh_requests_discovery_and_status() {
    let mut app = app_with_provider();
    app.discovery_requested = false;
    app.cli_refresh_requested = false;
    app.handle_key(key('r'));
    assert!(app.discovery_requested);
    assert!(app.cli_refresh_requested);
    assert_eq!(app.status_message.as_deref(), Some("Refreshed"));
    app.handle_key(key('L'));
    assert!(app.needs_login_flow);
}

#[test]
fn edit_existing_model_with_rename() {
    let mut cfg = KarlConfig::default();
    cfg.providers.insert("anthropic".to_string(), ProviderConfig::new());
    cfg.models.insert("old".to_string(), model("anthropic", "opus-4"));
    let mut app = App::new(cfg, "cfg.json".to_string(), catalog(), false);
    app.handle_key(key('2'));
    app.handle_key(key('e'));
    {
        let f = app.model_form.as_ref().unwrap();
        assert_eq!(f.mode, FormMode::Edit);
        assert_eq!(f.model.selected_value(), Some("opus-4"));
    }
    app.handle_key(Key::plain(KeyCode::Backspace));
    app.handle_key(Key::plain(KeyCode::Backspace));
    app.handle_key(Key::plain(KeyCode::Backspace));
    app.handle_key(key('n'));
    app.handle_key(key('e'));
    app.handle_key(key('w'));
    app.handle_key(Key::with_ctrl(KeyCode::Char('s')));
    assert!(!app.config.models.contains_key("old"));
    assert_eq!(app.config.models.get("new").unwrap().model, "opus-4");
    assert_eq!(app.status_message.as_deref(), Some("Updated model 'new'"));
}

#[test]
fn login_result_outside_setup() {
    let mut app = app_with_provider();
    app.request_login();
    app.login_finished(true);
    assert!(!app.needs_login_flow);
    assert!(app.cli_refresh_requested);
    assert_eq!(app.status_message.as_deref(), Some("Login successful"));
    app.request_login();
    app.login_finished(false);
    assert_eq!(app.status_message.as_deref(), Some("Login cancelled"));
}

#[test]
fn prompt_keeps_pending_action_while_choosing() {
    let mut cfg = KarlConfig::default();
    cfg.stacks.insert("alpha".to_string(), stack());
    cfg.stacks.insert("beta".to_string(), stack());
    let mut app = App::new(cfg, "cfg.json".to_string(), catalog(), false);
    app.handle_key(key('3'));
    app.handle_key(key('d'));
    app.handle_key(Key::plain(KeyCode::Tab));
    app.handle_key(Key::plain(KeyCode::Tab));
    app.handle_key(key('x'));
    app.handle_key(key('l'));
    assert!(matches!(app.pending_action, Some(PendingAction::DeleteStack(ref n)) if n == "alpha"));
    app.handle_key(Key::plain(KeyCode::Enter));
    assert!(!app.config.stacks.contains_key("alpha"));
    assert!(app.config.stacks.contains_key("beta"));
    assert_eq!(app.stacks.total_len(), 1);
}

#[test]
fn invalid_save_keeps_view_and_reports() {
    let mut app = App::new(KarlConfig::default(), "cfg.json".to_string(), catalog(), false);
    app.handle_key(key('3'));
    app.handle_key(key('n'));
    app.handle_key(Key::with_ctrl(KeyCode::Char('s')));
    assert_eq!(app.view, PageView::Create);
    assert_eq!(app.status_message.as_deref(), Some("Name is required"));
}
