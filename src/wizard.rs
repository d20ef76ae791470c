use vstd::prelude::*;

use crate::config::texts;
use crate::forms::ProviderOption;
use crate::keys::{Key, KeyCode};
use crate::text::{is_blank, is_blank_text};
use crate::widgets::{Selector, TextInput};

verus! {

broadcast use vstd::string::group_string_axioms;

/// Steps of first-run setup.
#[derive(Debug, Clone, Copy, PartialEq, Eq, Structural)]
pub enum InitStep {
    Welcome,
    SelectProvider,
    AuthenticateOAuth,
    AuthenticateApiKey,
    CreateModel,
    Confirm,
}

/// Progress of the interactive login.
#[derive(Debug, Clone, PartialEq, Eq)]
pub enum OAuthStatus {
    NotStarted,
    InProgress,
    Success,
    Failed(String),
}

/// What the application has to do after the wizard saw a key.
#[derive(Debug, Clone, Copy, PartialEq, Eq, Structural)]
pub enum WizardOutcome {
    Continue,
    Quit,
    Login,
    Finish,
}

/// The step that comes before model creation for provider `p`.
pub open spec fn auth_step(p: ProviderOption) -> InitStep {
    if p.auth_type@ == "oauth"@ {
        InitStep::AuthenticateOAuth
    } else {
        InitStep::AuthenticateApiKey
    }
}

/// The step after a key other than Esc.
pub open spec fn wizard_next_step(w: InitWizard, key: Key) -> InitStep {
    match w.step {
        InitStep::Welcome => if key.code == KeyCode::Enter { InitStep::SelectProvider } else { InitStep::Welcome },
        InitStep::SelectProvider => if key.code == KeyCode::Enter {
            auth_step(w.catalog@[w.provider_index as int])
        } else {
            InitStep::SelectProvider
        },
        InitStep::AuthenticateOAuth => match key.code {
            KeyCode::Char('s') | KeyCode::Char('S') => InitStep::CreateModel,
            KeyCode::Backspace => InitStep::SelectProvider,
            _ => InitStep::AuthenticateOAuth,
        },
        InitStep::AuthenticateApiKey => match key.code {
            KeyCode::Enter => if is_blank(w.api_key.value@) { InitStep::AuthenticateApiKey } else { InitStep::CreateModel },
            KeyCode::Backspace => if w.api_key.value@.len() == 0 {
                InitStep::SelectProvider
            } else {
                InitStep::AuthenticateApiKey
            },
            _ => InitStep::AuthenticateApiKey,
        },
        InitStep::CreateModel => match key.code {
            KeyCode::Enter => if is_blank(w.model_alias.value@) { InitStep::CreateModel } else { InitStep::Confirm },
            _ => InitStep::CreateModel,
        },
        InitStep::Confirm => match key.code {
            KeyCode::Backspace | KeyCode::Char('n') | KeyCode::Char('N') => InitStep::CreateModel,
            _ => InitStep::Confirm,
        },
    }
}

/// Enter on the login step starts the interactive login.
pub open spec fn starts_login(w: InitWizard, key: Key) -> bool {
    w.step == InitStep::AuthenticateOAuth && key.code == KeyCode::Enter
}

/// Enter, `y` or `Y` on the confirmation step finishes setup.
pub open spec fn finishes(w: InitWizard, key: Key) -> bool {
    w.step == InitStep::Confirm && (key.code == KeyCode::Enter || key.code == KeyCode::Char('y')
        || key.code == KeyCode::Char('Y'))
}

/// First-run setup state.
pub struct InitWizard {
    /// The providers offered, in order.
    pub catalog: Vec<ProviderOption>,
    pub step: InitStep,
    pub provider_index: usize,
    pub api_key: TextInput,
    pub model_alias: TextInput,
    pub model_selector: Selector,
    pub oauth_status: OAuthStatus,
    pub error_message: Option<String>,
    /// Focus on the model step: 0 for the alias, 1 for the model choice.
    pub model_focused_field: usize,
}

impl InitWizard {
    pub open spec fn wf(&self) -> bool {
        &&& self.provider_index < self.catalog@.len()
        &&& self.model_focused_field < 2
        &&& self.api_key.wf()
        &&& self.model_alias.wf()
        &&& self.model_selector.wf()
    }

    pub fn new(catalog: Vec<ProviderOption>) -> (r: Self)
        requires
            catalog@.len() > 0,
        ensures
            r.wf(),
            r.catalog@ == catalog@,
            r.step == InitStep::Welcome,
            r.provider_index == 0,
            r.model_alias.value@ == "fast"@,
            texts(r.model_selector.options@) == catalog@[0].model_id_texts(),
            r.oauth_status == OAuthStatus::NotStarted,
            r.error_message is None,
            r.model_focused_field == 0,
    {
        let options = catalog[0].model_ids();
        InitWizard {
            catalog,
            step: InitStep::Welcome,
            provider_index: 0,
            api_key: TextInput::new().with_placeholder("Enter your API key"),
            model_alias: TextInput::new().with_value("fast"),
            model_selector: Selector::new(options),
            oauth_status: OAuthStatus::NotStarted,
            error_message: None,
            model_focused_field: 0,
        }
    }

    pub fn selected_provider(&self) -> (r: &ProviderOption)
        requires
            self.wf(),
        ensures
            *r == self.catalog@[self.provider_index as int],
    {
        &self.catalog[self.provider_index]
    }

    fn update_model_options(&mut self)
        requires
            old(self).wf(),
        ensures
            final(self).wf(),
            texts(final(self).model_selector.options@) == old(self).catalog@[old(self).provider_index as int].model_id_texts(),
            final(self).model_selector.selected == 0,
            *final(self) == (InitWizard { model_selector: final(self).model_selector, ..*old(self) }),
    {
        let options = self.selected_provider().model_ids();
        self.model_selector = Selector::new(options);
    }

    pub fn next_provider(&mut self)
        requires
            old(self).wf(),
        ensures
            final(self).wf(),
            final(self).provider_index == (old(self).provider_index + 1) % (old(self).catalog@.len() as int),
            texts(final(self).model_selector.options@) == final(self).catalog@[final(self).provider_index as int].model_id_texts(),
            final(self).model_selector.selected == 0,
            *final(self) == (InitWizard {
                provider_index: final(self).provider_index,
                model_selector: final(self).model_selector,
                ..*old(self)
            }),
    {
        let n = self.catalog.len();
        self.provider_index = (self.provider_index + 1) % n;
        self.update_model_options();
    }

    pub fn prev_provider(&mut self)
        requires
            old(self).wf(),
        ensures
            final(self).wf(),
            final(self).provider_index == (if old(self).provider_index == 0 {
                old(self).catalog@.len() - 1
            } else {
                old(self).provider_index - 1
            }),
            texts(final(self).model_selector.options@) == final(self).catalog@[final(self).provider_index as int].model_id_texts(),
            final(self).model_selector.selected == 0,
            *final(self) == (InitWizard {
                provider_index: final(self).provider_index,
                model_selector: final(self).model_selector,
                ..*old(self)
            }),
    {
        self.provider_index = if self.provider_index == 0 { self.catalog.len() - 1 } else { self.provider_index - 1 };
        self.update_model_options();
    }

    pub fn selected_model(&self) -> (r: Option<&str>)
        ensures
            r is Some <==> self.model_selector.selected_text() is Some,
            r matches Some(v) ==> self.model_selector.selected_text() == Some(v@),
    {
        self.model_selector.selected_value()
    }

    /// The result of the interactive login: success moves on to model
    /// creation; failure is recorded and the step stays.
    pub fn oauth_complete(&mut self, success: bool)
        requires
            old(self).wf(),
        ensures
            final(self).wf(),
            success ==> final(self).oauth_status == OAuthStatus::Success
                && final(self).step == InitStep::CreateModel,
            !success ==> final(self).oauth_status is Failed && final(self).step == old(self).step,
            *final(self) == (InitWizard {
                oauth_status: final(self).oauth_status,
                step: final(self).step,
                ..*old(self)
            }),
    {
        if success {
            self.oauth_status = OAuthStatus::Success;
            self.step = InitStep::CreateModel;
        } else {
            self.oauth_status = OAuthStatus::Failed(String::from_str("OAuth authentication failed"));
        }
    }

    /// One key on the wizard. Enter (or Y) moves forward, Backspace (or N)
    /// moves back, Esc leaves the wizard; the answer says what the caller
    /// must do next.
    pub fn handle_key(&mut self, key: Key) -> (r: WizardOutcome)
        requires
            old(self).wf(),
        ensures
            final(self).wf(),
            key.code == KeyCode::Esc ==> r == WizardOutcome::Quit && *final(self) == *old(self),
            key.code != KeyCode::Esc ==> final(self).step == wizard_next_step(*old(self), key)
                && final(self).catalog == old(self).catalog,
            r == WizardOutcome::Quit <==> key.code == KeyCode::Esc,
            r == WizardOutcome::Login <==> key.code != KeyCode::Esc && starts_login(*old(self), key),
            r == WizardOutcome::Finish <==> key.code != KeyCode::Esc && finishes(*old(self), key),
            r == WizardOutcome::Login ==> final(self).oauth_status == OAuthStatus::InProgress,
            r == WizardOutcome::Finish ==> *final(self) == *old(self),
            final(self).provider_index != old(self).provider_index ==> old(self).step
                == InitStep::SelectProvider,
    {
        if key.code == KeyCode::Esc {
            return WizardOutcome::Quit;
        }
        match self.step {
            InitStep::Welcome => {
                if key.code == KeyCode::Enter {
                    self.step = InitStep::SelectProvider;
                }
                WizardOutcome::Continue
            },
            InitStep::SelectProvider => {
                match key.code {
                    KeyCode::Up | KeyCode::Char('k') => self.prev_provider(),
                    KeyCode::Down | KeyCode::Char('j') => self.next_provider(),
                    KeyCode::Enter => {
                        let provider = self.selected_provider();
                        if crate::text::same_text(provider.auth_type.as_str(), "oauth") {
                            self.step = InitStep::AuthenticateOAuth;
                        } else {
                            self.step = InitStep::AuthenticateApiKey;
                        }
                    },
                    _ => {},
                }
                WizardOutcome::Continue
            },
            InitStep::AuthenticateOAuth => {
                match key.code {
                    KeyCode::Enter => {
                        self.oauth_status = OAuthStatus::InProgress;
                        return WizardOutcome::Login;
                    },
                    KeyCode::Char('s') | KeyCode::Char('S') => {
                        self.step = InitStep::CreateModel;
                    },
                    KeyCode::Backspace => {
                        self.step = InitStep::SelectProvider;
                        self.oauth_status = OAuthStatus::NotStarted;
                    },
                    _ => {},
                }
                WizardOutcome::Continue
            },
            InitStep::AuthenticateApiKey => {
                match key.code {
                    KeyCode::Enter => {
                        if !is_blank_text(self.api_key.value.as_str()) {
                            self.step = InitStep::CreateModel;
                        } else {
                            self.error_message = Some(String::from_str("API key is required"));
                        }
                    },
                    KeyCode::Backspace if self.api_key.is_empty() => {
                        self.step = InitStep::SelectProvider;
                    },
                    _ => {
                        self.api_key.handle_key(key);
                        self.error_message = None;
                    },
                }
                WizardOutcome::Continue
            },
            InitStep::CreateModel => {
                match key.code {
                    KeyCode::Tab => {
                        self.model_focused_field = 1 - self.model_focused_field;
                    },
                    KeyCode::Enter => {
                        if !is_blank_text(self.model_alias.value.as_str()) {
                            self.step = InitStep::Confirm;
                        } else {
                            self.error_message = Some(String::from_str("Model alias is required"));
                        }
                    },
                    _ => {
                        if self.model_focused_field == 0 {
                            self.model_alias.handle_key(key);
                            self.error_message = None;
                        } else {
                            match key.code {
                                KeyCode::Up | KeyCode::Char('k') => self.model_selector.previous(),
                                KeyCode::Down | KeyCode::Char('j') => self.model_selector.next(),
                                _ => {},
                            }
                        }
                    },
                }
                WizardOutcome::Continue
            },
            InitStep::Confirm => {
                match key.code {
                    KeyCode::Enter | KeyCode::Char('y') | KeyCode::Char('Y') => WizardOutcome::Finish,
                    KeyCode::Backspace | KeyCode::Char('n') | KeyCode::Char('N') => {
                        self.step = InitStep::CreateModel;
                        WizardOutcome::Continue
                    },
                    _ => WizardOutcome::Continue,
                }
            },
        }
    }
}

} // verus!
