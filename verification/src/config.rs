//! User-scope configuration: the chosen backend, models and a few UI
//! preferences. Every field is optional; an unset backend means the
//! first-launch picker is shown.

use vstd::prelude::*;

verus! {

/// The user's configuration.
#[derive(Debug, Clone)]
pub struct UserConfig {
    /// Stable backend id (`codex`, `opencode`, `offline`, ...).
    pub backend: Option<String>,
    /// Model identifier passed to the worker.
    pub model: Option<String>,
    /// Cheaper model for the planning phases.
    pub model_plan: Option<String>,
    /// Stronger model for the code phases.
    pub model_build: Option<String>,
    /// Active design system name.
    pub design_system: Option<String>,
    /// Active seed template.
    pub seed_template: Option<String>,
    /// UI language code (`zh-CN`, `zh-TW`, `en`).
    pub lang: Option<String>,
}

impl Default for UserConfig {
    /// Nothing chosen yet.
    fn default() -> (c: Self)
        ensures
            c.backend is None,
            c.model is None,
            c.model_plan is None,
            c.model_build is None,
            c.design_system is None,
            c.seed_template is None,
            c.lang is None,
    {
        UserConfig {
            backend: None,
            model: None,
            model_plan: None,
            model_build: None,
            design_system: None,
            seed_template: None,
            lang: None,
        }
    }
}

/// The backend a configuration selects: its own choice, or offline templates.
pub open spec fn effective_backend(backend: Option<String>) -> Seq<char> {
    match backend {
        Some(b) => b@,
        None => "offline"@,
    }
}

impl UserConfig {
    /// Whether the user has already picked a backend.
    pub fn has_backend(&self) -> (b: bool)
        ensures
            b == self.backend is Some,
    {
        self.backend.is_some()
    }

    /// The chosen backend id, `offline` when none is chosen.
    pub fn backend_or_default(&self) -> (r: String)
        ensures
            r@ == effective_backend(self.backend),
    {
        match &self.backend {
            Some(b) => b.clone(),
            None => "offline".to_owned(),
        }
    }

    /// What the runner's tier variables should hold, planning tier first:
    /// `Some(model)` sets the variable, `None` clears it so the runner falls
    /// back to the single model.
    pub fn model_tier_exports(&self) -> (r: (Option<String>, Option<String>))
        ensures
            option_view(r.0) == tier_export(self.model_plan),
            option_view(r.1) == tier_export(self.model_build),
    {
        (tier_value(&self.model_plan), tier_value(&self.model_build))
    }
}

/// Environment variable that carries the planning-phase model.
pub const MODEL_PLAN_VAR: &'static str = "UMADEV_MODEL_PLAN";

/// Environment variable that carries the code-phase model.
pub const MODEL_BUILD_VAR: &'static str = "UMADEV_MODEL_BUILD";

/// A string option taken by its view.
pub open spec fn option_view(o: Option<String>) -> Option<Seq<char>> {
    match o {
        Some(s) => Some(s@),
        None => None,
    }
}

/// What a tier's variable holds: the tier's model when it is set and not
/// empty; otherwise nothing, and the variable is removed.
pub open spec fn tier_export(tier: Option<String>) -> Option<Seq<char>> {
    match tier {
        Some(m) => if m@.len() > 0 { Some(m@) } else { None },
        None => None,
    }
}

/// The value one tier's variable should hold.
pub fn tier_value(tier: &Option<String>) -> (r: Option<String>)
    ensures
        option_view(r) == tier_export(*tier),
{
    match tier {
        Some(m) => {
            if m.as_str().is_empty() {
                None
            } else {
                Some(m.clone())
            }
        },
        None => None,
    }
}

/// Whether the spinner animates at start-up: never when standard output is
/// not a terminal (piped or CI output); otherwise unless the user persisted
/// `/animations off`. An absent or unreadable preference animates.
pub fn animations_enabled_default(stdout_is_terminal: bool, persisted: Option<bool>) -> (b: bool)
    ensures
        b == (stdout_is_terminal && persisted != Some(false)),
{
    if !stdout_is_terminal {
        return false;
    }
    match persisted {
        Some(enabled) => enabled,
        None => true,
    }
}

} // verus!
