//! Deciding whether the console can show Nerd Font glyphs.
//!
//! The environment answers the first two questions (WezTerm bundles the
//! glyphs; a ConPTY terminal renders with its own font).  Otherwise the
//! console font is probed for the canary glyph, and as a last resort the
//! installed fonts are enumerated.

use vstd::prelude::*;
use crate::command_line::CommandLine;
use crate::config::Config;
use crate::ehm::AppError;
use crate::environment_provider::EnvironmentProvider;
use crate::icon_mapping::NF_CUSTOM_FOLDER;
use crate::text::{chars_of, eq_ic, eq_ic_str};

verus! {

/// How icons were requested.
#[derive(Debug, Clone, Copy, PartialEq, Eq, Structural)]
pub enum IconActivation {
    Auto,
    ForceOn,
    ForceOff,
}

/// Outcome of Nerd Font detection.
#[derive(Debug, Clone, Copy, PartialEq, Eq, Structural)]
pub enum DetectionResult {
    Detected,
    NotDetected,
    Inconclusive,
}

/// Font queries that detection needs; the implementation talks to the
/// console and the font system.
pub trait FontProber {
    /// `r` is an answer the console-font probe can give for `canary`; an
    /// implementation that says nothing more allows every answer.
    open spec fn canary_answer(&self, canary: char, r: Result<bool, AppError>) -> bool {
        true
    }

    /// `r` is an answer the font enumeration can give; an implementation
    /// that says nothing more allows every answer.
    open spec fn installed_answer(&self, r: Result<bool, AppError>) -> bool {
        true
    }

    /// Whether the current console font has a glyph for `canary`.
    fn probe_console_font_for_glyph(&self, canary: char) -> (r: Result<bool, AppError>)
        ensures
            self.canary_answer(canary, r),
    ;

    /// Whether any installed font is a Nerd Font.
    fn is_nerd_font_installed(&self) -> (r: Result<bool, AppError>)
        ensures
            self.installed_answer(r),
    ;
}

/// Variables whose presence (with a value) marks a ConPTY-based terminal.
pub const CONPTY_ENV_VARS: [&'static str; 4] = [
    "WT_SESSION",
    "TERM_PROGRAM",
    "ConEmuPID",
    "ALACRITTY_WINDOW_ID",
];

/// TERM_PROGRAM names WezTerm, ignoring ASCII case.
pub open spec fn wezterm_spec<P: EnvironmentProvider>(env: &P) -> bool {
    env.env_var("TERM_PROGRAM"@) matches Some(v) && eq_ic(v, "WezTerm"@)
}

/// A variable's value is present and not empty.
pub open spec fn non_empty(v: Option<Seq<char>>) -> bool {
    v matches Some(s) && s.len() > 0
}

/// One of the ConPTY variables is set to a non-empty value.
pub open spec fn conpty_spec<P: EnvironmentProvider>(env: &P) -> bool {
    exists|k: int| 0 <= k < 4 && non_empty(#[trigger] env.env_var(CONPTY_ENV_VARS@[k]@))
}

/// The detection outcome that a probe result gives.
pub open spec fn outcome_of(r: Result<bool, AppError>) -> DetectionResult {
    match r {
        Ok(true) => DetectionResult::Detected,
        Ok(false) => DetectionResult::NotDetected,
        Err(_) => DetectionResult::Inconclusive,
    }
}

/// Whether the terminal is WezTerm.
pub fn is_wezterm<P: EnvironmentProvider>(env: &P) -> (r: bool)
    ensures
        r == wezterm_spec(env),
{
    match env.get_env_var("TERM_PROGRAM") {
        Some(v) => {
            let c = chars_of(v.as_str());
            assert(c@.subrange(0, c@.len() as int) =~= c@);
            eq_ic_str(&c, 0, c.len(), "WezTerm")
        },
        None => false,
    }
}

/// Whether the terminal is a ConPTY-based one.
pub fn is_conpty_terminal<P: EnvironmentProvider>(env: &P) -> (r: bool)
    ensures
        r == conpty_spec(env),
{
    let mut k: usize = 0;
    while k < 4
        invariant
            k <= 4,
            forall|j: int| 0 <= j < k ==> !non_empty(#[trigger] env.env_var(CONPTY_ENV_VARS@[j]@)),
        decreases 4 - k,
    {
        match env.get_env_var(CONPTY_ENV_VARS[k]) {
            Some(v) => {
                if !v.as_str().is_empty() {
                    return true;
                }
            },
            None => {},
        }
        k = k + 1;
    }
    false
}

/// The detection outcome of a probe result: a yes or no is final, a
/// failure is inconclusive.
pub fn detection_outcome(r: &Result<bool, AppError>) -> (d: DetectionResult)
    ensures
        d == outcome_of(*r),
{
    match r {
        Ok(true) => DetectionResult::Detected,
        Ok(false) => DetectionResult::NotDetected,
        Err(_) => DetectionResult::Inconclusive,
    }
}

/// The detection outcome from what was found: WezTerm is always detected;
/// in a ConPTY terminal the font enumeration `installed` decides; in the
/// classic console the canary probe decides, and where it failed the
/// enumeration does.
pub open spec fn decision(
    wezterm: bool,
    conpty: bool,
    canary: Result<bool, AppError>,
    installed: Result<bool, AppError>,
) -> DetectionResult {
    if wezterm {
        DetectionResult::Detected
    } else if conpty {
        outcome_of(installed)
    } else {
        match canary {
            Ok(b) => outcome_of(Ok(b)),
            Err(_) => outcome_of(installed),
        }
    }
}

/// The detection outcome from what was found about the terminal and the
/// fonts.
pub fn decide_detection(
    wezterm: bool,
    conpty: bool,
    canary: &Result<bool, AppError>,
    installed: &Result<bool, AppError>,
) -> (r: DetectionResult)
    ensures
        r == decision(wezterm, conpty, *canary, *installed),
{
    if wezterm {
        DetectionResult::Detected
    } else if conpty {
        detection_outcome(installed)
    } else {
        match canary {
            Ok(b) => detection_outcome(&Ok(*b)),
            Err(_) => detection_outcome(installed),
        }
    }
}

/// What detection gives for the terminal that `env` describes, asking
/// `prober`: in WezTerm, Detected without a question; in a ConPTY terminal,
/// the outcome of the font enumeration; in the classic console, the outcome
/// of probing the console font for the folder glyph, and where that probe
/// fails, the outcome of the font enumeration.
pub open spec fn detected_by<P: EnvironmentProvider, F: FontProber>(env: &P, prober: &F, r: DetectionResult) -> bool {
    if wezterm_spec(env) {
        r == DetectionResult::Detected
    } else if conpty_spec(env) {
        exists|i: Result<bool, AppError>| prober.installed_answer(i) && r == outcome_of(i)
    } else {
        exists|c: Result<bool, AppError>|
            prober.canary_answer(NF_CUSTOM_FOLDER, c) && (c is Ok ==> r == outcome_of(c)) && (c is Err ==> exists|
                i: Result<bool, AppError>,
            | prober.installed_answer(i) && r == outcome_of(i))
    }
}

/// Detects whether Nerd Font glyphs can be shown, asking `prober` only
/// what the decision needs (see `detected_by`).
pub fn detect<P: EnvironmentProvider, F: FontProber>(env: &P, prober: &F) -> (r: DetectionResult)
    ensures
        detected_by(env, prober, r),
{
    if is_wezterm(env) {
        return DetectionResult::Detected;
    }
    if is_conpty_terminal(env) {
        let installed = prober.is_nerd_font_installed();
        let r = decide_detection(false, true, &Ok(false), &installed);
        assert(prober.installed_answer(installed) && r == outcome_of(installed));
        return r;
    }
    let canary = prober.probe_console_font_for_glyph(NF_CUSTOM_FOLDER);
    let ghost c0 = canary;
    match canary {
        Ok(found) => {
            let r = decide_detection(false, false, &Ok(found), &Ok(false));
            assert(prober.canary_answer(NF_CUSTOM_FOLDER, c0) && r == outcome_of(c0));
            r
        },
        Err(e) => {
            let installed = prober.is_nerd_font_installed();
            let c: Result<bool, AppError> = Err(e);
            let r = decide_detection(false, false, &c, &installed);
            assert(prober.installed_answer(installed) && r == outcome_of(installed));
            assert(prober.canary_answer(NF_CUSTOM_FOLDER, c0) && c0 is Err);
            r
        },
    }
}

/// Whether icons are shown: the command line decides, then the
/// configuration, then Nerd Font detection, which needs a console
/// (`prober` is `None` without one, and icons are then off).
pub fn resolve_icons<P: EnvironmentProvider, F: FontProber>(
    cmd: &CommandLine,
    cfg: &Config,
    env: &P,
    prober: Option<&F>,
) -> (r: bool)
    ensures
        cmd.icons matches Some(b) ==> r == b,
        cmd.icons is None ==> (cfg.icons matches Some(b) ==> r == b),
        cmd.icons is None && cfg.icons is None && prober is None ==> !r,
        cmd.icons is None && cfg.icons is None && prober is Some && wezterm_spec(env) ==> r,
        cmd.icons is None && cfg.icons is None ==> (prober matches Some(p) ==> exists|d: DetectionResult|
            detected_by(env, p, d) && r == (d == DetectionResult::Detected)),
{
    match cmd.icons {
        Some(b) => {
            return b;
        },
        None => {},
    }
    match cfg.icons {
        Some(b) => {
            return b;
        },
        None => {},
    }
    match prober {
        Some(p) => {
            let d = detect(env, p);
            let r = match d {
                DetectionResult::Detected => true,
                _ => false,
            };
            assert(detected_by(env, p, d) && r == (d == DetectionResult::Detected));
            r
        },
        None => false,
    }
}

} // verus!
