//! Goal drafts, goal labels, and the names shown for tracked apps.
use vstd::prelude::*;

use crate::manifest::opt_view;
use crate::models::{AppTotal, GoalCandidate, GoalDraft};
use crate::names::{looks_like_exe_path, looks_like_exe_path_spec};
use crate::text::{chars_of, lowercase_chars, same_chars, same_text, string_of, trim_chars, trimmed};
use crate::unicode::lowercase;

verus! {

/// The target value stored for goals on total screen time.
pub const TOTAL_GOAL_TARGET: &'static str = "__total__";

/// A threshold kept only when positive.
pub open spec fn positive_threshold(t: Option<i64>) -> Option<i64> {
    match t {
        Some(v) => if v > 0 {
            Some(v)
        } else {
            None
        },
        None => None,
    }
}

fn keep_positive(t: Option<i64>) -> (r: Option<i64>)
    ensures
        r == positive_threshold(t),
{
    match t {
        Some(v) => if v > 0 {
            Some(v)
        } else {
            None
        },
        None => None,
    }
}

/// What checking a goal draft with kind `kind`, target `value` and thresholds
/// `warn` and `annoy` gives: the kind is trimmed and lowercased and must be
/// `app` or `total`; non-positive thresholds are dropped and at least one must
/// remain; a total goal targets `TOTAL_GOAL_TARGET`, and an app goal must name
/// an app (its target is trimmed). `Ok` holds the normalised kind, target and
/// thresholds, `Err` the message shown.
pub open spec fn draft_check(kind: Seq<char>, value: Seq<char>, warn: Option<i64>, annoy: Option<i64>) -> Result<
    (Seq<char>, Seq<char>, Option<i64>, Option<i64>),
    Seq<char>,
> {
    let k = lowercase(trimmed(kind));
    let w = positive_threshold(warn);
    let a = positive_threshold(annoy);
    if k != "app"@ && k != "total"@ {
        Err("Goal type must be app or total"@)
    } else if w is None && a is None {
        Err("Set at least one threshold"@)
    } else if k == "total"@ {
        Ok((k, "__total__"@, w, a))
    } else if trimmed(value).len() == 0 {
        Err("Choose an app for this goal"@)
    } else {
        Ok((k, trimmed(value), w, a))
    }
}

/// Checking a goal draft that was already checked changes nothing: the
/// normalised draft passes again, unchanged.
pub proof fn lemma_draft_check_idempotent(kind: Seq<char>, value: Seq<char>, warn: Option<i64>, annoy: Option<i64>)
    requires
        draft_check(kind, value, warn, annoy) is Ok,
    ensures
        ({
            let g = draft_check(kind, value, warn, annoy)->Ok_0;
            draft_check(g.0, g.1, g.2, g.3) == Ok::<(Seq<char>, Seq<char>, Option<i64>, Option<i64>), Seq<char>>(g)
        }),
{
    reveal_strlit("app");
    reveal_strlit("total");
    crate::text::lemma_plain_word("app"@);
    crate::text::lemma_plain_word("total"@);
    crate::text::lemma_trimmed_idempotent(value);
}

/// Checks and normalises a goal draft (see `draft_check`); the id is kept.
pub fn normalize_goal_draft(draft: GoalDraft) -> (r: Result<GoalDraft, String>)
    ensures
        match r {
            Ok(g) => g.id == draft.id && draft_check(
                draft.target_kind@,
                draft.target_value@,
                draft.warn_seconds,
                draft.annoy_seconds,
            ) == Ok::<(Seq<char>, Seq<char>, Option<i64>, Option<i64>), Seq<char>>(
                (g.target_kind@, g.target_value@, g.warn_seconds, g.annoy_seconds),
            ),
            Err(e) => draft_check(draft.target_kind@, draft.target_value@, draft.warn_seconds, draft.annoy_seconds)
                == Err::<(Seq<char>, Seq<char>, Option<i64>, Option<i64>), Seq<char>>(e@),
        },
{
    let kind_chars = chars_of(draft.target_kind.as_str());
    let kind_trimmed = trim_chars(&kind_chars);
    let kind = lowercase_chars(&kind_trimmed);
    let value_chars = chars_of(draft.target_value.as_str());
    let value = trim_chars(&value_chars);
    let warn = keep_positive(draft.warn_seconds);
    let annoy = keep_positive(draft.annoy_seconds);
    let is_app = same_chars(&kind, &chars_of("app"));
    let is_total = same_chars(&kind, &chars_of("total"));
    if !is_app && !is_total {
        return Err(String::from_str("Goal type must be app or total"));
    }
    if warn.is_none() && annoy.is_none() {
        return Err(String::from_str("Set at least one threshold"));
    }
    let target_value = if is_total {
        String::from_str("__total__")
    } else if value.len() == 0 {
        return Err(String::from_str("Choose an app for this goal"));
    } else {
        string_of(&value)
    };
    Ok(GoalDraft {
        id: draft.id,
        target_kind: string_of(&kind),
        target_value,
        warn_seconds: warn,
        annoy_seconds: annoy,
    })
}

/// Whether a goal is on total screen time: its kind is `total` or it targets
/// `TOTAL_GOAL_TARGET`.
pub open spec fn is_total_goal(target_kind: Seq<char>, target_value: Seq<char>) -> bool {
    target_kind == "total"@ || target_value == "__total__"@
}

/// The label shown for a goal: "Total screen time" for a total goal; for a
/// goal on an executable path, the name resolution gave for that path
/// (`resolved_name`, asked for when `looks_like_exe_path` holds of the
/// target); otherwise the target value itself.
pub fn present_goal_label(target_kind: &str, target_value: &str, resolved_name: Option<String>) -> (r: String)
    ensures
        is_total_goal(target_kind@, target_value@) ==> r@ == "Total screen time"@,
        !is_total_goal(target_kind@, target_value@) && looks_like_exe_path_spec(target_value@)
            && resolved_name is Some ==> r@ == opt_view(resolved_name)->0,
        !is_total_goal(target_kind@, target_value@) && !(looks_like_exe_path_spec(target_value@)
            && resolved_name is Some) ==> r@ == target_value@,
{
    if same_text(target_kind, "total") || same_text(target_value, "__total__") {
        return String::from_str("Total screen time");
    }
    if looks_like_exe_path(target_value) {
        if let Some(name) = resolved_name {
            return name;
        }
    }
    String::from_str(target_value)
}

/// Whether an app total's name is resolved before it is shown: its identity
/// is an executable path, or `idle` or `unknown`.
pub open spec fn app_total_needs_name_spec(identity: Seq<char>) -> bool {
    looks_like_exe_path_spec(identity) || identity == "idle"@ || identity == "unknown"@
}

/// Whether an app total's name is resolved before it is shown.
pub fn app_total_needs_name(app: &AppTotal) -> (r: bool)
    ensures
        r == app_total_needs_name_spec(app.app_identity@),
{
    looks_like_exe_path(app.app_identity.as_str()) || same_text(app.app_identity.as_str(), "idle")
        || same_text(app.app_identity.as_str(), "unknown")
}

/// An app total ready to show: when its name is resolved before it is shown
/// and a resolved name is given, that name replaces the stored one.
pub fn present_app_total(app: AppTotal, resolved_name: Option<String>) -> (r: AppTotal)
    ensures
        r.app_identity@ == app.app_identity@,
        r.total == app.total,
        app_total_needs_name_spec(app.app_identity@) && resolved_name is Some ==> r.app_name@
            == opt_view(resolved_name)->0,
        !(app_total_needs_name_spec(app.app_identity@) && resolved_name is Some) ==> r.app_name@
            == app.app_name@,
{
    let mut app = app;
    if app_total_needs_name(&app) {
        if let Some(name) = resolved_name {
            app.app_name = name;
        }
    }
    app
}

/// A goal candidate ready to show: when its identity is an executable path
/// and a resolved name is given, that name replaces the stored one.
pub fn present_goal_candidate(candidate: GoalCandidate, resolved_name: Option<String>) -> (r: GoalCandidate)
    ensures
        r.app_identity@ == candidate.app_identity@,
        r.total_seconds == candidate.total_seconds,
        looks_like_exe_path_spec(candidate.app_identity@) && resolved_name is Some ==> r.app_name@
            == opt_view(resolved_name)->0,
        !(looks_like_exe_path_spec(candidate.app_identity@) && resolved_name is Some) ==> r.app_name@
            == candidate.app_name@,
{
    let mut candidate = candidate;
    if looks_like_exe_path(candidate.app_identity.as_str()) {
        if let Some(name) = resolved_name {
            candidate.app_name = name;
        }
    }
    candidate
}

} // verus!
