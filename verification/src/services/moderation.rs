//! Moderation cases about subtasks and users: which cases can be opened,
//! how a report becomes a case, when a report may hide a subtask
//! provisionally, and how the state of a case shows on a subtask.
use vstd::prelude::*;

use crate::schemas::subtasks::ReportReason;
use crate::services::subtasks::SubtaskModel;
use crate::text::{decimal, text_eq, u64_to_string};

verus! {

/// What a moderation case is about.
#[derive(PartialEq, Eq, Structural, Clone, Copy, Debug)]
pub enum CaseKind {
    /// A subtask.
    Subtask,
    /// A user, for what they created or reported.
    User,
}

/// The kind of case that a target kind opens: `subtask` a case about a
/// subtask, `create` and `report` a case about a user, anything else none.
pub open spec fn case_kind_of(kind: Seq<char>) -> Option<CaseKind> {
    if kind == "subtask"@ {
        Some(CaseKind::Subtask)
    } else if kind == "create"@ || kind == "report"@ {
        Some(CaseKind::User)
    } else {
        None
    }
}

/// Whether a case may be opened from this source.
pub open spec fn case_source_ok(source: Seq<char>) -> bool {
    source == "own_review"@ || source == "email_notice"@ || source == "authority_order"@
}

/// The kind of a case that an administrator opens, where the request is
/// complete: a known source, private evidence that is an object, and a known
/// target kind.
pub fn case_to_open(kind: &str, source: &str, evidence_is_object: bool) -> (case: Option<CaseKind>)
    ensures
        case == if case_source_ok(source@) && evidence_is_object {
            case_kind_of(kind@)
        } else {
            None::<CaseKind>
        },
{
    let source_ok = text_eq(source, "own_review") || text_eq(source, "email_notice") || text_eq(
        source,
        "authority_order",
    );
    if !source_ok || !evidence_is_object {
        return None;
    }
    if text_eq(kind, "subtask") {
        Some(CaseKind::Subtask)
    } else if text_eq(kind, "create") || text_eq(kind, "report") {
        Some(CaseKind::User)
    } else {
        None
    }
}

/// The source of the case a report opens: a dislike comes from the rating
/// threshold, every other reason from a user's report.
pub fn report_source(reason: ReportReason) -> (source: &'static str)
    ensures
        source@ == if reason == ReportReason::Dislike {
            "rating_threshold"@
        } else {
            "user_report"@
        },
{
    match reason {
        ReportReason::Dislike => "rating_threshold",
        _ => "user_report",
    }
}

/// Whether a report goes to urgent triage: reports of abuse do.
pub fn urgent_triage(reason: ReportReason) -> (urgent: bool)
    ensures
        urgent == (reason == ReportReason::Abuse),
{
    match reason {
        ReportReason::Abuse => true,
        _ => false,
    }
}

/// The name of a reason as the case records it.
pub fn reason_name(reason: ReportReason) -> (name: &'static str)
    ensures
        name@ == match reason {
            ReportReason::Wrong => "Wrong"@,
            ReportReason::Abuse => "Abuse"@,
            ReportReason::UnrelatedSkill => "UnrelatedSkill"@,
            ReportReason::Dislike => "Dislike"@,
        },
{
    match reason {
        ReportReason::Wrong => "Wrong",
        ReportReason::Abuse => "Abuse",
        ReportReason::UnrelatedSkill => "UnrelatedSkill",
        ReportReason::Dislike => "Dislike",
    }
}

/// The rationale of the provisional hiding of a reported subtask; a report of
/// abuse has none, since a free-text allegation cannot be turned into a
/// finding automatically.
pub open spec fn rationale_of(reason: ReportReason, negative: u64, positive: u64) -> Option<Seq<char>> {
    match reason {
        ReportReason::Wrong => Some(
            "Die Aufgabe oder ihre Lösung wurde als fachlich falsch gemeldet. Das ist noch keine abschließende Bewertung."@,
        ),
        ReportReason::UnrelatedSkill => Some(
            "Die Aufgabe wurde gemeldet, weil sie nicht zur zugeordneten Fähigkeit passen soll. Das ist noch keine abschließende Bewertung."@,
        ),
        ReportReason::Dislike => Some(
            "Die Aufgabe hat "@ + decimal(negative as nat) + " negative und "@ + decimal(positive as nat)
                + " positive Bewertungen. Damit ist die Grenze für eine automatische Qualitätsprüfung erreicht: mindestens 10 negative und mehr negative als positive Bewertungen."@,
        ),
        ReportReason::Abuse => None,
    }
}

/// The rationale with which a report hides its subtask provisionally, where
/// it does: only where the rule basis of automatic quality checks is
/// confirmed, and never for a report of abuse.
pub fn provisional_rationale(reason: ReportReason, negative: u64, positive: u64, basis_confirmed: bool) -> (rationale: Option<String>)
    ensures
        match rationale {
            Some(r) => basis_confirmed && rationale_of(reason, negative, positive) == Some(r@),
            None => !basis_confirmed || rationale_of(reason, negative, positive) is None,
        },
{
    if !basis_confirmed {
        return None;
    }
    match reason {
        ReportReason::Wrong => Some(
            String::from_str(
                "Die Aufgabe oder ihre Lösung wurde als fachlich falsch gemeldet. Das ist noch keine abschließende Bewertung.",
            ),
        ),
        ReportReason::UnrelatedSkill => Some(
            String::from_str(
                "Die Aufgabe wurde gemeldet, weil sie nicht zur zugeordneten Fähigkeit passen soll. Das ist noch keine abschließende Bewertung.",
            ),
        ),
        ReportReason::Dislike => {
            let mut text = String::from_str("Die Aufgabe hat ");
            let n = u64_to_string(negative);
            text.append(n.as_str());
            text.append(" negative und ");
            let p = u64_to_string(positive);
            text.append(p.as_str());
            text.append(
                " positive Bewertungen. Damit ist die Grenze für eine automatische Qualitätsprüfung erreicht: mindestens 10 negative und mehr negative als positive Bewertungen.",
            );
            Some(text)
        },
        ReportReason::Abuse => None,
    }
}

/// A report of abuse never hides a subtask automatically, whatever the
/// counts and the basis.
pub proof fn lemma_abuse_is_never_automatic(negative: u64, positive: u64)
    ensures
        rationale_of(ReportReason::Abuse, negative, positive) is None,
{
}

/// The visibility measures in force on a subtask under moderation.
#[derive(PartialEq, Eq, Structural, Clone, Copy, Debug)]
pub struct ModerationState {
    pub enabled: bool,
    pub retired: bool,
    pub removed: bool,
}

/// A subtask as moderation leaves it: where a case has a state for it, its
/// visibility flags are those of the state; everything else stays.
pub fn effective_subtask(row: SubtaskModel, state: Option<ModerationState>) -> (effective: SubtaskModel)
    ensures
        effective == match state {
            Some(s) => SubtaskModel { enabled: s.enabled, retired: s.retired, moderation_removed: s.removed, ..row },
            None => row,
        },
{
    match state {
        Some(s) => SubtaskModel { enabled: s.enabled, retired: s.retired, moderation_removed: s.removed, ..row },
        None => row,
    }
}

} // verus!
