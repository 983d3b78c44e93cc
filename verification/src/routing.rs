//! The way that a message takes.

use crate::delivery::{reminder_of, reminder_text};
use crate::messages::{InboundMessage, InboundView};
use crate::skills::{
    asked_kind, flag, resolve_skill_script_kind_from_metadata, ResolvedSkillScriptKind,
    SkillScriptKind,
};
use vstd::prelude::*;

verus! {

/// How a message is worked on.
pub enum Route {
    /// A script of a skill answers.
    Script { skill_name: String, kind: SkillScriptKind },
    /// The text of a reminder is passed on.
    Reminder(String),
    /// A model answers.
    Model,
}

pub enum RouteView {
    Script { skill_name: Seq<char>, kind: SkillScriptKind },
    Reminder(Seq<char>),
    Model,
}

impl View for Route {
    type V = RouteView;

    open spec fn view(&self) -> RouteView {
        match self {
            Route::Script { skill_name, kind } => RouteView::Script {
                skill_name: skill_name@,
                kind: *kind,
            },
            Route::Reminder(text) => RouteView::Reminder(text@),
            Route::Model => RouteView::Model,
        }
    }
}

/// A message that asks for a script is answered by it, a reminder is passed on, and any other
/// message is answered by a model. `inferred` is the kind of script that was found for the skill.
pub open spec fn route(msg: InboundView, inferred: Option<ResolvedSkillScriptKind>) -> RouteView {
    match asked_kind(msg.metadata, inferred) {
        Some(kind) => RouteView::Script {
            skill_name: msg.metadata.str_or("skill_name"@, "unknown"@),
            kind,
        },
        None => if flag(msg.metadata, "reminder"@) {
            RouteView::Reminder(reminder_text(msg))
        } else {
            RouteView::Model
        },
    }
}

pub fn route_message(msg: &InboundMessage, inferred: Option<ResolvedSkillScriptKind>) -> (r: Route)
    ensures
        r@ == route(msg@, inferred),
{
    match resolve_skill_script_kind_from_metadata(&msg.metadata, inferred) {
        Some(kind) => Route::Script {
            skill_name: match msg.metadata.str_at("skill_name") {
                Some(name) => name.to_owned(),
                None => "unknown".to_owned(),
            },
            kind,
        },
        None => match reminder_of(msg) {
            Some(text) => Route::Reminder(text),
            None => Route::Model,
        },
    }
}

} // verus!
