//! What the desktop says about its accent color.
//!
//! The desktop announces every change of a setting. Only the accent color
//! matters here; an announcement of it either carries the new color or, when
//! its payload could not be read, is a hint to look the color up.

use crate::app::ControlMsg;
use crate::color::Color;
use crate::text::same_text;
use vstd::prelude::*;

verus! {

/// A change of the accent color, as announced by the desktop.
#[derive(Clone, Copy, Debug, PartialEq, Eq, Structural)]
pub enum ChangeEvent {
    /// The announcement carried the new color.
    ExactColor(Color),
    /// The announcement carried nothing usable: the color is to be looked
    /// up.
    ReReadHint,
}

/// The group of settings that holds the accent color.
pub open spec fn appearance_namespace() -> Seq<char> {
    "org.freedesktop.appearance"@
}

/// The name of the accent color among the settings of its group.
pub open spec fn accent_key() -> Seq<char> {
    "accent-color"@
}

/// What an announcement means: nothing unless it is about the accent color,
/// else the color it carries, or the hint to look it up.
pub open spec fn change_announced(
    namespace: Seq<char>,
    key: Seq<char>,
    payload: Option<Color>,
) -> Option<ChangeEvent> {
    if namespace == appearance_namespace() && key == accent_key() {
        match payload {
            Some(color) => Some(ChangeEvent::ExactColor(color)),
            None => Some(ChangeEvent::ReReadHint),
        }
    } else {
        None
    }
}

/// The request that a change puts to the engine.
pub open spec fn request_for(event: ChangeEvent) -> ControlMsg {
    match event {
        ChangeEvent::ExactColor(color) => ControlMsg::UpdateColor(color),
        ChangeEvent::ReReadHint => ControlMsg::TriggerSync,
    }
}

/// Sorts an announcement of a changed setting. `payload` is the color that
/// the announcement carries, if one could be read from it.
pub fn classify_change(namespace: &str, key: &str, payload: Option<Color>) -> (event: Option<
    ChangeEvent,
>)
    ensures
        event == change_announced(namespace@, key@, payload),
{
    if same_text(namespace, "org.freedesktop.appearance") && same_text(key, "accent-color") {
        match payload {
            Some(color) => Some(ChangeEvent::ExactColor(color)),
            None => Some(ChangeEvent::ReReadHint),
        }
    } else {
        None
    }
}

impl ChangeEvent {
    /// The request that the change puts to the engine: to apply the color
    /// it carries, or to look the color up.
    pub fn into_message(self) -> (msg: ControlMsg)
        ensures
            msg == request_for(self),
    {
        match self {
            ChangeEvent::ExactColor(color) => ControlMsg::UpdateColor(color),
            ChangeEvent::ReReadHint => ControlMsg::TriggerSync,
        }
    }
}

} // verus!
