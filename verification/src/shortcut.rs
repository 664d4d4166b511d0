//! The global shortcuts: which keys stand for which action.

use vstd::prelude::*;

use crate::conf::Shortcuts;
use crate::text::{append, joined};

verus! {

#[derive(Debug)]
pub enum Error {
    Register(String),
    RegisterPlugin(String),
    ParseShortcut(String),
    GetConf(crate::conf::Error),
    Unregister(String),
}

/// The shortcuts that are in force.
pub struct ShortcutsCache(pub Shortcuts);

/// What a shortcut does.
#[derive(Debug, Clone, Copy, PartialEq, Eq, Structural)]
pub enum ShortcutAction {
    /// The configuration is set aside and replaced by a fresh one.
    ResetConf,
    GoToNextGuideStep,
    GoToPreviousGuideStep,
    CopyCurrentGuideStep,
}

/// The text of the failure of a default that is no shortcut.
pub open spec fn default_failure(default: Seq<char>, why: Seq<char>) -> Seq<char> {
    "failed to parse default '"@ + default + "': "@ + why
}

/// The shortcut for an action: the configured one where it was read as a
/// shortcut, else the default. `value` and `fallback` are what reading the
/// configured keys and the default keys `default` gave.
pub fn parse_shortcut_or_default<T>(
    value: Result<T, String>,
    fallback: Result<T, String>,
    default: &str,
) -> (result: Result<T, Error>)
    ensures
        match value {
            Ok(shortcut) => result == Ok::<T, Error>(shortcut),
            Err(_) => match fallback {
                Ok(shortcut) => result == Ok::<T, Error>(shortcut),
                Err(why) => result matches Err(Error::ParseShortcut(text)) && text@
                    == default_failure(default@, why@),
            },
        },
{
    match value {
        Ok(shortcut) => Ok(shortcut),
        Err(_) => match fallback {
            Ok(shortcut) => Ok(shortcut),
            Err(why) => {
                let mut text = joined("failed to parse default '", default);
                append(&mut text, "': ");
                append(&mut text, why.as_str());
                Err(Error::ParseShortcut(text))
            },
        },
    }
}

/// The action of a pressed shortcut, given which of the four shortcuts it
/// equals: the first of them, in the order reset, next, previous, copy.
pub fn pressed_action(is_reset: bool, is_next: bool, is_previous: bool, is_copy: bool) -> (action:
    Option<ShortcutAction>)
    ensures
        action == if is_reset {
            Some(ShortcutAction::ResetConf)
        } else if is_next {
            Some(ShortcutAction::GoToNextGuideStep)
        } else if is_previous {
            Some(ShortcutAction::GoToPreviousGuideStep)
        } else if is_copy {
            Some(ShortcutAction::CopyCurrentGuideStep)
        } else {
            None
        },
{
    if is_reset {
        Some(ShortcutAction::ResetConf)
    } else if is_next {
        Some(ShortcutAction::GoToNextGuideStep)
    } else if is_previous {
        Some(ShortcutAction::GoToPreviousGuideStep)
    } else if is_copy {
        Some(ShortcutAction::CopyCurrentGuideStep)
    } else {
        None
    }
}

/// What registering the four shortcuts gave in all: the failure of the
/// first shortcut that was not registered, in the order reset, next,
/// previous, copy.
pub fn registration_outcome(
    reset: Result<(), String>,
    next: Result<(), String>,
    previous: Result<(), String>,
    copy: Result<(), String>,
) -> (result: Result<(), Error>)
    ensures
        match result {
            Ok(_) => reset is Ok && next is Ok && previous is Ok && copy is Ok,
            Err(e) => e == Error::Register(
                if reset is Err {
                    reset->Err_0
                } else if next is Err {
                    next->Err_0
                } else if previous is Err {
                    previous->Err_0
                } else {
                    copy->Err_0
                },
            ) && (reset is Err || next is Err || previous is Err || copy is Err),
        },
{
    if let Err(why) = reset {
        return Err(Error::Register(why));
    }
    if let Err(why) = next {
        return Err(Error::Register(why));
    }
    if let Err(why) = previous {
        return Err(Error::Register(why));
    }
    if let Err(why) = copy {
        return Err(Error::Register(why));
    }
    Ok(())
}

} // verus!
