//! The names of the files that the application keeps in its directory.

use vstd::prelude::*;

use crate::numbers::{padded, padded_text, signed_padded, signed_padded_text};
use crate::text::{append, joined};

verus! {

pub const APP_CONFIG_FILE: &'static str = "conf.json";

pub const APP_GUIDES_DIR: &'static str = "guides";

pub const APP_RECENT_GUIDES_FILE: &'static str = "recent_guides.json";

pub const APP_FIRST_TIME_START_FILE: &'static str = "first_time_start.json";

pub const APP_VIEWED_NOTIFICATIONS_FILE: &'static str = "viewed_notifications.json";

pub const APP_AUTH_FILE: &'static str = "auth.json";

/// A moment of the local time.
#[derive(Debug, Clone, Copy, PartialEq, Eq, Structural)]
pub struct Moment {
    pub year: i32,
    pub month: u32,
    pub day: u32,
    pub hour: u32,
    pub minute: u32,
    pub second: u32,
}

/// The name of the copy of the configuration that is set aside at the
/// moment `at`: the year in four digits at least, the other parts in two.
pub open spec fn backup_name(at: Moment) -> Seq<char> {
    "conf_"@ + signed_padded(at.year as int, 4) + "_"@ + padded(at.month as nat, 2) + "_"@
        + padded(at.day as nat, 2) + "_"@ + padded(at.hour as nat, 2) + "_"@ + padded(
        at.minute as nat,
        2,
    ) + "_"@ + padded(at.second as nat, 2) + ".json"@
}

pub fn app_conf_backup_file(now: Moment) -> (name: String)
    ensures
        name@ == backup_name(now),
{
    let year = signed_padded_text(now.year as i64, 4);
    let month = padded_text(now.month as u64, 2);
    let day = padded_text(now.day as u64, 2);
    let hour = padded_text(now.hour as u64, 2);
    let minute = padded_text(now.minute as u64, 2);
    let second = padded_text(now.second as u64, 2);
    let mut name = joined("conf_", year.as_str());
    append(&mut name, "_");
    append(&mut name, month.as_str());
    append(&mut name, "_");
    append(&mut name, day.as_str());
    append(&mut name, "_");
    append(&mut name, hour.as_str());
    append(&mut name, "_");
    append(&mut name, minute.as_str());
    append(&mut name, "_");
    append(&mut name, second.as_str());
    append(&mut name, ".json");
    name
}

} // verus!
