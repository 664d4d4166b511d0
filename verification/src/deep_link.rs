//! Links that open the application: which request a link makes, and at
//! which step a guide is opened.

use vstd::prelude::*;

use crate::conf::{
    find_profile, find_progress, profile_position, progress_position, Conf, ConfView,
    Error as ConfError,
};
use crate::numbers::{parse_u32, text_u32};
use crate::text::joined;

verus! {

#[derive(Debug)]
pub enum Error {
    Conf(ConfError),
    ParseUrl(String),
    InvalidGuideId(String),
}

/// The step at which a guide is to be opened, with the step that the
/// profile in use has reached in it, if it has a record of the guide.
#[derive(Debug, Clone, Copy, PartialEq, Eq, Structural)]
pub struct OpenGuideStep {
    pub step: u32,
    pub progression_step: Option<u32>,
}

impl Default for OpenGuideStep {
    fn default() -> (step: Self)
        ensures
            step == (OpenGuideStep { step: 0, progression_step: None }),
    {
        OpenGuideStep { step: 0, progression_step: None }
    }
}

/// What a link asks for.
#[derive(Debug)]
pub enum DeepLinkRequest {
    /// The log-in came back with a code for the attempt `state_id`.
    OAuthCallback { code: String, state_id: String },
    /// A guide is to be opened, at the step `step` where the link names one.
    OpenGuide { guide_id: u32, step: Option<String> },
}

/// The pattern of a link that opens a guide.
pub const GUIDE_OPEN_PATTERN: &'static str = r"ganymede://guides/open/(\d+)(?:\?step=(\d+))?";

/// The pattern of a link with which the log-in comes back.
pub const OAUTH_CALLBACK_PATTERN: &'static str =
    r"ganymede://oauth/callback\?code=([^&]+)&state=([^&]+)";

pub open spec fn groups_view(groups: Seq<Option<String>>) -> Seq<Option<Seq<char>>> {
    groups.map_values(|group: Option<String>| crate::conf::text_view(group))
}

pub open spec fn search_view(found: Result<Option<Vec<Option<String>>>, String>) -> Result<
    Option<Seq<Option<Seq<char>>>>,
    Seq<char>,
> {
    match found {
        Ok(Some(groups)) => Ok(Some(groups_view(groups@))),
        Ok(None) => Ok(None),
        Err(why) => Err(why@),
    }
}

/// What the `regex` crate finds of `pattern` in `text`: why the pattern is
/// refused; else nothing where the text holds no match; else the groups of
/// the leftmost match, the whole match first, each with its text where it
/// took part in the match.
pub uninterp spec fn regex_search(pattern: Seq<char>, text: Seq<char>) -> Result<
    Option<Seq<Option<Seq<char>>>>,
    Seq<char>,
>;

/// Compiles `pattern` with `regex::Regex::new` and searches `text` with
/// `Regex::captures`. A pattern that does not compile gives the error's
/// text. A match gives what `Captures::iter` yields: every group in order,
/// as text where it took part in the match. The contract names the result:
/// the same pattern and text give the same result.
#[verifier::external_body]
pub(crate) fn search(pattern: &str, text: &str) -> (found: Result<
    Option<Vec<Option<String>>>,
    String,
>)
    ensures
        search_view(found) == regex_search(pattern@, text@),
{
    match regex::Regex::new(pattern) {
        Ok(regex) => Ok(
            regex.captures(text).map(
                |groups|
                    groups.iter().map(|group| group.map(|m| m.as_str().to_string())).collect(),
            ),
        ),
        Err(error) => Err(error.to_string()),
    }
}

/// The text of the group `index`; none where the match has no such group
/// or the group took no part in it.
pub open spec fn group(groups: Seq<Option<Seq<char>>>, index: int) -> Option<Seq<char>> {
    if 0 <= index < groups.len() {
        groups[index]
    } else {
        None
    }
}

fn group_at(groups: &Vec<Option<String>>, index: usize) -> (text: Option<String>)
    ensures
        crate::conf::text_view(text) == group(groups_view(groups@), index as int),
{
    if index < groups.len() {
        groups[index].clone()
    } else {
        None
    }
}

// ---------------------------------------------------------------------------
// Which request a link makes
// ---------------------------------------------------------------------------

/// Whether `result` is what a link makes of which the two patterns find
/// `guide` and `oauth`, `url` being the link. The log-in's pattern goes
/// first: its groups are the code and the attempt's id. The guide's groups
/// are the guide's id and, where the link names one, the step.
pub open spec fn is_request_of(
    result: Result<DeepLinkRequest, Error>,
    url: Seq<char>,
    guide: Result<Option<Seq<Option<Seq<char>>>>, Seq<char>>,
    oauth: Result<Option<Seq<Option<Seq<char>>>>, Seq<char>>,
) -> bool {
    match guide {
        Err(why) => result matches Err(Error::ParseUrl(text)) && text@ == why,
        Ok(guide) => match oauth {
            Err(why) => result matches Err(Error::ParseUrl(text)) && text@ == why,
            Ok(Some(found)) => match (group(found, 1), group(found, 2)) {
                (None, _) => result matches Err(Error::ParseUrl(text)) && text@
                    == "Missing OAuth code"@,
                (Some(_), None) => result matches Err(Error::ParseUrl(text)) && text@
                    == "Missing OAuth state"@,
                (Some(code), Some(state)) => result matches Ok(
                    DeepLinkRequest::OAuthCallback { code: c, state_id: s },
                ) && c@ == code && s@ == state,
            },
            Ok(None) => match guide {
                None => result matches Err(Error::ParseUrl(text)) && text@
                    == "URL does not match expected pattern: "@ + url,
                Some(found) => match group(found, 1) {
                    None => result matches Err(Error::ParseUrl(text)) && text@
                        == "Missing guide ID"@,
                    Some(id) => match text_u32(id) {
                        None => result matches Err(Error::InvalidGuideId(text)) && text@ == id,
                        Some(number) => result matches Ok(
                            DeepLinkRequest::OpenGuide { guide_id, step },
                        ) && guide_id == number && crate::conf::text_view(step) == group(
                            found,
                            2,
                        ),
                    },
                },
            },
        },
    }
}

/// Makes the request of a link from what the two patterns found in it. The
/// log-in's pattern goes first; a link that neither pattern finds is
/// refused.
pub fn request_from(
    url: &str,
    guide: Result<Option<Vec<Option<String>>>, String>,
    oauth: Result<Option<Vec<Option<String>>>, String>,
) -> (result: Result<DeepLinkRequest, Error>)
    ensures
        is_request_of(result, url@, search_view(guide), search_view(oauth)),
{
    let guide = match guide {
        Ok(guide) => guide,
        Err(why) => {
            return Err(Error::ParseUrl(why));
        },
    };
    let oauth = match oauth {
        Ok(oauth) => oauth,
        Err(why) => {
            return Err(Error::ParseUrl(why));
        },
    };
    if let Some(found) = oauth {
        let code = match group_at(&found, 1) {
            Some(code) => code,
            None => {
                return Err(Error::ParseUrl("Missing OAuth code".to_string()));
            },
        };
        let state_id = match group_at(&found, 2) {
            Some(state_id) => state_id,
            None => {
                return Err(Error::ParseUrl("Missing OAuth state".to_string()));
            },
        };
        return Ok(DeepLinkRequest::OAuthCallback { code, state_id });
    }
    match guide {
        Some(found) => {
            let guide_id_str = match group_at(&found, 1) {
                Some(id) => id,
                None => {
                    return Err(Error::ParseUrl("Missing guide ID".to_string()));
                },
            };
            match parse_u32(guide_id_str.as_str()) {
                Some(guide_id) => Ok(
                    DeepLinkRequest::OpenGuide { guide_id, step: group_at(&found, 2) },
                ),
                None => Err(Error::InvalidGuideId(guide_id_str)),
            }
        },
        None => Err(Error::ParseUrl(joined("URL does not match expected pattern: ", url))),
    }
}

/// The request that the link `url` makes.
pub fn handle_deep_link_url(url: &str) -> (result: Result<DeepLinkRequest, Error>)
    ensures
        is_request_of(
            result,
            url@,
            regex_search(GUIDE_OPEN_PATTERN@, url@),
            regex_search(OAUTH_CALLBACK_PATTERN@, url@),
        ),
{
    let guide = search(GUIDE_OPEN_PATTERN, url);
    let oauth = search(OAUTH_CALLBACK_PATTERN, url);
    request_from(url, guide, oauth)
}

// ---------------------------------------------------------------------------
// At which step a guide opens
// ---------------------------------------------------------------------------

/// The step that the profile in use has reached in the guide `guide_id`;
/// none where it has no record of the guide.
pub open spec fn current_step_of(conf: ConfView, guide_id: u32) -> Option<u32>
    recommends
        profile_position(conf.profiles, conf.profile_in_use) is Some,
{
    let profile = conf.profiles[profile_position(conf.profiles, conf.profile_in_use).unwrap()];
    match progress_position(profile.progresses, guide_id) {
        Some(at) => Some(profile.progresses[at].current_step),
        None => None,
    }
}

pub fn get_guide_current_step(conf: &Conf, guide_id: u32) -> (result: Result<Option<u32>, Error>)
    ensures
        match profile_position(conf@.profiles, conf@.profile_in_use) {
            Some(_) => result matches Ok(step) && step == current_step_of(conf@, guide_id),
            None => result matches Err(Error::Conf(ConfError::GetProfileInUse)),
        },
{
    match find_profile(&conf.profiles, &conf.profile_in_use) {
        Some(at) => {
            let profile = &conf.profiles[at];
            match find_progress(&profile.progresses, guide_id) {
                Some(spot) => Ok(Some(profile.progresses[spot].current_step)),
                None => Ok(None),
            }
        },
        None => Err(Error::Conf(ConfError::GetProfileInUse)),
    }
}

/// The step at which the guide opens: the one that the link names, else the
/// one that the profile has reached, else the first.
pub open spec fn open_step_of(current: Option<u32>, step: Option<Seq<char>>) -> Option<
    OpenGuideStep,
> {
    match step {
        Some(text) => match text_u32(text) {
            Some(number) => Some(OpenGuideStep { step: number, progression_step: current }),
            None => None,
        },
        None => Some(
            OpenGuideStep {
                step: match current {
                    Some(reached) => reached,
                    None => 0,
                },
                progression_step: current,
            },
        ),
    }
}

/// The step at which the guide `guide_id` is to be opened for the profile
/// in use, `step` being the step that the link names, if it names one.
pub fn open_guide_step(conf: &Conf, guide_id: u32, step: &Option<String>) -> (result: Result<
    OpenGuideStep,
    Error,
>)
    ensures
        match profile_position(conf@.profiles, conf@.profile_in_use) {
            None => result matches Err(Error::Conf(ConfError::GetProfileInUse)),
            Some(_) => match open_step_of(
                current_step_of(conf@, guide_id),
                crate::conf::text_view(*step),
            ) {
                Some(open) => result == Ok::<OpenGuideStep, Error>(open),
                None => result matches Err(Error::ParseUrl(text)) && text@ == "Invalid step: "@
                    + step.unwrap()@,
            },
        },
{
    let current_guide_step = match get_guide_current_step(conf, guide_id) {
        Ok(current) => current,
        Err(e) => {
            return Err(e);
        },
    };
    match step {
        Some(step_str) => match parse_u32(step_str.as_str()) {
            Some(number) => Ok(
                OpenGuideStep { step: number, progression_step: current_guide_step },
            ),
            None => Err(Error::ParseUrl(joined("Invalid step: ", step_str.as_str()))),
        },
        None => Ok(
            OpenGuideStep {
                step: match current_guide_step {
                    Some(reached) => reached,
                    None => 0,
                },
                progression_step: current_guide_step,
            },
        ),
    }
}

} // verus!
