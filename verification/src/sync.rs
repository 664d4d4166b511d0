//! Reconciling the local profiles with the server's: what is sent, how the
//! answer is judged, and how it is merged into the document.

use std::collections::HashMap;
use vstd::prelude::*;

use crate::conf::{
    find_profile, find_progress, lemma_profiles_view_push, lemma_profiles_view_update,
    lemma_progresses_view_push, lemma_progresses_view_update, lemma_steps_view_insert,
    profile_ids, profile_position, profiles_view, progress_ids, progress_position,
    progresses_view, steps_view, Conf, ConfStep, ConfView, Profile, ProfileView, Progress,
    ProgressView, DEFAULT_LEVEL,
};
use crate::text::{text_after, text_greater};

verus! {

#[derive(Debug)]
pub enum Error {
    /// No access token is stored: the user has to log in.
    TokensNotFound,
    /// The server sent the request to its login page: the session is over.
    NotConnected,
    RequestFailed(String),
    InvalidResponse(String),
    Conf(crate::conf::Error),
    /// The server knows no such profile or guide.
    ProfileOrGuideNotFound,
    /// The server refused what was sent; holds its whole answer.
    ValidationError(String),
}

/// One record of progress as it is sent, and as the caller gets it back.
#[derive(Debug)]
pub struct SyncProgressPayload {
    pub id: u32,
    pub current_step: u32,
    pub steps: HashMap<u32, ConfStep>,
    pub updated_at: String,
}

#[verifier::ext_equal]
pub struct SyncProgressView {
    pub id: u32,
    pub current_step: u32,
    pub steps: Map<u32, Seq<u32>>,
    pub updated_at: Seq<char>,
}

impl View for SyncProgressPayload {
    type V = SyncProgressView;

    open spec fn view(&self) -> SyncProgressView {
        SyncProgressView {
            id: self.id,
            current_step: self.current_step,
            steps: steps_view(self.steps@),
            updated_at: self.updated_at@,
        }
    }
}

pub open spec fn sync_progresses_view(progresses: Seq<SyncProgressPayload>) -> Seq<
    SyncProgressView,
> {
    progresses.map_values(|p: SyncProgressPayload| p@)
}

/// One local profile as it is sent.
#[derive(Debug)]
pub struct SyncProfilePayload {
    pub uuid: String,
    pub name: String,
    pub progresses: Vec<SyncProgressPayload>,
}

#[verifier::ext_equal]
pub struct SyncProfileView {
    pub uuid: Seq<char>,
    pub name: Seq<char>,
    pub progresses: Seq<SyncProgressView>,
}

impl View for SyncProfilePayload {
    type V = SyncProfileView;

    open spec fn view(&self) -> SyncProfileView {
        SyncProfileView {
            uuid: self.uuid@,
            name: self.name@,
            progresses: sync_progresses_view(self.progresses@),
        }
    }
}

/// A profile that the server knows, as the caller is told of it.
#[derive(Debug)]
pub struct RemoteProfile {
    pub id: u32,
    pub uuid: Option<String>,
    pub name: String,
    pub progresses: Vec<SyncProgressPayload>,
}

#[verifier::ext_equal]
pub struct RemoteProfileSummary {
    pub id: u32,
    pub uuid: Option<Seq<char>>,
    pub name: Seq<char>,
    pub progresses: Seq<SyncProgressView>,
}

impl View for RemoteProfile {
    type V = RemoteProfileSummary;

    open spec fn view(&self) -> RemoteProfileSummary {
        RemoteProfileSummary {
            id: self.id,
            uuid: crate::conf::text_view(self.uuid),
            name: self.name@,
            progresses: sync_progresses_view(self.progresses@),
        }
    }
}

#[derive(Debug)]
pub struct SyncResponse {
    pub profiles: Vec<RemoteProfile>,
}

impl View for SyncResponse {
    type V = Seq<RemoteProfileSummary>;

    open spec fn view(&self) -> Seq<RemoteProfileSummary> {
        self.profiles@.map_values(|p: RemoteProfile| p@)
    }
}

/// One record of progress as the server sends it: its steps are a dense
/// list, the place in the list being the step's number.
#[derive(Debug)]
pub struct RemoteProgressResponse {
    pub id: u32,
    pub current_step: u32,
    pub steps: Vec<ConfStep>,
    pub updated_at: String,
}

#[verifier::ext_equal]
pub struct RemoteProgressView {
    pub id: u32,
    pub current_step: u32,
    pub steps: Seq<Seq<u32>>,
    pub updated_at: Seq<char>,
}

pub open spec fn dense_view(steps: Seq<ConfStep>) -> Seq<Seq<u32>> {
    steps.map_values(|s: ConfStep| s@)
}

impl View for RemoteProgressResponse {
    type V = RemoteProgressView;

    open spec fn view(&self) -> RemoteProgressView {
        RemoteProgressView {
            id: self.id,
            current_step: self.current_step,
            steps: dense_view(self.steps@),
            updated_at: self.updated_at@,
        }
    }
}

pub open spec fn remote_progresses_view(progresses: Seq<RemoteProgressResponse>) -> Seq<
    RemoteProgressView,
> {
    progresses.map_values(|p: RemoteProgressResponse| p@)
}

/// One profile as the server sends it. `uuid` is the id of the local
/// profile it belongs to, where it belongs to one.
#[derive(Debug)]
pub struct RemoteProfileResponse {
    pub id: u32,
    pub uuid: Option<String>,
    pub name: String,
    pub progresses: Vec<RemoteProgressResponse>,
}

#[verifier::ext_equal]
pub struct RemoteProfileView {
    pub id: u32,
    pub uuid: Option<Seq<char>>,
    pub name: Seq<char>,
    pub progresses: Seq<RemoteProgressView>,
}

impl View for RemoteProfileResponse {
    type V = RemoteProfileView;

    open spec fn view(&self) -> RemoteProfileView {
        RemoteProfileView {
            id: self.id,
            uuid: crate::conf::text_view(self.uuid),
            name: self.name@,
            progresses: remote_progresses_view(self.progresses@),
        }
    }
}

/// The server's answer to a synchronisation.
#[derive(Debug)]
pub struct SyncServerResponse {
    pub profiles: Vec<RemoteProfileResponse>,
}

impl View for SyncServerResponse {
    type V = Seq<RemoteProfileView>;

    open spec fn view(&self) -> Seq<RemoteProfileView> {
        self.profiles@.map_values(|p: RemoteProfileResponse| p@)
    }
}

// ---------------------------------------------------------------------------
// The model of a merge
// ---------------------------------------------------------------------------

/// The key under which the step at place `place` of a dense list is kept.
pub open spec fn step_key(place: int) -> u32 {
    (place % 0x1_0000_0000) as u32
}

/// The sparse form of a dense list of steps: each step under its place.
/// (Past the range of the keys the places start again as keys, and a later
/// step takes the place of an earlier one.)
pub open spec fn sparse_steps(steps: Seq<Seq<u32>>) -> Map<u32, Seq<u32>>
    decreases steps.len(),
{
    if steps.len() == 0 {
        Map::empty()
    } else {
        sparse_steps(steps.drop_last()).insert(step_key(steps.len() - 1), steps.last())
    }
}

/// The local record that stands for a record of the server.
pub open spec fn progress_from_remote(remote: RemoteProgressView) -> ProgressView {
    ProgressView {
        id: remote.id,
        current_step: remote.current_step,
        steps: sparse_steps(remote.steps),
        updated_at: Some(remote.updated_at),
    }
}

/// Whether the server's record replaces the local one: always where the
/// local one was never confirmed, else where the server's is the later.
pub open spec fn remote_wins(local: Option<Seq<char>>, remote: Seq<char>) -> bool {
    match local {
        Some(local) => text_after(remote, local),
        None => true,
    }
}

/// The records of a profile after one record of the server came in.
pub open spec fn progress_merged(progresses: Seq<ProgressView>, remote: RemoteProgressView) -> Seq<
    ProgressView,
> {
    match progress_position(progresses, remote.id) {
        Some(at) => if remote_wins(progresses[at].updated_at, remote.updated_at) {
            progresses.update(at, progress_from_remote(remote))
        } else {
            progresses
        },
        None => progresses.push(progress_from_remote(remote)),
    }
}

/// The records of a profile after the server's records came in, in order.
pub open spec fn progresses_merged(
    progresses: Seq<ProgressView>,
    remotes: Seq<RemoteProgressView>,
) -> Seq<ProgressView>
    decreases remotes.len(),
{
    if remotes.len() == 0 {
        progresses
    } else {
        progress_merged(progresses_merged(progresses, remotes.drop_last()), remotes.last())
    }
}

/// The local profiles after one profile of the server was matched: the
/// first local profile with its `uuid` takes the server's id and records.
pub open spec fn profile_linked(profiles: Seq<ProfileView>, remote: RemoteProfileView) -> Seq<
    ProfileView,
> {
    match remote.uuid {
        Some(uuid) => match profile_position(profiles, uuid) {
            Some(at) => profiles.update(
                at,
                ProfileView {
                    server_id: Some(remote.id),
                    progresses: progresses_merged(profiles[at].progresses, remote.progresses),
                    ..profiles[at]
                },
            ),
            None => profiles,
        },
        None => profiles,
    }
}

pub open spec fn profiles_linked(profiles: Seq<ProfileView>, remotes: Seq<RemoteProfileView>) -> Seq<
    ProfileView,
>
    decreases remotes.len(),
{
    if remotes.len() == 0 {
        profiles
    } else {
        profile_linked(profiles_linked(profiles, remotes.drop_last()), remotes.last())
    }
}

/// The local profile that a profile of the server becomes when no local
/// profile has its `uuid`.
pub open spec fn profile_from_remote(uuid: Seq<char>, remote: RemoteProfileView) -> ProfileView {
    ProfileView {
        id: uuid,
        name: remote.name,
        level: DEFAULT_LEVEL,
        server_id: Some(remote.id),
        progresses: remote.progresses.map_values(|p: RemoteProgressView| progress_from_remote(p)),
    }
}

/// The local profiles after one profile of the server was taken in, where
/// it has a `uuid` that no local profile has.
pub open spec fn profile_adopted(profiles: Seq<ProfileView>, remote: RemoteProfileView) -> Seq<
    ProfileView,
> {
    match remote.uuid {
        Some(uuid) => if profile_position(profiles, uuid) is None {
            profiles.push(profile_from_remote(uuid, remote))
        } else {
            profiles
        },
        None => profiles,
    }
}

pub open spec fn profiles_adopted(profiles: Seq<ProfileView>, remotes: Seq<RemoteProfileView>) -> Seq<
    ProfileView,
>
    decreases remotes.len(),
{
    if remotes.len() == 0 {
        profiles
    } else {
        profile_adopted(profiles_adopted(profiles, remotes.drop_last()), remotes.last())
    }
}

/// The local profiles after a synchronisation: first every profile of the
/// server is matched with its local profile, then those without one are
/// taken in as new profiles.
pub open spec fn profiles_merged(profiles: Seq<ProfileView>, remotes: Seq<RemoteProfileView>) -> Seq<
    ProfileView,
> {
    profiles_adopted(profiles_linked(profiles, remotes), remotes)
}

// ---------------------------------------------------------------------------
// Merging
// ---------------------------------------------------------------------------

/// The steps of a record of the server, each under its place in the list.
pub fn sparse_from_dense(steps: &Vec<ConfStep>) -> (sparse: HashMap<u32, ConfStep>)
    ensures
        steps_view(sparse@) == sparse_steps(dense_view(steps@)),
{
    let ghost dense = dense_view(steps@);
    let mut sparse: HashMap<u32, ConfStep> = HashMap::new();
    assert(steps_view(sparse@) =~= Map::empty());
    assert(dense.take(0) =~= Seq::empty());
    let mut i: usize = 0;
    while i < steps.len()
        invariant
            i <= steps.len(),
            dense == dense_view(steps@),
            steps_view(sparse@) == sparse_steps(dense.take(i as int)),
        decreases steps.len() - i,
    {
        let key: u32 = ((i as u64) % 0x1_0000_0000) as u32;
        let step = steps[i].clone();
        proof {
            lemma_steps_view_insert(sparse@, key, step);
            assert(dense.take(i + 1).drop_last() =~= dense.take(i as int));
            assert(dense.take(i + 1).last() == step@);
        }
        sparse.insert(key, step);
        i += 1;
    }
    assert(dense.take(steps.len() as int) =~= dense);
    sparse
}

/// The local record that stands for a record of the server.
pub fn progress_of_remote(remote: &RemoteProgressResponse) -> (progress: Progress)
    ensures
        progress@ == progress_from_remote(remote@),
{
    Progress {
        id: remote.id,
        current_step: remote.current_step,
        steps: sparse_from_dense(&remote.steps),
        updated_at: Some(remote.updated_at.clone()),
    }
}

/// Whether a record of the server with the timestamp `remote` replaces a
/// local record with the timestamp `local`.
pub fn should_update(local: &Option<String>, remote: &String) -> (update: bool)
    ensures
        update == remote_wins(crate::conf::text_view(*local), remote@),
{
    match local {
        Some(local_ts) => text_greater(remote.as_str(), local_ts.as_str()),
        None => true,
    }
}

/// Takes one record of the server into the records of a profile: a new
/// guide is added, a known one is replaced where the server's record wins.
pub fn merge_progress(progresses: &mut Vec<Progress>, remote: &RemoteProgressResponse)
    ensures
        progresses_view(final(progresses)@) == progress_merged(
            progresses_view(old(progresses)@),
            remote@,
        ),
{
    let ghost before = progresses@;
    match find_progress(progresses, remote.id) {
        Some(at) => {
            if should_update(&progresses[at].updated_at, &remote.updated_at) {
                let replacement = progress_of_remote(remote);
                proof {
                    lemma_progresses_view_update(before, at as int, replacement);
                }
                progresses[at] = replacement;
            }
        },
        None => {
            let added = progress_of_remote(remote);
            proof {
                lemma_progresses_view_push(before, added);
            }
            progresses.push(added);
        },
    }
}

/// Takes the server's records into the records of a profile, in order.
pub fn merge_progresses(progresses: &mut Vec<Progress>, remotes: &Vec<RemoteProgressResponse>)
    ensures
        progresses_view(final(progresses)@) == progresses_merged(
            progresses_view(old(progresses)@),
            remote_progresses_view(remotes@),
        ),
{
    let ghost before = progresses_view(progresses@);
    let ghost incoming = remote_progresses_view(remotes@);
    assert(incoming.take(0) =~= Seq::empty());
    let mut i: usize = 0;
    while i < remotes.len()
        invariant
            i <= remotes.len(),
            incoming == remote_progresses_view(remotes@),
            progresses_view(progresses@) == progresses_merged(before, incoming.take(i as int)),
        decreases remotes.len() - i,
    {
        proof {
            assert(incoming.take(i + 1).drop_last() =~= incoming.take(i as int));
            assert(incoming.take(i + 1).last() == remotes[i as int]@);
        }
        merge_progress(progresses, &remotes[i]);
        i += 1;
    }
    assert(incoming.take(remotes.len() as int) =~= incoming);
}

/// Matches one profile of the server with the local profile of its `uuid`,
/// which takes the server's id and records. Without such a local profile
/// nothing changes.
pub fn link_profile(profiles: &mut Vec<Profile>, remote: &RemoteProfileResponse)
    ensures
        profiles_view(final(profiles)@) == profile_linked(profiles_view(old(profiles)@), remote@),
{
    let ghost before = profiles@;
    match &remote.uuid {
        Some(uuid) => {
            match find_profile(profiles, uuid) {
                Some(at) => {
                    let local = &mut profiles[at];
                    local.server_id = Some(remote.id);
                    merge_progresses(&mut local.progresses, &remote.progresses);
                    proof {
                        lemma_profiles_view_update(before, at as int, *local);
                    }
                },
                None => {},
            }
        },
        None => {},
    }
}

/// The local profile that a profile of the server becomes.
pub fn profile_of_remote(uuid: &String, remote: &RemoteProfileResponse) -> (profile: Profile)
    ensures
        profile@ == profile_from_remote(uuid@, remote@),
{
    let ghost incoming = remote_progresses_view(remote.progresses@);
    let mut progresses: Vec<Progress> = Vec::new();
    let mut i: usize = 0;
    while i < remote.progresses.len()
        invariant
            i <= remote.progresses.len(),
            incoming == remote_progresses_view(remote.progresses@),
            progresses.len() == i,
            forall|j: int| 0 <= j < i ==> progresses[j]@ == progress_from_remote(incoming[j]),
        decreases remote.progresses.len() - i,
    {
        progresses.push(progress_of_remote(&remote.progresses[i]));
        i += 1;
    }
    assert(progresses_view(progresses@) =~= incoming.map_values(
        |p: RemoteProgressView| progress_from_remote(p),
    ));
    Profile {
        id: uuid.clone(),
        name: remote.name.clone(),
        level: DEFAULT_LEVEL,
        server_id: Some(remote.id),
        progresses,
    }
}

/// Takes one profile of the server in as a new local profile, where it has
/// a `uuid` and no local profile has it.
pub fn adopt_profile(profiles: &mut Vec<Profile>, remote: &RemoteProfileResponse)
    ensures
        profiles_view(final(profiles)@) == profile_adopted(profiles_view(old(profiles)@), remote@),
{
    let ghost before = profiles@;
    match &remote.uuid {
        Some(uuid) => {
            if find_profile(profiles, uuid).is_none() {
                let adopted = profile_of_remote(uuid, remote);
                proof {
                    lemma_profiles_view_push(before, adopted);
                }
                profiles.push(adopted);
            }
        },
        None => {},
    }
}

/// Merges the server's answer into the document: the profiles change as
/// `profiles_merged` says, and nothing else does.
pub fn merge_server_profiles(conf: &mut Conf, server: &SyncServerResponse)
    ensures
        final(conf)@ == (ConfView {
            profiles: profiles_merged(old(conf)@.profiles, server@),
            ..old(conf)@
        }),
{
    let ghost before = conf@.profiles;
    let ghost incoming = server@;
    assert(incoming.take(0) =~= Seq::empty());
    let mut i: usize = 0;
    while i < server.profiles.len()
        invariant
            i <= server.profiles.len(),
            incoming == server@,
            conf@ == (ConfView { profiles: conf@.profiles, ..old(conf)@ }),
            conf@.profiles == profiles_linked(before, incoming.take(i as int)),
        decreases server.profiles.len() - i,
    {
        proof {
            assert(incoming.take(i + 1).drop_last() =~= incoming.take(i as int));
            assert(incoming.take(i + 1).last() == server.profiles[i as int]@);
        }
        link_profile(&mut conf.profiles, &server.profiles[i]);
        i += 1;
    }
    assert(incoming.take(server.profiles.len() as int) =~= incoming);
    let ghost linked = conf@.profiles;
    let mut k: usize = 0;
    while k < server.profiles.len()
        invariant
            k <= server.profiles.len(),
            incoming == server@,
            conf@ == (ConfView { profiles: conf@.profiles, ..old(conf)@ }),
            conf@.profiles == profiles_adopted(linked, incoming.take(k as int)),
        decreases server.profiles.len() - k,
    {
        proof {
            assert(incoming.take(k + 1).drop_last() =~= incoming.take(k as int));
            assert(incoming.take(k + 1).last() == server.profiles[k as int]@);
        }
        adopt_profile(&mut conf.profiles, &server.profiles[k]);
        k += 1;
    }
    assert(incoming.take(server.profiles.len() as int) =~= incoming);
}

// ---------------------------------------------------------------------------
// What is sent
// ---------------------------------------------------------------------------

/// Calls `chrono::Utc::now` and formats the instant with chrono's
/// `DateTime::to_rfc3339`. The text depends on the clock, so nothing is
/// stated of it. (chrono refuses a clock set before 1970.)
#[verifier::external_body]
pub(crate) fn timestamp_now() -> (now: String) {
    chrono::Utc::now().to_rfc3339()
}

/// A record as it is sent, `fallback` standing for the timestamp of a
/// record that has none.
pub open spec fn sync_progress_of(progress: ProgressView, fallback: Seq<char>) -> SyncProgressView {
    SyncProgressView {
        id: progress.id,
        current_step: progress.current_step,
        steps: progress.steps,
        updated_at: match progress.updated_at {
            Some(at) => at,
            None => fallback,
        },
    }
}

/// A profile as it is sent: under its id, with its name and every record.
/// A record that was never confirmed may carry any timestamp.
pub open spec fn is_sync_payload(profile: ProfileView, payload: SyncProfileView) -> bool {
    &&& payload.uuid == profile.id
    &&& payload.name == profile.name
    &&& payload.progresses.len() == profile.progresses.len()
    &&& forall|i: int|
        0 <= i < profile.progresses.len() ==> #[trigger] payload.progresses[i] == sync_progress_of(
            profile.progresses[i],
            payload.progresses[i].updated_at,
        )
}

/// The record as it is sent, with `fallback` as its timestamp where it has
/// none.
pub fn payload_of_progress(progress: &Progress, fallback: String) -> (payload: SyncProgressPayload)
    ensures
        payload@ == sync_progress_of(progress@, fallback@),
{
    SyncProgressPayload {
        id: progress.id,
        current_step: progress.current_step,
        steps: progress.steps.clone(),
        updated_at: match &progress.updated_at {
            Some(at) => at.clone(),
            None => fallback,
        },
    }
}

/// The record as it is sent. One that was never confirmed is stamped with
/// the present time.
pub fn sync_progress_payload(progress: &Progress) -> (payload: SyncProgressPayload)
    ensures
        payload@ == sync_progress_of(progress@, payload@.updated_at),
{
    match &progress.updated_at {
        Some(at) => payload_of_progress(progress, at.clone()),
        None => payload_of_progress(progress, timestamp_now()),
    }
}

pub fn sync_profile_payload(profile: &Profile) -> (payload: SyncProfilePayload)
    ensures
        is_sync_payload(profile@, payload@),
{
    let mut progresses: Vec<SyncProgressPayload> = Vec::new();
    let mut i: usize = 0;
    while i < profile.progresses.len()
        invariant
            i <= profile.progresses.len(),
            progresses.len() == i,
            forall|j: int|
                0 <= j < i ==> (#[trigger] progresses[j])@ == sync_progress_of(
                    profile.progresses[j]@,
                    progresses[j]@.updated_at,
                ),
        decreases profile.progresses.len() - i,
    {
        progresses.push(sync_progress_payload(&profile.progresses[i]));
        i += 1;
    }
    let payload = SyncProfilePayload {
        uuid: profile.id.clone(),
        name: profile.name.clone(),
        progresses,
    };
    assert forall|i: int| 0 <= i < profile@.progresses.len() implies #[trigger] payload@.progresses[i]
        == sync_progress_of(profile@.progresses[i], payload@.progresses[i].updated_at) by {
        assert(payload@.progresses[i] == payload.progresses[i]@);
    }
    payload
}

/// Every profile of the document as it is sent, in the document's order.
pub fn sync_payload(conf: &Conf) -> (payload: Vec<SyncProfilePayload>)
    ensures
        payload.len() == conf.profiles.len(),
        forall|i: int|
            0 <= i < payload.len() ==> is_sync_payload(conf@.profiles[i], (#[trigger] payload[i])@),
{
    let mut payload: Vec<SyncProfilePayload> = Vec::new();
    let mut i: usize = 0;
    while i < conf.profiles.len()
        invariant
            i <= conf.profiles.len(),
            payload.len() == i,
            forall|j: int|
                0 <= j < i ==> is_sync_payload(conf.profiles[j]@, (#[trigger] payload[j])@),
        decreases conf.profiles.len() - i,
    {
        payload.push(sync_profile_payload(&conf.profiles[i]));
        i += 1;
    }
    payload
}

// ---------------------------------------------------------------------------
// What the caller is told
// ---------------------------------------------------------------------------

pub open spec fn sync_progress_from_remote(remote: RemoteProgressView) -> SyncProgressView {
    SyncProgressView {
        id: remote.id,
        current_step: remote.current_step,
        steps: sparse_steps(remote.steps),
        updated_at: remote.updated_at,
    }
}

pub open spec fn summary_from_remote(remote: RemoteProfileView) -> RemoteProfileSummary {
    RemoteProfileSummary {
        id: remote.id,
        uuid: remote.uuid,
        name: remote.name,
        progresses: remote.progresses.map_values(
            |p: RemoteProgressView| sync_progress_from_remote(p),
        ),
    }
}

pub fn remote_profile(remote: &RemoteProfileResponse) -> (profile: RemoteProfile)
    ensures
        profile@ == summary_from_remote(remote@),
{
    let ghost incoming = remote_progresses_view(remote.progresses@);
    let mut progresses: Vec<SyncProgressPayload> = Vec::new();
    let mut i: usize = 0;
    while i < remote.progresses.len()
        invariant
            i <= remote.progresses.len(),
            incoming == remote_progresses_view(remote.progresses@),
            progresses.len() == i,
            forall|j: int| 0 <= j < i ==> progresses[j]@ == sync_progress_from_remote(incoming[j]),
        decreases remote.progresses.len() - i,
    {
        let p = &remote.progresses[i];
        progresses.push(
            SyncProgressPayload {
                id: p.id,
                current_step: p.current_step,
                steps: sparse_from_dense(&p.steps),
                updated_at: p.updated_at.clone(),
            },
        );
        i += 1;
    }
    assert(sync_progresses_view(progresses@) =~= incoming.map_values(
        |p: RemoteProgressView| sync_progress_from_remote(p),
    ));
    RemoteProfile {
        id: remote.id,
        uuid: remote.uuid.clone(),
        name: remote.name.clone(),
        progresses,
    }
}

/// The profiles that the server knows after the synchronisation, as the
/// caller is told of them: the server's answer with sparse steps.
pub fn sync_response(server: &SyncServerResponse) -> (response: SyncResponse)
    ensures
        response@ == server@.map_values(|p: RemoteProfileView| summary_from_remote(p)),
{
    let mut profiles: Vec<RemoteProfile> = Vec::new();
    let mut i: usize = 0;
    while i < server.profiles.len()
        invariant
            i <= server.profiles.len(),
            profiles.len() == i,
            forall|j: int| 0 <= j < i ==> profiles[j]@ == summary_from_remote(server.profiles[j]@),
        decreases server.profiles.len() - i,
    {
        profiles.push(remote_profile(&server.profiles[i]));
        i += 1;
    }
    let response = SyncResponse { profiles };
    assert(response@ =~= server@.map_values(|p: RemoteProfileView| summary_from_remote(p)));
    response
}

// ---------------------------------------------------------------------------
// Judging the server's answer
// ---------------------------------------------------------------------------

/// The status codes that stand for success: those from 200 to 299.
pub open spec fn status_is_success(code: u16) -> bool {
    200 <= code < 300
}

pub fn is_success(code: u16) -> (success: bool)
    ensures
        success == status_is_success(code),
{
    200 <= code && code < 300
}

/// The text of a failed request: the status, then what the server said.
pub open spec fn failure_text(status: Seq<char>, body: Seq<char>) -> Seq<char> {
    "HTTP "@ + status + ": "@ + body
}

pub open spec fn body_or_empty(body: Result<String, String>) -> Seq<char> {
    match body {
        Ok(text) => text@,
        Err(_) => Seq::empty(),
    }
}

/// The failure with which a request that the server did not accept ends.
pub fn request_failure(status: &str, body: &str) -> (error: Error)
    ensures
        error matches Error::RequestFailed(text) && text@ == failure_text(status@, body@),
{
    let mut text = crate::text::joined("HTTP ", status);
    text.append(": ");
    text.append(body);
    Error::RequestFailed(text)
}

fn text_or_empty(body: Result<String, String>) -> (text: String)
    ensures
        text@ == body_or_empty(body),
{
    match body {
        Ok(text) => text,
        Err(_) => String::new(),
    }
}

/// Whether the server sent the request on to its login page, which it does
/// where the session is over.
pub fn is_login_redirect(url: &str) -> (redirected: bool)
    ensures
        redirected == crate::text::text_ends_with(url@, "/login"@),
{
    crate::text::ends_with(url, "/login")
}

/// Judges the answer to a synchronisation: `url` is the address that
/// answered in the end, `code` and `status` the status as a number and as
/// the server's line, `body` what could be read of the answer's text, or why
/// it could not be read. An accepted answer's text is handed on.
pub fn judge_sync_answer(url: &str, code: u16, status: &str, body: Result<String, String>) -> (result:
    Result<String, Error>)
    ensures
        match result {
            Ok(text) => !crate::text::text_ends_with(url@, "/login"@) && status_is_success(code)
                && body == Ok::<String, String>(text),
            Err(Error::NotConnected) => crate::text::text_ends_with(url@, "/login"@),
            Err(Error::ValidationError(text)) => !crate::text::text_ends_with(url@, "/login"@)
                && code == UNPROCESSABLE && text@ == body_or_empty(body),
            Err(Error::RequestFailed(text)) => !crate::text::text_ends_with(url@, "/login"@)
                && code != UNPROCESSABLE && if status_is_success(code) {
                body == Err::<String, String>(text)
            } else {
                text@ == "HTTP "@ + status@
            },
            Err(_) => false,
        },
{
    if is_login_redirect(url) {
        return Err(Error::NotConnected);
    }
    if !is_success(code) {
        if code == UNPROCESSABLE {
            return Err(Error::ValidationError(text_or_empty(body)));
        }
        return Err(Error::RequestFailed(crate::text::joined("HTTP ", status)));
    }
    match body {
        Ok(text) => Ok(text),
        Err(why) => Err(Error::RequestFailed(why)),
    }
}

/// The status with which the server refuses what was sent as invalid.
pub const UNPROCESSABLE: u16 = 422;

/// Judges the answer to the creation of a profile. An accepted answer's
/// text, which holds the new id, is handed on. An answer that refuses what
/// was sent as invalid fails with the server's whole answer; any other
/// status but a success fails with the status and the answer.
pub fn judge_create_answer(code: u16, status: &str, body: Result<String, String>) -> (result:
    Result<String, Error>)
    ensures
        match result {
            Ok(text) => status_is_success(code) && body == Ok::<String, String>(text),
            Err(Error::ValidationError(text)) => code == UNPROCESSABLE && text@ == body_or_empty(
                body,
            ),
            Err(Error::RequestFailed(text)) => code != UNPROCESSABLE && if status_is_success(
                code,
            ) {
                body == Err::<String, String>(text)
            } else {
                text@ == failure_text(status@, body_or_empty(body))
            },
            Err(_) => false,
        },
{
    if code == UNPROCESSABLE {
        return Err(Error::ValidationError(text_or_empty(body)));
    }
    if !is_success(code) {
        let text = text_or_empty(body);
        return Err(request_failure(status, text.as_str()));
    }
    match body {
        Ok(text) => Ok(text),
        Err(why) => Err(Error::RequestFailed(why)),
    }
}

/// Judges the answer to the renaming or the deletion of a profile: any
/// status but a success fails the operation, an answer that refuses what
/// was sent as invalid with the server's whole answer, any other with the
/// status and the answer.
pub fn judge_change_answer(code: u16, status: &str, body: Result<String, String>) -> (result:
    Result<(), Error>)
    ensures
        match result {
            Ok(_) => status_is_success(code),
            Err(Error::ValidationError(text)) => code == UNPROCESSABLE && text@ == body_or_empty(
                body,
            ),
            Err(Error::RequestFailed(text)) => !status_is_success(code) && code != UNPROCESSABLE
                && text@ == failure_text(status@, body_or_empty(body)),
            Err(_) => false,
        },
{
    if code == UNPROCESSABLE {
        return Err(Error::ValidationError(text_or_empty(body)));
    }
    if !is_success(code) {
        let text = text_or_empty(body);
        return Err(request_failure(status, text.as_str()));
    }
    Ok(())
}

/// How many line feeds of the server's answer are turned into spaces in
/// the text of a failure.
pub const FLATTENED_LINES: usize = 300;

/// Judges the answer to the update of one record: the server answers 404
/// where it does not know the profile or the guide.
pub fn judge_progress_answer(code: u16, status: &str, body: Result<String, String>) -> (result:
    Result<(), Error>)
    ensures
        match result {
            Ok(_) => status_is_success(code),
            Err(Error::ProfileOrGuideNotFound) => code == 404,
            Err(Error::RequestFailed(text)) => !status_is_success(code) && code != 404 && text@
                == failure_text(
                status@,
                crate::text::replaced(body_or_empty(body), '\n', " "@, FLATTENED_LINES as nat),
            ),
            Err(_) => false,
        },
{
    if code == 404 {
        return Err(Error::ProfileOrGuideNotFound);
    }
    if !is_success(code) {
        let text = text_or_empty(body);
        let flat = crate::text::replace_first(text.as_str(), '\n', " ", FLATTENED_LINES);
        return Err(request_failure(status, flat.as_str()));
    }
    Ok(())
}

#[derive(Debug, Clone, Copy)]
pub struct SyncApiImpl;

impl SyncApiImpl {
    /// Takes the server's answer to a synchronisation in: merges it into
    /// the document, which the caller then stores, and tells the caller of
    /// the profiles that the server knows.
    pub fn sync_profiles(self, conf: &mut Conf, server: &SyncServerResponse) -> (response:
        SyncResponse)
        ensures
            final(conf)@ == (ConfView {
                profiles: profiles_merged(old(conf)@.profiles, server@),
                ..old(conf)@
            }),
            response@ == server@.map_values(|p: RemoteProfileView| summary_from_remote(p)),
    {
        merge_server_profiles(conf, server);
        sync_response(server)
    }
}

// ---------------------------------------------------------------------------
// Laws
// ---------------------------------------------------------------------------

/// A dense list of steps (of no more steps than there are keys) becomes the
/// mapping from each place of the list to the step at that place.
pub proof fn law_sparse_steps(steps: Seq<Seq<u32>>)
    requires
        steps.len() <= 0x1_0000_0000,
    ensures
        forall|k: u32| #[trigger] sparse_steps(steps).contains_key(k) <==> k < steps.len(),
        forall|k: u32| k < steps.len() ==> #[trigger] sparse_steps(steps)[k] == steps[k as int],
    decreases steps.len(),
{
    if steps.len() > 0 {
        let earlier = steps.drop_last();
        law_sparse_steps(earlier);
        let before = sparse_steps(earlier);
        let key = step_key(steps.len() - 1);
        assert(key == steps.len() - 1);
        assert(sparse_steps(steps) == before.insert(key, steps.last()));
        assert forall|k: u32| #[trigger] sparse_steps(steps).contains_key(k) <==> k
            < steps.len() by {
            assert(before.contains_key(k) <==> k < earlier.len());
        }
        assert forall|k: u32| k < steps.len() implies #[trigger] sparse_steps(steps)[k]
            == steps[k as int] by {
            if k < earlier.len() {
                assert(before.contains_key(k));
                assert(before[k] == earlier[k as int]);
            }
        }
    }
}

/// With one record in the server's answer, the records are merged once.
pub proof fn law_merge_one_progress(progresses: Seq<ProgressView>, remote: RemoteProgressView)
    ensures
        progresses_merged(progresses, seq![remote]) == progress_merged(progresses, remote),
{
    let remotes = seq![remote];
    assert(remotes.drop_last() =~= Seq::empty());
    assert(progresses_merged(progresses, remotes.drop_last()) == progresses);
    assert(remotes.last() == remote);
}

/// With one profile in the server's answer, it is matched and then, where
/// no local profile has its `uuid`, taken in.
pub proof fn law_merge_one_profile(profiles: Seq<ProfileView>, remote: RemoteProfileView)
    ensures
        profiles_merged(profiles, seq![remote]) == profile_adopted(
            profile_linked(profiles, remote),
            remote,
        ),
{
    let remotes = seq![remote];
    assert(remotes.drop_last() =~= Seq::empty());
    assert(remotes.last() == remote);
    assert(profiles_linked(profiles, remotes.drop_last()) == profiles);
    assert(profiles_linked(profiles, remotes) == profile_linked(profiles, remote));
    let linked = profile_linked(profiles, remote);
    assert(profiles_adopted(linked, remotes.drop_last()) == linked);
}

/// Last write wins. A record of the server for a guide that has a local
/// record replaces its step, steps and timestamp where the local record has
/// no timestamp or an earlier one; else the local record stays. The record
/// stays in its place under its id, and no other record changes.
pub proof fn law_last_write_wins(progresses: Seq<ProgressView>, remote: RemoteProgressView)
    requires
        progress_position(progresses, remote.id) is Some,
    ensures
        ({
            let at = progress_position(progresses, remote.id).unwrap();
            let local = progresses[at];
            let merged = progress_merged(progresses, remote);
            &&& 0 <= at < progresses.len()
            &&& merged.len() == progresses.len()
            &&& forall|i: int| 0 <= i < merged.len() && i != at ==> merged[i] == progresses[i]
            &&& merged[at].id == local.id
            &&& if local.updated_at is None || text_after(
                remote.updated_at,
                local.updated_at.unwrap(),
            ) {
                &&& merged[at].current_step == remote.current_step
                &&& merged[at].steps == sparse_steps(remote.steps)
                &&& merged[at].updated_at == Some(remote.updated_at)
            } else {
                merged[at] == local
            }
        }),
{
    crate::lookup::lemma_index_of_first(progress_ids(progresses), remote.id);
}

/// A tie keeps the local record: a record of the server that carries the
/// timestamp of the local record changes nothing.
pub proof fn law_tie_keeps_local(progresses: Seq<ProgressView>, remote: RemoteProgressView)
    requires
        progress_position(progresses, remote.id) is Some,
        progresses[progress_position(progresses, remote.id).unwrap()].updated_at == Some(
            remote.updated_at,
        ),
    ensures
        progress_merged(progresses, remote) == progresses,
{
    crate::text::law_text_after_is_strict(remote.updated_at);
}

/// A record of the server for a guide without a local record is added at
/// the end, as it came.
pub proof fn law_new_progress_added(progresses: Seq<ProgressView>, remote: RemoteProgressView)
    requires
        progress_position(progresses, remote.id) is None,
    ensures
        progress_merged(progresses, remote) == progresses.push(progress_from_remote(remote)),
{
}

/// Merging records keeps every record that was there in its place, under
/// its id; and where no guide had two records before, none has after.
pub proof fn law_progresses_merged_keep(
    progresses: Seq<ProgressView>,
    remotes: Seq<RemoteProgressView>,
)
    ensures
        progress_ids(progresses).is_prefix_of(
            progress_ids(progresses_merged(progresses, remotes)),
        ),
        progress_ids(progresses).no_duplicates() ==> progress_ids(
            progresses_merged(progresses, remotes),
        ).no_duplicates(),
    decreases remotes.len(),
{
    let ids = progress_ids(progresses);
    if remotes.len() == 0 {
        assert(ids =~= ids.subrange(0, ids.len() as int));
    } else {
        law_progresses_merged_keep(progresses, remotes.drop_last());
        let earlier = progresses_merged(progresses, remotes.drop_last());
        let remote = remotes.last();
        let merged = progress_merged(earlier, remote);
        let earlier_ids = progress_ids(earlier);
        crate::lookup::lemma_index_of_first(earlier_ids, remote.id);
        match progress_position(earlier, remote.id) {
            Some(at) => {
                assert(progress_ids(merged) =~= earlier_ids);
            },
            None => {
                assert(progress_ids(merged) =~= earlier_ids.push(remote.id));
                assert(ids =~= progress_ids(merged).subrange(0, ids.len() as int)) by {
                    assert(ids =~= earlier_ids.subrange(0, ids.len() as int));
                }
            },
        }
    }
}

/// Matching the server's profiles changes no profile's id, name or level,
/// and adds or removes none.
pub proof fn law_linked_keeps_profiles(profiles: Seq<ProfileView>, remotes: Seq<RemoteProfileView>)
    ensures
        profiles_linked(profiles, remotes).len() == profiles.len(),
        forall|i: int|
            0 <= i < profiles.len() ==> {
                let after = #[trigger] profiles_linked(profiles, remotes)[i];
                after.id == profiles[i].id && after.name == profiles[i].name && after.level
                    == profiles[i].level
            },
    decreases remotes.len(),
{
    if remotes.len() > 0 {
        law_linked_keeps_profiles(profiles, remotes.drop_last());
        let earlier = profiles_linked(profiles, remotes.drop_last());
        let remote = remotes.last();
        match remote.uuid {
            Some(uuid) => {
                crate::lookup::lemma_index_of_first(profile_ids(earlier), uuid);
            },
            None => {},
        }
    }
}

/// Taking in the server's new profiles leaves every profile that was there
/// as it was, in its place.
pub proof fn law_adopted_keeps_profiles(profiles: Seq<ProfileView>, remotes: Seq<RemoteProfileView>)
    ensures
        profiles.is_prefix_of(profiles_adopted(profiles, remotes)),
    decreases remotes.len(),
{
    if remotes.len() == 0 {
        assert(profiles =~= profiles.subrange(0, profiles.len() as int));
    } else {
        law_adopted_keeps_profiles(profiles, remotes.drop_last());
        let earlier = profiles_adopted(profiles, remotes.drop_last());
        let after = profile_adopted(earlier, remotes.last());
        assert(profiles =~= earlier.subrange(0, profiles.len() as int));
        assert(profiles =~= after.subrange(0, profiles.len() as int));
    }
}

/// A profile's id is its own for good: a synchronisation keeps every local
/// profile in its place under its id, with its name and level.
pub proof fn law_merge_keeps_ids(profiles: Seq<ProfileView>, remotes: Seq<RemoteProfileView>)
    ensures
        profiles.len() <= profiles_merged(profiles, remotes).len(),
        forall|i: int|
            0 <= i < profiles.len() ==> {
                let after = #[trigger] profiles_merged(profiles, remotes)[i];
                after.id == profiles[i].id && after.name == profiles[i].name && after.level
                    == profiles[i].level
            },
{
    law_linked_keeps_profiles(profiles, remotes);
    let linked = profiles_linked(profiles, remotes);
    law_adopted_keeps_profiles(linked, remotes);
    let merged = profiles_merged(profiles, remotes);
    assert forall|i: int| 0 <= i < profiles.len() implies {
        let after = #[trigger] merged[i];
        after.id == profiles[i].id && after.name == profiles[i].name && after.level
            == profiles[i].level
    } by {
        assert(merged.subrange(0, linked.len() as int)[i] == linked[i]);
    }
}

/// The server's acknowledgement links a profile. Where the answer holds one
/// profile whose `uuid` a local profile has, the first such local profile
/// takes the server's id and the merged records, keeps its own id, name and
/// level, and no other profile changes.
pub proof fn law_acknowledged_profile(profiles: Seq<ProfileView>, remote: RemoteProfileView)
    requires
        remote.uuid is Some,
        profile_position(profiles, remote.uuid.unwrap()) is Some,
    ensures
        ({
            let at = profile_position(profiles, remote.uuid.unwrap()).unwrap();
            let merged = profiles_merged(profiles, seq![remote]);
            &&& 0 <= at < profiles.len()
            &&& merged.len() == profiles.len()
            &&& merged[at].server_id == Some(remote.id)
            &&& merged[at].id == remote.uuid.unwrap()
            &&& merged[at].name == profiles[at].name
            &&& merged[at].level == profiles[at].level
            &&& merged[at].progresses == progresses_merged(
                profiles[at].progresses,
                remote.progresses,
            )
            &&& forall|i: int| 0 <= i < merged.len() && i != at ==> merged[i] == profiles[i]
        }),
{
    let uuid = remote.uuid.unwrap();
    law_merge_one_profile(profiles, remote);
    crate::lookup::lemma_index_of_first(profile_ids(profiles), uuid);
    let at = profile_position(profiles, uuid).unwrap();
    let linked = profile_linked(profiles, remote);
    assert(profile_ids(linked) =~= profile_ids(profiles));
}

/// A new profile of the server is taken in. Where the answer holds one
/// profile whose `uuid` no local profile has, it is added at the end under
/// that `uuid`, at the default level, with the server's id and name and with
/// every record as it came, its dense steps made sparse; every local
/// profile stays as it was.
pub proof fn law_new_profile_adopted(profiles: Seq<ProfileView>, remote: RemoteProfileView)
    requires
        remote.uuid is Some,
        profile_position(profiles, remote.uuid.unwrap()) is None,
    ensures
        ({
            let merged = profiles_merged(profiles, seq![remote]);
            let adopted = merged.last();
            &&& merged == profiles.push(adopted)
            &&& adopted.id == remote.uuid.unwrap()
            &&& adopted.name == remote.name
            &&& adopted.level == DEFAULT_LEVEL
            &&& adopted.server_id == Some(remote.id)
            &&& adopted.progresses.len() == remote.progresses.len()
            &&& forall|i: int|
                0 <= i < remote.progresses.len() ==> #[trigger] adopted.progresses[i]
                    == progress_from_remote(remote.progresses[i])
        }),
{
    law_merge_one_profile(profiles, remote);
    let merged = profiles_merged(profiles, seq![remote]);
    assert(merged.drop_last() =~= profiles);
    assert(merged =~= profiles.push(merged.last()));
}

/// Every profile that is there after the server's new profiles were taken
/// in was there before, or has the `uuid` of one of the server's profiles.
proof fn lemma_adopted_ids(profiles: Seq<ProfileView>, remotes: Seq<RemoteProfileView>, at: int)
    requires
        0 <= at < profiles_adopted(profiles, remotes).len(),
    ensures
        profiles.len() <= profiles_adopted(profiles, remotes).len(),
        at < profiles.len() ==> profiles_adopted(profiles, remotes)[at] == profiles[at],
        at >= profiles.len() ==> exists|j: int|
            0 <= j < remotes.len() && (#[trigger] remotes[j]).uuid == Some(
                profiles_adopted(profiles, remotes)[at].id,
            ),
    decreases remotes.len(),
{
    law_adopted_keeps_profiles(profiles, remotes);
    let after = profiles_adopted(profiles, remotes);
    if at < profiles.len() {
        assert(after.subrange(0, profiles.len() as int)[at] == after[at]);
    } else {
        let earlier = profiles_adopted(profiles, remotes.drop_last());
        law_adopted_keeps_profiles(profiles, remotes.drop_last());
        if at < earlier.len() {
            lemma_adopted_ids(profiles, remotes.drop_last(), at);
            let j = choose|j: int|
                0 <= j < remotes.drop_last().len() && (#[trigger] remotes.drop_last()[j]).uuid
                    == Some(earlier[at].id);
            assert(remotes[j].uuid == Some(after[at].id));
        } else {
            assert(remotes[remotes.len() - 1].uuid == Some(after[at].id));
        }
    }
}

/// What is there after the first `n` of the server's profiles were taken in
/// stays in its place when the others are taken in.
proof fn lemma_adopted_grows(profiles: Seq<ProfileView>, remotes: Seq<RemoteProfileView>, n: int)
    requires
        0 <= n <= remotes.len(),
    ensures
        profiles_adopted(profiles, remotes.take(n)).is_prefix_of(
            profiles_adopted(profiles, remotes),
        ),
    decreases remotes.len(),
{
    let part = profiles_adopted(profiles, remotes.take(n));
    if n == remotes.len() {
        assert(remotes.take(n) =~= remotes);
        assert(part =~= part.subrange(0, part.len() as int));
    } else {
        assert(remotes.drop_last().take(n) =~= remotes.take(n));
        lemma_adopted_grows(profiles, remotes.drop_last(), n);
        let earlier = profiles_adopted(profiles, remotes.drop_last());
        let after = profiles_adopted(profiles, remotes);
        assert(part =~= earlier.subrange(0, part.len() as int));
        assert(part =~= after.subrange(0, part.len() as int));
    }
}

/// A new profile of the server is taken in, whatever else the answer holds.
/// The first profile of the answer that carries a `uuid` which no local
/// profile has becomes the local profile of that `uuid`: under the `uuid`,
/// at the default level, with the server's id and name and with every
/// record as it came, its dense steps made sparse. (A later profile of the
/// answer with the same `uuid` is matched with it no more.)
pub proof fn law_first_new_profile_adopted(
    profiles: Seq<ProfileView>,
    remotes: Seq<RemoteProfileView>,
    k: int,
)
    requires
        0 <= k < remotes.len(),
        remotes[k].uuid is Some,
        profile_position(profiles, remotes[k].uuid.unwrap()) is None,
        forall|j: int| 0 <= j < k ==> (#[trigger] remotes[j]).uuid != remotes[k].uuid,
    ensures
        ({
            let uuid = remotes[k].uuid.unwrap();
            let merged = profiles_merged(profiles, remotes);
            &&& profile_position(merged, uuid) is Some
            &&& profile_position(merged, uuid).unwrap() >= profiles.len()
            &&& merged[profile_position(merged, uuid).unwrap()] == profile_from_remote(
                uuid,
                remotes[k],
            )
        }),
{
    let uuid = remotes[k].uuid.unwrap();
    let linked = profiles_linked(profiles, remotes);
    let merged = profiles_merged(profiles, remotes);
    law_linked_keeps_profiles(profiles, remotes);
    assert(profile_ids(linked) =~= profile_ids(profiles));
    crate::lookup::lemma_index_of_first(profile_ids(linked), uuid);

    let before = profiles_adopted(linked, remotes.take(k));
    let ids = profile_ids(before);
    assert forall|i: int| 0 <= i < ids.len() implies ids[i] != uuid by {
        lemma_adopted_ids(linked, remotes.take(k), i);
        if i >= linked.len() {
            let j = choose|j: int|
                0 <= j < remotes.take(k).len() && (#[trigger] remotes.take(k)[j]).uuid == Some(
                    before[i].id,
                );
            assert(remotes[j].uuid != remotes[k].uuid);
        } else {
            assert(profile_ids(linked)[i] == before[i].id);
        }
    }
    crate::lookup::lemma_no_index(ids, uuid);

    let with_it = profiles_adopted(linked, remotes.take(k + 1));
    assert(remotes.take(k + 1).drop_last() =~= remotes.take(k));
    assert(remotes.take(k + 1).last() == remotes[k]);
    assert(with_it == before.push(profile_from_remote(uuid, remotes[k])));
    lemma_adopted_grows(linked, remotes, k + 1);
    assert(merged.subrange(0, with_it.len() as int)[before.len() as int] == with_it[before.len() as int]);
    let merged_ids = profile_ids(merged);
    assert(merged_ids[before.len() as int] == uuid);
    assert forall|i: int| 0 <= i < before.len() implies merged_ids[i] != uuid by {
        assert(merged.subrange(0, with_it.len() as int)[i] == with_it[i]);
        assert(ids[i] != uuid);
    }
    crate::lookup::lemma_first_index(merged_ids, uuid, before.len() as int);
    law_adopted_keeps_profiles(linked, remotes.take(k));
}

// ---------------------------------------------------------------------------
// Validity
// ---------------------------------------------------------------------------

impl RemoteProgressView {
    /// No step lists a checkbox twice.
    pub open spec fn valid(self) -> bool {
        forall|i: int| 0 <= i < self.steps.len() ==> (#[trigger] self.steps[i]).no_duplicates()
    }
}

pub open spec fn remote_progress_ids(progresses: Seq<RemoteProgressView>) -> Seq<u32> {
    progresses.map_values(|p: RemoteProgressView| p.id)
}

impl RemoteProfileView {
    /// At most one record per guide, each of them valid.
    pub open spec fn valid(self) -> bool {
        &&& remote_progress_ids(self.progresses).no_duplicates()
        &&& forall|i: int|
            0 <= i < self.progresses.len() ==> (#[trigger] self.progresses[i]).valid()
    }
}

/// Every step of the sparse form is a step of the dense list.
proof fn lemma_sparse_steps_from_dense(steps: Seq<Seq<u32>>, key: u32)
    requires
        sparse_steps(steps).contains_key(key),
    ensures
        exists|i: int| 0 <= i < steps.len() && steps[i] == sparse_steps(steps)[key],
    decreases steps.len(),
{
    if steps.len() > 0 {
        let last = steps.len() - 1;
        if key == step_key(last) {
            assert(steps[last] == sparse_steps(steps)[key]);
        } else {
            lemma_sparse_steps_from_dense(steps.drop_last(), key);
            let i = choose|i: int|
                0 <= i < steps.drop_last().len() && steps.drop_last()[i] == sparse_steps(
                    steps.drop_last(),
                )[key];
            assert(steps[i] == sparse_steps(steps)[key]);
        }
    }
}

/// A valid record of the server becomes a valid local record.
pub proof fn law_progress_from_remote_valid(remote: RemoteProgressView)
    requires
        remote.valid(),
    ensures
        progress_from_remote(remote).valid(),
{
    let local = progress_from_remote(remote);
    assert forall|k: u32| #[trigger] local.steps.contains_key(k) implies local.steps[k].no_duplicates() by {
        lemma_sparse_steps_from_dense(remote.steps, k);
        let i = choose|i: int| 0 <= i < remote.steps.len() && remote.steps[i] == local.steps[k];
        assert(remote.steps[i].no_duplicates());
    }
}

/// Merging valid records of the server into the valid records of a profile
/// gives valid records, at most one per guide.
pub proof fn law_progresses_merged_valid(
    progresses: Seq<ProgressView>,
    remotes: Seq<RemoteProgressView>,
)
    requires
        progress_ids(progresses).no_duplicates(),
        forall|i: int| 0 <= i < progresses.len() ==> (#[trigger] progresses[i]).valid(),
        forall|i: int| 0 <= i < remotes.len() ==> (#[trigger] remotes[i]).valid(),
    ensures
        progress_ids(progresses_merged(progresses, remotes)).no_duplicates(),
        forall|i: int|
            0 <= i < progresses_merged(progresses, remotes).len() ==> (
            #[trigger] progresses_merged(progresses, remotes)[i]).valid(),
    decreases remotes.len(),
{
    law_progresses_merged_keep(progresses, remotes);
    if remotes.len() > 0 {
        let earlier_remotes = remotes.drop_last();
        assert forall|i: int| 0 <= i < earlier_remotes.len() implies (
        #[trigger] earlier_remotes[i]).valid() by {
            assert(remotes[i].valid());
        }
        law_progresses_merged_valid(progresses, earlier_remotes);
        let earlier = progresses_merged(progresses, earlier_remotes);
        let remote = remotes.last();
        assert(remote.valid());
        law_progress_from_remote_valid(remote);
        crate::lookup::lemma_index_of_first(progress_ids(earlier), remote.id);
        let merged = progress_merged(earlier, remote);
        assert forall|i: int| 0 <= i < merged.len() implies (#[trigger] merged[i]).valid() by {
            if i < earlier.len() && merged[i] == earlier[i] {
                assert(earlier[i].valid());
            }
        }
    }
}

/// The profile that a valid profile of the server becomes is valid.
pub proof fn law_profile_from_remote_valid(uuid: Seq<char>, remote: RemoteProfileView)
    requires
        remote.valid(),
    ensures
        profile_from_remote(uuid, remote).valid(),
{
    let local = profile_from_remote(uuid, remote);
    assert(progress_ids(local.progresses) =~= remote_progress_ids(remote.progresses));
    assert forall|i: int| 0 <= i < local.progresses.len() implies (
    #[trigger] local.progresses[i]).valid() by {
        assert(remote.progresses[i].valid());
        law_progress_from_remote_valid(remote.progresses[i]);
    }
}

/// Every profile is valid.
pub open spec fn all_valid(profiles: Seq<ProfileView>) -> bool {
    forall|i: int| 0 <= i < profiles.len() ==> (#[trigger] profiles[i]).valid()
}

/// Every profile of the server's answer is valid.
pub open spec fn all_remotes_valid(remotes: Seq<RemoteProfileView>) -> bool {
    forall|i: int| 0 <= i < remotes.len() ==> (#[trigger] remotes[i]).valid()
}

proof fn lemma_linked_valid(profiles: Seq<ProfileView>, remotes: Seq<RemoteProfileView>)
    requires
        all_valid(profiles),
        all_remotes_valid(remotes),
    ensures
        all_valid(profiles_linked(profiles, remotes)),
    decreases remotes.len(),
{
    if remotes.len() > 0 {
        let earlier_remotes = remotes.drop_last();
        assert forall|i: int| 0 <= i < earlier_remotes.len() implies (
        #[trigger] earlier_remotes[i]).valid() by {
            assert(remotes[i].valid());
        }
        lemma_linked_valid(profiles, earlier_remotes);
        let earlier = profiles_linked(profiles, earlier_remotes);
        let remote = remotes.last();
        assert(remote.valid());
        let linked = profile_linked(earlier, remote);
        match remote.uuid {
            Some(uuid) => {
                crate::lookup::lemma_index_of_first(profile_ids(earlier), uuid);
                match profile_position(earlier, uuid) {
                    Some(at) => {
                        assert(earlier[at].valid());
                        law_progresses_merged_valid(earlier[at].progresses, remote.progresses);
                        assert forall|i: int| 0 <= i < linked.len() implies (
                        #[trigger] linked[i]).valid() by {
                            if i != at {
                                assert(earlier[i].valid());
                            }
                        }
                    },
                    None => {},
                }
            },
            None => {},
        }
    }
}

proof fn lemma_adopted_valid(profiles: Seq<ProfileView>, remotes: Seq<RemoteProfileView>)
    requires
        all_valid(profiles),
        all_remotes_valid(remotes),
    ensures
        all_valid(profiles_adopted(profiles, remotes)),
    decreases remotes.len(),
{
    if remotes.len() > 0 {
        let earlier_remotes = remotes.drop_last();
        assert forall|i: int| 0 <= i < earlier_remotes.len() implies (
        #[trigger] earlier_remotes[i]).valid() by {
            assert(remotes[i].valid());
        }
        lemma_adopted_valid(profiles, earlier_remotes);
        let earlier = profiles_adopted(profiles, earlier_remotes);
        let remote = remotes.last();
        assert(remote.valid());
        let adopted = profile_adopted(earlier, remote);
        match remote.uuid {
            Some(uuid) => {
                law_profile_from_remote_valid(uuid, remote);
                assert forall|i: int| 0 <= i < adopted.len() implies (
                #[trigger] adopted[i]).valid() by {
                    if i < earlier.len() {
                        assert(earlier[i].valid());
                    }
                }
            },
            None => {},
        }
    }
}

/// A synchronisation keeps a valid document valid, where the server's
/// answer is valid: every profile stays valid, and the profile in use
/// stays where it is.
pub proof fn law_merge_keeps_valid(conf: ConfView, remotes: Seq<RemoteProfileView>)
    requires
        conf.valid(),
        all_remotes_valid(remotes),
    ensures
        (ConfView { profiles: profiles_merged(conf.profiles, remotes), ..conf }).valid(),
        profile_position(profiles_merged(conf.profiles, remotes), conf.profile_in_use)
            == profile_position(conf.profiles, conf.profile_in_use),
{
    let merged = profiles_merged(conf.profiles, remotes);
    let linked = profiles_linked(conf.profiles, remotes);
    assert(all_valid(conf.profiles));
    lemma_linked_valid(conf.profiles, remotes);
    lemma_adopted_valid(linked, remotes);
    law_merge_keeps_ids(conf.profiles, remotes);
    let ids = profile_ids(conf.profiles);
    let merged_ids = profile_ids(merged);
    crate::lookup::lemma_index_of_first(ids, conf.profile_in_use);
    let at = profile_position(conf.profiles, conf.profile_in_use).unwrap();
    assert(merged_ids[at] == conf.profile_in_use) by {
        assert(merged[at].id == conf.profiles[at].id);
    }
    assert forall|j: int| 0 <= j < at implies merged_ids[j] != conf.profile_in_use by {
        assert(merged[j].id == conf.profiles[j].id);
        assert(ids[j] != conf.profile_in_use);
    }
    crate::lookup::lemma_first_index(merged_ids, conf.profile_in_use, at);
}

/// The access token with which the server is asked, from what loading the
/// stored tokens gave. Without stored tokens nothing is asked.
pub fn get_auth(tokens: Result<Option<crate::oauth::AuthTokens>, crate::oauth::Error>) -> (result:
    Result<String, Error>)
    ensures
        match tokens {
            Ok(Some(stored)) => result == Ok::<String, Error>(stored.access_token),
            _ => result matches Err(Error::TokensNotFound),
        },
{
    match tokens {
        Ok(Some(stored)) => Ok(stored.access_token),
        _ => Err(Error::TokensNotFound),
    }
}

} // verus!
