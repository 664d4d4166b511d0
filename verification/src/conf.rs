//! The configuration document: preferences, profiles and per-guide progress,
//! with the rules that change them.

use std::collections::HashMap;
use vstd::prelude::*;

use crate::ids::new_id;

verus! {

/// Level given to a profile that does not carry one.
pub const DEFAULT_LEVEL: u32 = 200;

/// Bit pattern (IEEE 754, single precision) of the largest opacity a stored
/// document may hold: the single nearest to ninety-eight hundredths.
pub const OPACITY_MAX: u32 = 0x3F7A_E148;

/// Bit pattern of positive infinity.
pub const OPACITY_INFINITY: u32 = 0x7F80_0000;

/// Bit pattern of negative zero.
pub const OPACITY_NEGATIVE_ZERO: u32 = 0x8000_0000;

/// Bit pattern of negative infinity.
pub const OPACITY_NEGATIVE_INFINITY: u32 = 0xFF80_0000;

pub fn default_level() -> (level: u32)
    ensures
        level == DEFAULT_LEVEL,
{
    DEFAULT_LEVEL
}

pub fn default_auto_open_guides() -> (enabled: bool)
    ensures
        enabled,
{
    true
}

pub fn default_reset_conf_shortcut() -> (keys: String)
    ensures
        keys@ == "Alt+Shift+P"@,
{
    "Alt+Shift+P".to_string()
}

pub fn default_go_next_step_shortcut() -> (keys: String)
    ensures
        keys@ == "CommandOrControl+Shift+E"@,
{
    "CommandOrControl+Shift+E".to_string()
}

pub fn default_go_previous_step_shortcut() -> (keys: String)
    ensures
        keys@ == "CommandOrControl+Shift+A"@,
{
    "CommandOrControl+Shift+A".to_string()
}

pub fn default_copy_current_step_shortcut() -> (keys: String)
    ensures
        keys@ == "CommandOrControl+Shift+C"@,
{
    "CommandOrControl+Shift+C".to_string()
}

#[derive(Debug)]
pub enum Error {
    /// The stored document could not be read as a configuration.
    Malformed(String),
    CreateConfDir(String),
    ConfDir(String),
    SerializeConf(String),
    UnhandledIo(String),
    SaveConf(String),
    /// `profile_in_use` names no profile of the document.
    GetProfileInUse,
    ResetConf(Box<Error>),
}

#[derive(Debug, Clone, Copy, PartialEq, Eq, Structural)]
pub enum ConfLang {
    En,
    Fr,
    Es,
    Pt,
}

#[derive(Debug, Clone, Copy, PartialEq, Eq, Structural)]
pub enum FontSize {
    ExtraSmall,
    Small,
    Normal,
    Large,
    ExtraLarge,
}

#[derive(Debug)]
pub struct Shortcuts {
    pub reset_conf: String,
    pub go_next_step: String,
    pub go_previous_step: String,
    pub copy_current_step: String,
}

#[verifier::ext_equal]
pub struct ShortcutsView {
    pub reset_conf: Seq<char>,
    pub go_next_step: Seq<char>,
    pub go_previous_step: Seq<char>,
    pub copy_current_step: Seq<char>,
}

impl View for Shortcuts {
    type V = ShortcutsView;

    open spec fn view(&self) -> ShortcutsView {
        ShortcutsView {
            reset_conf: self.reset_conf@,
            go_next_step: self.go_next_step@,
            go_previous_step: self.go_previous_step@,
            copy_current_step: self.copy_current_step@,
        }
    }
}

/// The checkboxes ticked in one step of a guide.
#[derive(Debug)]
pub struct ConfStep {
    pub checkboxes: Vec<u32>,
}

impl View for ConfStep {
    type V = Seq<u32>;

    open spec fn view(&self) -> Seq<u32> {
        self.checkboxes@
    }
}

/// What one profile has recorded for one guide.
#[derive(Debug)]
pub struct Progress {
    /// The guide's id.
    pub id: u32,
    pub current_step: u32,
    /// Sparse: only the steps with recorded state.
    pub steps: HashMap<u32, ConfStep>,
    /// When the record was last confirmed by the server, if ever.
    pub updated_at: Option<String>,
}

#[verifier::ext_equal]
pub struct ProgressView {
    pub id: u32,
    pub current_step: u32,
    pub steps: Map<u32, Seq<u32>>,
    pub updated_at: Option<Seq<char>>,
}

pub open spec fn steps_view(steps: Map<u32, ConfStep>) -> Map<u32, Seq<u32>> {
    steps.map_values(|step: ConfStep| step@)
}

pub open spec fn text_view(text: Option<String>) -> Option<Seq<char>> {
    match text {
        Some(t) => Some(t@),
        None => None,
    }
}

impl View for Progress {
    type V = ProgressView;

    open spec fn view(&self) -> ProgressView {
        ProgressView {
            id: self.id,
            current_step: self.current_step,
            steps: steps_view(self.steps@),
            updated_at: text_view(self.updated_at),
        }
    }
}

#[derive(Debug)]
pub struct Profile {
    /// Generated once; the key under which the server knows the profile.
    pub id: String,
    pub name: String,
    pub level: u32,
    /// The server's id for the profile, once it has been synchronised.
    pub server_id: Option<u32>,
    pub progresses: Vec<Progress>,
}

#[verifier::ext_equal]
pub struct ProfileView {
    pub id: Seq<char>,
    pub name: Seq<char>,
    pub level: u32,
    pub server_id: Option<u32>,
    pub progresses: Seq<ProgressView>,
}

pub open spec fn progresses_view(progresses: Seq<Progress>) -> Seq<ProgressView> {
    progresses.map_values(|p: Progress| p@)
}

impl View for Profile {
    type V = ProfileView;

    open spec fn view(&self) -> ProfileView {
        ProfileView {
            id: self.id@,
            name: self.name@,
            level: self.level,
            server_id: self.server_id,
            progresses: progresses_view(self.progresses@),
        }
    }
}

#[derive(Debug)]
pub struct AutoPilot {
    pub name: String,
    pub position: String,
}

#[derive(Debug)]
pub struct Note {
    pub name: String,
    pub text: String,
}

/// The root document, one per installation.
#[derive(Debug)]
pub struct Conf {
    pub auto_travel_copy: bool,
    pub show_done_guides: bool,
    pub lang: ConfLang,
    pub font_size: FontSize,
    pub profiles: Vec<Profile>,
    /// Id of the profile that the user plays with.
    pub profile_in_use: String,
    pub auto_pilots: Vec<AutoPilot>,
    pub notes: Vec<Note>,
    /// The window's opacity, as the bit pattern of an IEEE 754 single.
    pub opacity: u32,
    pub auto_open_guides: bool,
    pub shortcuts: Shortcuts,
}

#[verifier::ext_equal]
pub struct ConfView {
    pub auto_travel_copy: bool,
    pub show_done_guides: bool,
    pub lang: ConfLang,
    pub font_size: FontSize,
    pub profiles: Seq<ProfileView>,
    pub profile_in_use: Seq<char>,
    pub auto_pilots: Seq<(Seq<char>, Seq<char>)>,
    pub notes: Seq<(Seq<char>, Seq<char>)>,
    pub opacity: u32,
    pub auto_open_guides: bool,
    pub shortcuts: ShortcutsView,
}

pub open spec fn profiles_view(profiles: Seq<Profile>) -> Seq<ProfileView> {
    profiles.map_values(|p: Profile| p@)
}

pub open spec fn auto_pilots_view(pilots: Seq<AutoPilot>) -> Seq<(Seq<char>, Seq<char>)> {
    pilots.map_values(|p: AutoPilot| (p.name@, p.position@))
}

pub open spec fn notes_view(notes: Seq<Note>) -> Seq<(Seq<char>, Seq<char>)> {
    notes.map_values(|n: Note| (n.name@, n.text@))
}

impl View for Conf {
    type V = ConfView;

    open spec fn view(&self) -> ConfView {
        ConfView {
            auto_travel_copy: self.auto_travel_copy,
            show_done_guides: self.show_done_guides,
            lang: self.lang,
            font_size: self.font_size,
            profiles: profiles_view(self.profiles@),
            profile_in_use: self.profile_in_use@,
            auto_pilots: auto_pilots_view(self.auto_pilots@),
            notes: notes_view(self.notes@),
            opacity: self.opacity,
            auto_open_guides: self.auto_open_guides,
            shortcuts: self.shortcuts@,
        }
    }
}

impl Clone for ConfStep {
    fn clone(&self) -> (copy: Self)
        ensures
            copy@ == self@,
    {
        ConfStep { checkboxes: self.checkboxes.clone() }
    }
}

impl Default for ConfStep {
    fn default() -> (step: Self)
        ensures
            step@ == Seq::<u32>::empty(),
    {
        ConfStep { checkboxes: Vec::new() }
    }
}

impl Clone for Progress {
    fn clone(&self) -> (copy: Self)
        ensures
            copy@ == self@,
    {
        Progress {
            id: self.id,
            current_step: self.current_step,
            steps: self.steps.clone(),
            updated_at: self.updated_at.clone(),
        }
    }
}

impl Clone for Profile {
    fn clone(&self) -> (copy: Self)
        ensures
            copy@ == self@,
    {
        let progresses = self.progresses.clone();
        assert(progresses_view(progresses@) =~= progresses_view(self.progresses@));
        Profile {
            id: self.id.clone(),
            name: self.name.clone(),
            level: self.level,
            server_id: self.server_id,
            progresses,
        }
    }
}

impl Clone for Shortcuts {
    fn clone(&self) -> (copy: Self)
        ensures
            copy@ == self@,
    {
        Shortcuts {
            reset_conf: self.reset_conf.clone(),
            go_next_step: self.go_next_step.clone(),
            go_previous_step: self.go_previous_step.clone(),
            copy_current_step: self.copy_current_step.clone(),
        }
    }
}

impl Default for Shortcuts {
    fn default() -> (shortcuts: Self)
        ensures
            shortcuts@ == default_shortcuts(),
    {
        Shortcuts {
            reset_conf: default_reset_conf_shortcut(),
            go_next_step: default_go_next_step_shortcut(),
            go_previous_step: default_go_previous_step_shortcut(),
            copy_current_step: default_copy_current_step_shortcut(),
        }
    }
}

pub open spec fn default_shortcuts() -> ShortcutsView {
    ShortcutsView {
        reset_conf: "Alt+Shift+P"@,
        go_next_step: "CommandOrControl+Shift+E"@,
        go_previous_step: "CommandOrControl+Shift+A"@,
        copy_current_step: "CommandOrControl+Shift+C"@,
    }
}

impl Clone for AutoPilot {
    fn clone(&self) -> (copy: Self)
        ensures
            copy.name@ == self.name@,
            copy.position@ == self.position@,
    {
        AutoPilot { name: self.name.clone(), position: self.position.clone() }
    }
}

impl Clone for Note {
    fn clone(&self) -> (copy: Self)
        ensures
            copy.name@ == self.name@,
            copy.text@ == self.text@,
    {
        Note { name: self.name.clone(), text: self.text.clone() }
    }
}

impl Clone for Conf {
    fn clone(&self) -> (copy: Self)
        ensures
            copy@ == self@,
    {
        let profiles = self.profiles.clone();
        let auto_pilots = self.auto_pilots.clone();
        let notes = self.notes.clone();
        assert(profiles_view(profiles@) =~= profiles_view(self.profiles@));
        assert(auto_pilots_view(auto_pilots@) =~= auto_pilots_view(self.auto_pilots@));
        assert(notes_view(notes@) =~= notes_view(self.notes@));
        Conf {
            auto_travel_copy: self.auto_travel_copy,
            show_done_guides: self.show_done_guides,
            lang: self.lang,
            font_size: self.font_size,
            profiles,
            profile_in_use: self.profile_in_use.clone(),
            auto_pilots,
            notes,
            opacity: self.opacity,
            auto_open_guides: self.auto_open_guides,
            shortcuts: self.shortcuts.clone(),
        }
    }
}

impl Default for ConfLang {
    fn default() -> (lang: Self)
        ensures
            lang == ConfLang::Fr,
    {
        ConfLang::Fr
    }
}

impl Default for FontSize {
    fn default() -> (size: Self)
        ensures
            size == FontSize::Normal,
    {
        FontSize::Normal
    }
}

// ---------------------------------------------------------------------------
// The model
// ---------------------------------------------------------------------------

/// The checkboxes after `checkbox` was ticked or unticked: a checkbox that is
/// there leaves (its first occurrence), one that is not is added at the end.
pub open spec fn toggled(boxes: Seq<u32>, checkbox: u32) -> Seq<u32> {
    if boxes.contains(checkbox) {
        boxes.remove_value(checkbox)
    } else {
        boxes.push(checkbox)
    }
}

/// The checkboxes recorded for a step; none where the step has no record.
pub open spec fn step_boxes(steps: Map<u32, Seq<u32>>, step_index: u32) -> Seq<u32> {
    if steps.contains_key(step_index) {
        steps[step_index]
    } else {
        Seq::empty()
    }
}

/// The record of a guide that nobody has opened yet.
pub open spec fn new_progress(guide_id: u32) -> ProgressView {
    ProgressView { id: guide_id, current_step: 0, steps: Map::empty(), updated_at: None }
}

pub open spec fn progress_toggled(progress: ProgressView, step_index: u32, checkbox: u32)
    -> ProgressView {
    ProgressView {
        steps: progress.steps.insert(
            step_index,
            toggled(step_boxes(progress.steps, step_index), checkbox),
        ),
        ..progress
    }
}

pub open spec fn progress_ids(progresses: Seq<ProgressView>) -> Seq<u32> {
    progresses.map_values(|p: ProgressView| p.id)
}

/// Where the first record for `guide_id` stands among `progresses`.
pub open spec fn progress_position(progresses: Seq<ProgressView>, guide_id: u32) -> Option<int> {
    progress_ids(progresses).index_of_first(guide_id)
}

pub open spec fn profile_ids(profiles: Seq<ProfileView>) -> Seq<Seq<char>> {
    profiles.map_values(|p: ProfileView| p.id)
}

/// Where the first profile with the id `id` stands among `profiles`.
pub open spec fn profile_position(profiles: Seq<ProfileView>, id: Seq<char>) -> Option<int> {
    profile_ids(profiles).index_of_first(id)
}

pub open spec fn profile_toggled(
    profile: ProfileView,
    guide_id: u32,
    step_index: u32,
    checkbox: u32,
) -> ProfileView {
    match progress_position(profile.progresses, guide_id) {
        Some(at) => ProfileView {
            progresses: profile.progresses.update(
                at,
                progress_toggled(profile.progresses[at], step_index, checkbox),
            ),
            ..profile
        },
        None => ProfileView {
            progresses: profile.progresses.push(
                progress_toggled(new_progress(guide_id), step_index, checkbox),
            ),
            ..profile
        },
    }
}

/// The document after a checkbox of a guide's step was toggled for the
/// profile in use. Meant for documents whose `profile_in_use` resolves.
pub open spec fn guide_checkbox_toggled(
    conf: ConfView,
    guide_id: u32,
    step_index: u32,
    checkbox: u32,
) -> ConfView
    recommends
        profile_position(conf.profiles, conf.profile_in_use) is Some,
{
    let at = profile_position(conf.profiles, conf.profile_in_use).unwrap();
    ConfView {
        profiles: conf.profiles.update(
            at,
            profile_toggled(conf.profiles[at], guide_id, step_index, checkbox),
        ),
        ..conf
    }
}

/// The opacity that is stored for `bits`: a number in range stays (negative
/// zero too), a number below zero becomes zero, and everything else becomes
/// the maximum: a number above it, and what is not a number.
pub open spec fn clamped_opacity(bits: u32) -> u32 {
    if opacity_in_range(bits) {
        bits
    } else if OPACITY_NEGATIVE_ZERO < bits <= OPACITY_NEGATIVE_INFINITY {
        0
    } else {
        OPACITY_MAX
    }
}

/// `bits` is not the pattern of any number.
pub open spec fn opacity_is_nan(bits: u32) -> bool {
    OPACITY_INFINITY < bits < OPACITY_NEGATIVE_ZERO || OPACITY_NEGATIVE_INFINITY < bits
}

/// `bits` stands for a number from zero to the maximum, both included.
pub open spec fn opacity_in_range(bits: u32) -> bool {
    bits <= OPACITY_MAX || bits == OPACITY_NEGATIVE_ZERO
}

pub open spec fn default_profile(id: Seq<char>) -> ProfileView {
    ProfileView {
        id,
        name: "Player"@,
        level: DEFAULT_LEVEL,
        server_id: None,
        progresses: Seq::empty(),
    }
}

/// The document of a first run, whose one profile has the id `id`.
pub open spec fn default_conf(id: Seq<char>) -> ConfView {
    ConfView {
        auto_travel_copy: true,
        show_done_guides: true,
        lang: ConfLang::Fr,
        font_size: FontSize::Normal,
        profiles: seq![default_profile(id)],
        profile_in_use: id,
        auto_pilots: Seq::empty(),
        notes: Seq::empty(),
        opacity: OPACITY_MAX,
        auto_open_guides: true,
        shortcuts: default_shortcuts(),
    }
}

// ---------------------------------------------------------------------------
// Validity
// ---------------------------------------------------------------------------

impl ProgressView {
    /// No step lists a checkbox twice.
    pub open spec fn valid(self) -> bool {
        forall|k: u32| #[trigger] self.steps.contains_key(k) ==> self.steps[k].no_duplicates()
    }
}

impl ProfileView {
    /// At most one record per guide, each of them valid.
    pub open spec fn valid(self) -> bool {
        &&& progress_ids(self.progresses).no_duplicates()
        &&& forall|i: int| 0 <= i < self.progresses.len() ==> (#[trigger] self.progresses[i]).valid()
    }
}

impl ConfView {
    /// The profile in use exists, and every profile is valid.
    pub open spec fn valid(self) -> bool {
        &&& profile_position(self.profiles, self.profile_in_use) is Some
        &&& forall|i: int| 0 <= i < self.profiles.len() ==> (#[trigger] self.profiles[i]).valid()
    }
}

// ---------------------------------------------------------------------------
// View lemmas
// ---------------------------------------------------------------------------

pub proof fn lemma_steps_view_insert(steps: Map<u32, ConfStep>, key: u32, step: ConfStep)
    ensures
        steps_view(steps.insert(key, step)) == steps_view(steps).insert(key, step@),
{
    assert(steps_view(steps.insert(key, step)) =~= steps_view(steps).insert(key, step@));
}

pub proof fn lemma_progresses_view_update(progresses: Seq<Progress>, at: int, progress: Progress)
    requires
        0 <= at < progresses.len(),
    ensures
        progresses_view(progresses.update(at, progress)) == progresses_view(progresses).update(
            at,
            progress@,
        ),
{
    assert(progresses_view(progresses.update(at, progress)) =~= progresses_view(progresses).update(
        at,
        progress@,
    ));
}

pub proof fn lemma_progresses_view_push(progresses: Seq<Progress>, progress: Progress)
    ensures
        progresses_view(progresses.push(progress)) == progresses_view(progresses).push(progress@),
{
    assert(progresses_view(progresses.push(progress)) =~= progresses_view(progresses).push(
        progress@,
    ));
}

pub proof fn lemma_profiles_view_update(profiles: Seq<Profile>, at: int, profile: Profile)
    requires
        0 <= at < profiles.len(),
    ensures
        profiles_view(profiles.update(at, profile)) == profiles_view(profiles).update(at, profile@),
{
    assert(profiles_view(profiles.update(at, profile)) =~= profiles_view(profiles).update(
        at,
        profile@,
    ));
}

pub proof fn lemma_profiles_view_push(profiles: Seq<Profile>, profile: Profile)
    ensures
        profiles_view(profiles.push(profile)) == profiles_view(profiles).push(profile@),
{
    assert(profiles_view(profiles.push(profile)) =~= profiles_view(profiles).push(profile@));
}

// ---------------------------------------------------------------------------
// Progress
// ---------------------------------------------------------------------------

/// Records `step` for `step_index` unless the step has a record already,
/// which then stays.
pub fn add_or_update_progress_step(progress: &mut Progress, step: ConfStep, step_index: u32)
    ensures
        final(progress)@ == (ProgressView {
            steps: if old(progress)@.steps.contains_key(step_index) {
                old(progress)@.steps
            } else {
                old(progress)@.steps.insert(step_index, step@)
            },
            ..old(progress)@
        }),
{
    broadcast use vstd::std_specs::hash::group_hash_axioms;
    let ghost before = progress.steps@;
    let kept = match progress.steps.get(&step_index) {
        Some(s) => s.clone(),
        None => step,
    };
    progress.steps.insert(step_index, kept);
    proof {
        lemma_steps_view_insert(before, step_index, kept);
        assert(final(progress)@.steps =~= if old(progress)@.steps.contains_key(step_index) {
            old(progress)@.steps
        } else {
            old(progress)@.steps.insert(step_index, step@)
        });
    }
}

pub fn create_progress(id: u32) -> (progress: Progress)
    ensures
        progress@ == new_progress(id),
{
    let progress = Progress { id, current_step: 0, steps: HashMap::new(), updated_at: None };
    assert(progress@.steps =~= Map::empty());
    progress
}

/// Index of the first record for `guide_id`.
pub fn find_progress(progresses: &Vec<Progress>, guide_id: u32) -> (found: Option<usize>)
    ensures
        match found {
            Some(at) => at < progresses.len() && progress_position(
                progresses_view(progresses@),
                guide_id,
            ) == Some(at as int),
            None => progress_position(progresses_view(progresses@), guide_id) is None,
        },
{
    let ghost ids = progress_ids(progresses_view(progresses@));
    let mut i: usize = 0;
    while i < progresses.len()
        invariant
            i <= progresses.len(),
            ids == progress_ids(progresses_view(progresses@)),
            forall|j: int| 0 <= j < i ==> ids[j] != guide_id,
        decreases progresses.len() - i,
    {
        if progresses[i].id == guide_id {
            proof {
                crate::lookup::lemma_first_index(ids, guide_id, i as int);
            }
            return Some(i);
        }
        i += 1;
    }
    proof {
        crate::lookup::lemma_no_index(ids, guide_id);
    }
    None
}

/// The profile's record for `guide_id`, created first where there is none.
pub fn get_profile_progress_mut(profile: &mut Profile, guide_id: u32) -> (progress: &mut Progress)
    ensures
        match progress_position(old(profile)@.progresses, guide_id) {
            Some(at) => {
                &&& *progress == old(profile).progresses[at]
                &&& final(profile).progresses@ == old(profile).progresses@.update(
                    at,
                    *final(progress),
                )
            },
            None => {
                &&& progress@ == new_progress(guide_id)
                &&& final(profile).progresses@ == old(profile).progresses@.push(*final(progress))
            },
        },
        final(profile).id == old(profile).id,
        final(profile).name == old(profile).name,
        final(profile).level == old(profile).level,
        final(profile).server_id == old(profile).server_id,
{
    match find_progress(&profile.progresses, guide_id) {
        Some(at) => &mut profile.progresses[at],
        None => {
            profile.progresses.push(create_progress(guide_id));
            let last: usize = profile.progresses.len() - 1;
            &mut profile.progresses[last]
        },
    }
}

/// Ticks the checkbox if it is not ticked, unticks it if it is.
pub fn toggle_conf_step_checkbox(step: &mut ConfStep, checkbox_index: u32)
    ensures
        final(step)@ == toggled(old(step)@, checkbox_index),
{
    let ghost before = step@;
    let mut i: usize = 0;
    while i < step.checkboxes.len()
        invariant
            i <= step.checkboxes.len(),
            step@ == before,
            before == old(step)@,
            forall|j: int| 0 <= j < i ==> before[j] != checkbox_index,
        decreases step.checkboxes.len() - i,
    {
        if step.checkboxes[i] == checkbox_index {
            proof {
                crate::lookup::lemma_first_index(before, checkbox_index, i as int);
                assert(before.contains(checkbox_index));
            }
            step.checkboxes.remove(i);
            return;
        }
        i += 1;
    }
    step.checkboxes.push(checkbox_index);
}

// ---------------------------------------------------------------------------
// The document
// ---------------------------------------------------------------------------

impl Default for Profile {
    /// A profile named "Player" under a freshly generated id.
    fn default() -> (profile: Self)
        ensures
            profile@ == default_profile(profile.id@),
            crate::ids::is_id_text(profile.id@),
    {
        let profile = Profile {
            id: new_id(),
            name: "Player".to_string(),
            level: DEFAULT_LEVEL,
            server_id: None,
            progresses: Vec::new(),
        };
        assert(profile@.progresses =~= Seq::empty());
        profile
    }
}

impl Default for Conf {
    /// The document of a first run: one default profile, which is in use.
    fn default() -> (conf: Self)
        ensures
            conf@ == default_conf(conf.profile_in_use@),
            crate::ids::is_id_text(conf.profile_in_use@),
    {
        let default_profile = Profile::default();
        let default_profile_id = default_profile.id.clone();
        let ghost profile_view = default_profile@;
        let mut profiles: Vec<Profile> = Vec::new();
        profiles.push(default_profile);
        let conf = Conf {
            auto_travel_copy: true,
            show_done_guides: true,
            lang: ConfLang::default(),
            font_size: FontSize::default(),
            profiles,
            profile_in_use: default_profile_id,
            auto_pilots: Vec::new(),
            notes: Vec::new(),
            opacity: OPACITY_MAX,
            auto_open_guides: default_auto_open_guides(),
            shortcuts: Shortcuts::default(),
        };
        assert(conf@.profiles =~= seq![profile_view]);
        assert(conf@.auto_pilots =~= Seq::empty());
        assert(conf@.notes =~= Seq::empty());
        conf
    }
}

/// The document to work with where the stored one could not be read: a
/// fresh default where the file does not exist, else the failure.
pub fn conf_without_file(not_found: bool, detail: String) -> (result: Result<Conf, Error>)
    ensures
        match result {
            Ok(conf) => not_found && conf@ == default_conf(conf.profile_in_use@)
                && crate::ids::is_id_text(conf.profile_in_use@),
            Err(e) => !not_found && e == Error::UnhandledIo(detail),
        },
{
    if not_found {
        Ok(Conf::default())
    } else {
        Err(Error::UnhandledIo(detail))
    }
}

/// Index of the first profile whose id is `id`.
pub fn find_profile(profiles: &Vec<Profile>, id: &String) -> (found: Option<usize>)
    ensures
        match found {
            Some(at) => at < profiles.len() && profile_position(profiles_view(profiles@), id@)
                == Some(at as int),
            None => profile_position(profiles_view(profiles@), id@) is None,
        },
{
    let ghost ids = profile_ids(profiles_view(profiles@));
    let mut i: usize = 0;
    while i < profiles.len()
        invariant
            i <= profiles.len(),
            ids == profile_ids(profiles_view(profiles@)),
            forall|j: int| 0 <= j < i ==> ids[j] != id@,
        decreases profiles.len() - i,
    {
        if profiles[i].id == *id {
            proof {
                crate::lookup::lemma_first_index(ids, id@, i as int);
            }
            return Some(i);
        }
        i += 1;
    }
    proof {
        crate::lookup::lemma_no_index(ids, id@);
    }
    None
}

/// The profile that the document names as the one in use.
pub fn get_conf_profile_in_use_mut(conf: &mut Conf) -> (result: Result<&mut Profile, Error>)
    ensures
        match profile_position(old(conf)@.profiles, old(conf)@.profile_in_use) {
            Some(at) => {
                &&& result matches Ok(profile)
                &&& *profile == old(conf).profiles[at]
                &&& *final(conf) == (Conf {
                    profiles: final(conf).profiles,
                    ..*old(conf)
                })
                &&& final(conf).profiles@ == old(conf).profiles@.update(at, *final(profile))
            },
            None => {
                &&& result matches Err(Error::GetProfileInUse)
                &&& *final(conf) == *old(conf)
            },
        },
{
    match find_profile(&conf.profiles, &conf.profile_in_use) {
        Some(at) => Ok(&mut conf.profiles[at]),
        None => Err(Error::GetProfileInUse),
    }
}

/// Brings the opacity into the range that may be stored, whatever it holds;
/// what is not a number becomes the maximum, as a fresh document has it.
pub fn normalize_conf(conf: &mut Conf)
    ensures
        final(conf)@ == (ConfView { opacity: clamped_opacity(old(conf).opacity), ..old(conf)@ }),
{
    let bits: u32 = conf.opacity;
    if bits <= OPACITY_MAX || bits == OPACITY_NEGATIVE_ZERO {
    } else if OPACITY_NEGATIVE_ZERO < bits && bits <= OPACITY_NEGATIVE_INFINITY {
        conf.opacity = 0;
    } else {
        conf.opacity = OPACITY_MAX;
    }
}

#[derive(Debug, Clone, Copy)]
pub struct ConfApiImpl;

impl ConfApiImpl {
    /// Toggles one checkbox of one step of a guide for the profile in use,
    /// creating the guide's record and the step's where they are missing.
    /// Fails, leaving the document as it is, where the profile in use does
    /// not exist.
    pub fn toggle_guide_checkbox(
        self,
        conf: &mut Conf,
        guide_id: u32,
        step_index: u32,
        checkbox_index: u32,
    ) -> (result: Result<u32, Error>)
        ensures
            match profile_position(old(conf)@.profiles, old(conf)@.profile_in_use) {
                Some(_) => {
                    &&& result matches Ok(index)
                    &&& index == checkbox_index
                    &&& final(conf)@ == guide_checkbox_toggled(
                        old(conf)@,
                        guide_id,
                        step_index,
                        checkbox_index,
                    )
                },
                None => {
                    &&& result matches Err(Error::GetProfileInUse)
                    &&& *final(conf) == *old(conf)
                },
            },
    {
        broadcast use vstd::std_specs::hash::group_hash_axioms;
        let ghost before = *conf;
        let ghost at = profile_position(before@.profiles, before@.profile_in_use);
        proof {
            crate::lookup::lemma_index_of_first(profile_ids(before@.profiles), before@.profile_in_use);
        }
        let profile = match get_conf_profile_in_use_mut(conf) {
            Ok(profile) => profile,
            Err(e) => { return Err(e); },
        };
        let ghost profile_before = *profile;
        let ghost spot = progress_position(profile_before@.progresses, guide_id);
        proof {
            crate::lookup::lemma_index_of_first(progress_ids(profile_before@.progresses), guide_id);
        }
        let progress = get_profile_progress_mut(profile, guide_id);
        let ghost progress_before = *progress;

        let step = match progress.steps.get(&step_index) {
            Some(existing) => {
                let mut step = existing.clone();
                toggle_conf_step_checkbox(&mut step, checkbox_index);
                progress.steps.insert(step_index, step.clone());
                step
            },
            None => {
                let mut step = ConfStep::default();
                toggle_conf_step_checkbox(&mut step, checkbox_index);
                step
            },
        };
        add_or_update_progress_step(progress, step, step_index);

        proof {
            let toggled_progress = progress_toggled(progress_before@, step_index, checkbox_index);
            assert(progress@.steps =~= toggled_progress.steps);
            assert(progress@ == toggled_progress);
            match spot {
                Some(s) => {
                    lemma_progresses_view_update(profile_before.progresses@, s, *progress);
                },
                None => {
                    lemma_progresses_view_push(profile_before.progresses@, *progress);
                },
            }
            assert(profile@ == profile_toggled(
                profile_before@,
                guide_id,
                step_index,
                checkbox_index,
            ));
            lemma_profiles_view_update(before.profiles@, at.unwrap(), *profile);
        }
        Ok(checkbox_index)
    }
}

// ---------------------------------------------------------------------------
// Laws
// ---------------------------------------------------------------------------

/// Toggling keeps a list of checkboxes free of repetitions, and flips whether
/// the checkbox is in it, leaving every other checkbox as it was.
pub proof fn law_toggle_flips_membership(boxes: Seq<u32>, checkbox: u32)
    requires
        boxes.no_duplicates(),
    ensures
        toggled(boxes, checkbox).no_duplicates(),
        toggled(boxes, checkbox).contains(checkbox) == !boxes.contains(checkbox),
        forall|other: u32|
            other != checkbox ==> toggled(boxes, checkbox).contains(other) == boxes.contains(other),
{
    let after = toggled(boxes, checkbox);
    crate::lookup::lemma_index_of_first(boxes, checkbox);
    if boxes.contains(checkbox) {
        let at = boxes.index_of_first(checkbox).unwrap();
        assert(after =~= boxes.remove(at));
        assert forall|j: int| 0 <= j < after.len() implies after[j] == boxes[if j < at {
            j
        } else {
            j + 1
        }] by {}
        assert forall|other: u32| other != checkbox implies after.contains(other)
            == boxes.contains(other) by {
            if boxes.contains(other) {
                let k = choose|k: int| 0 <= k < boxes.len() && boxes[k] == other;
                let j = if k < at { k } else { k - 1 };
                assert(after[j] == other);
            }
        }
    } else {
        assert(after[boxes.len() as int] == checkbox);
        assert forall|other: u32| other != checkbox implies after.contains(other)
            == boxes.contains(other) by {
            if boxes.contains(other) {
                let k = choose|k: int| 0 <= k < boxes.len() && boxes[k] == other;
                assert(after[k] == other);
            }
        }
    }
}

/// Toggling the same checkbox twice gives back the set of checkboxes that
/// the step had.
pub proof fn law_toggle_twice(boxes: Seq<u32>, checkbox: u32)
    requires
        boxes.no_duplicates(),
    ensures
        toggled(toggled(boxes, checkbox), checkbox).to_set() == boxes.to_set(),
{
    let once = toggled(boxes, checkbox);
    let twice = toggled(once, checkbox);
    law_toggle_flips_membership(boxes, checkbox);
    law_toggle_flips_membership(once, checkbox);
    assert forall|v: u32| twice.to_set().contains(v) == boxes.to_set().contains(v) by {
        assert(twice.to_set().contains(v) == twice.contains(v));
        assert(boxes.to_set().contains(v) == boxes.contains(v));
    }
    assert(twice.to_set() =~= boxes.to_set());
}

/// The checkboxes that the document holds for a step of a guide, for the
/// profile in use; none where the guide or the step has no record.
pub open spec fn recorded_boxes(conf: ConfView, guide_id: u32, step_index: u32) -> Seq<u32>
    recommends
        profile_position(conf.profiles, conf.profile_in_use) is Some,
{
    let profile = conf.profiles[profile_position(conf.profiles, conf.profile_in_use).unwrap()];
    match progress_position(profile.progresses, guide_id) {
        Some(at) => step_boxes(profile.progresses[at].steps, step_index),
        None => Seq::empty(),
    }
}

/// Toggling keeps the profile in use, the place of every profile and of
/// every record that was there, and sets the step's checkboxes to the
/// toggled ones.
pub proof fn law_toggle_records(conf: ConfView, guide_id: u32, step_index: u32, checkbox: u32)
    requires
        profile_position(conf.profiles, conf.profile_in_use) is Some,
    ensures
        ({
            let after = guide_checkbox_toggled(conf, guide_id, step_index, checkbox);
            &&& profile_ids(after.profiles) == profile_ids(conf.profiles)
            &&& after.profile_in_use == conf.profile_in_use
            &&& recorded_boxes(after, guide_id, step_index) == toggled(
                recorded_boxes(conf, guide_id, step_index),
                checkbox,
            )
        }),
{
    let after = guide_checkbox_toggled(conf, guide_id, step_index, checkbox);
    let at = profile_position(conf.profiles, conf.profile_in_use).unwrap();
    crate::lookup::lemma_index_of_first(profile_ids(conf.profiles), conf.profile_in_use);
    assert(profile_ids(after.profiles) =~= profile_ids(conf.profiles));
    let profile = conf.profiles[at];
    let profile_after = after.profiles[at];
    let ids = progress_ids(profile.progresses);
    crate::lookup::lemma_index_of_first(ids, guide_id);
    match progress_position(profile.progresses, guide_id) {
        Some(spot) => {
            assert(progress_ids(profile_after.progresses) =~= ids);
        },
        None => {
            let ids_after = progress_ids(profile_after.progresses);
            assert(ids_after =~= ids.push(guide_id));
            crate::lookup::lemma_first_index(ids_after, guide_id, ids.len() as int);
        },
    }
}

/// Toggling the same checkbox of the same step twice gives back the set of
/// checkboxes that the document held for the step.
pub proof fn law_toggle_guide_checkbox_twice(
    conf: ConfView,
    guide_id: u32,
    step_index: u32,
    checkbox: u32,
)
    requires
        conf.valid(),
    ensures
        ({
            let once = guide_checkbox_toggled(conf, guide_id, step_index, checkbox);
            let twice = guide_checkbox_toggled(once, guide_id, step_index, checkbox);
            recorded_boxes(twice, guide_id, step_index).to_set() == recorded_boxes(
                conf,
                guide_id,
                step_index,
            ).to_set()
        }),
{
    let once = guide_checkbox_toggled(conf, guide_id, step_index, checkbox);
    law_toggle_records(conf, guide_id, step_index, checkbox);
    law_toggle_records(once, guide_id, step_index, checkbox);
    let boxes = recorded_boxes(conf, guide_id, step_index);
    assert(boxes.no_duplicates()) by {
        let at = profile_position(conf.profiles, conf.profile_in_use).unwrap();
        crate::lookup::lemma_index_of_first(profile_ids(conf.profiles), conf.profile_in_use);
        let profile = conf.profiles[at];
        assert(profile.valid());
        crate::lookup::lemma_index_of_first(progress_ids(profile.progresses), guide_id);
        match progress_position(profile.progresses, guide_id) {
            Some(spot) => {
                assert(profile.progresses[spot].valid());
            },
            None => {},
        }
    }
    law_toggle_twice(boxes, checkbox);
}

/// Toggling a checkbox for a guide without a record adds exactly one record
/// at the end: at step zero, never synchronised, with the one step holding
/// the one checkbox.
pub proof fn law_toggle_creates_progress(
    conf: ConfView,
    guide_id: u32,
    step_index: u32,
    checkbox: u32,
)
    requires
        profile_position(conf.profiles, conf.profile_in_use) is Some,
        progress_position(
            conf.profiles[profile_position(
                conf.profiles,
                conf.profile_in_use,
            ).unwrap()].progresses,
            guide_id,
        ) is None,
    ensures
        ({
            let at = profile_position(conf.profiles, conf.profile_in_use).unwrap();
            let after = guide_checkbox_toggled(conf, guide_id, step_index, checkbox);
            after.profiles[at].progresses == conf.profiles[at].progresses.push(
                ProgressView {
                    id: guide_id,
                    current_step: 0,
                    steps: map![step_index => seq![checkbox]],
                    updated_at: None,
                },
            )
        }),
{
    let at = profile_position(conf.profiles, conf.profile_in_use).unwrap();
    crate::lookup::lemma_index_of_first(profile_ids(conf.profiles), conf.profile_in_use);
    let created = progress_toggled(new_progress(guide_id), step_index, checkbox);
    assert(toggled(Seq::<u32>::empty(), checkbox) =~= seq![checkbox]);
    assert(created.steps =~= map![step_index => seq![checkbox]]);
}

/// Toggling keeps a valid document valid.
pub proof fn law_toggle_keeps_valid(conf: ConfView, guide_id: u32, step_index: u32, checkbox: u32)
    requires
        conf.valid(),
    ensures
        guide_checkbox_toggled(conf, guide_id, step_index, checkbox).valid(),
{
    let after = guide_checkbox_toggled(conf, guide_id, step_index, checkbox);
    let at = profile_position(conf.profiles, conf.profile_in_use).unwrap();
    crate::lookup::lemma_index_of_first(profile_ids(conf.profiles), conf.profile_in_use);
    law_toggle_records(conf, guide_id, step_index, checkbox);
    let profile = conf.profiles[at];
    let profile_after = after.profiles[at];
    assert(profile.valid());
    let ids = progress_ids(profile.progresses);
    crate::lookup::lemma_index_of_first(ids, guide_id);
    assert(profile_after.valid()) by {
        match progress_position(profile.progresses, guide_id) {
            Some(spot) => {
                let p = profile.progresses[spot];
                assert(p.valid());
                let q = progress_toggled(p, step_index, checkbox);
                if p.steps.contains_key(step_index) {
                    assert(p.steps[step_index].no_duplicates());
                }
                law_toggle_flips_membership(step_boxes(p.steps, step_index), checkbox);
                assert(q.valid());
                assert(progress_ids(profile_after.progresses) =~= ids);
                assert forall|i: int| 0 <= i < profile_after.progresses.len() implies (
                #[trigger] profile_after.progresses[i]).valid() by {
                    if i != spot {
                        assert(profile.progresses[i].valid());
                    }
                }
            },
            None => {
                let q = progress_toggled(new_progress(guide_id), step_index, checkbox);
                law_toggle_flips_membership(Seq::<u32>::empty(), checkbox);
                assert(q.valid());
                assert(progress_ids(profile_after.progresses) =~= ids.push(guide_id));
                assert forall|i: int| 0 <= i < profile_after.progresses.len() implies (
                #[trigger] profile_after.progresses[i]).valid() by {
                    if i < profile.progresses.len() {
                        assert(profile.progresses[i].valid());
                    }
                }
            },
        }
    }
    assert forall|i: int| 0 <= i < after.profiles.len() implies (#[trigger] after.profiles[i]).valid() by {
        if i != at {
            assert(conf.profiles[i].valid());
        }
    }
}

/// The document of a first run is valid, has exactly one profile, which is
/// the one in use, and the greatest opacity that may be stored.
pub proof fn law_default_conf(id: Seq<char>)
    ensures
        default_conf(id).valid(),
        default_conf(id).profiles.len() == 1,
        default_conf(id).profiles[0].id == default_conf(id).profile_in_use,
        default_conf(id).opacity == OPACITY_MAX,
{
    let conf = default_conf(id);
    assert(profile_ids(conf.profiles)[0] == id);
    crate::lookup::lemma_first_index(profile_ids(conf.profiles), id, 0);
    assert(progress_ids(conf.profiles[0].progresses) =~= Seq::empty());
}

/// A stored opacity always stands for a number from zero to the maximum. A
/// number in range is stored as it is, so storing again changes nothing; a
/// number below zero is stored as zero, a number above the maximum and what
/// is no number as the maximum.
pub proof fn law_opacity_clamp(bits: u32)
    ensures
        opacity_in_range(clamped_opacity(bits)),
        !opacity_is_nan(clamped_opacity(bits)),
        opacity_in_range(bits) ==> clamped_opacity(bits) == bits,
        clamped_opacity(clamped_opacity(bits)) == clamped_opacity(bits),
        OPACITY_NEGATIVE_ZERO < bits <= OPACITY_NEGATIVE_INFINITY ==> clamped_opacity(bits) == 0,
        OPACITY_MAX < bits <= OPACITY_INFINITY ==> clamped_opacity(bits) == OPACITY_MAX,
        opacity_is_nan(bits) ==> clamped_opacity(bits) == OPACITY_MAX,
{
}

} // verus!
