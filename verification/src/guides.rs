//! Guides as they are kept on the machine: the list of guides, the list of
//! the guides opened last, and the summary of a guide's quests.

use vstd::prelude::*;

use crate::order::{lemma_inserted_at, lemma_sorted_step, stably_sorted};

verus! {

/// The guide that is fetched on the first start.
pub const DEFAULT_GUIDE_ID: u32 = 1074;

/// How many guides the list of the guides opened last holds at most.
pub const RECENT_GUIDES_LIMIT: usize = 6;

#[derive(Debug)]
pub enum Error {
    Pattern(String),
    ReadGuidesDirGlob(String),
    ReadGuideFile(String),
    ReadRecentGuidesFile(String),
    GuideMalformed(String),
    RecentGuidesFileMalformed(String),
    SerializeGuide(String),
    SerializeRecentGuidesFile(String),
    CreateGuidesDir(String),
    WriteGuideFile(String),
    WriteRecentGuidesFile(String),
    RequestGuide(String),
    RequestGuideContent(String),
    RequestGuides(String),
    RequestGuidesContent(String),
    GuideWithStepsMalformed(String),
    GuidesMalformed(String),
    ReadGuidesDir(String),
    /// No guide with this id is kept on the machine.
    GetGuideInSystem(u32),
    DeleteGuideFileInSystem(String),
    DeleteGuideFolderInSystem(String),
    Opener(String),
}

#[derive(Debug, Clone, Copy, PartialEq, Eq, Structural)]
pub enum GuideLang {
    En,
    Fr,
    Es,
    Pt,
}

#[derive(Debug, Clone, Copy, PartialEq, Eq, Structural)]
pub enum GameType {
    Dofus,
    Wakfu,
}

impl Default for GameType {
    fn default() -> (game: Self)
        ensures
            game == GameType::Dofus,
    {
        GameType::Dofus
    }
}

#[derive(Debug, Clone, Copy, PartialEq, Eq, Structural)]
pub enum Status {
    Draft,
    Public,
    Private,
    Certified,
    Gp,
}

/// What a quest block of a step says of its quest, with the step's number
/// (the first step has the number one).
#[derive(Debug, Clone, Copy, PartialEq, Eq, Hash, Structural)]
pub enum SummaryQuestStatus {
    Setup(u32),
    Started(u32),
    InProgress(u32),
    Completed(u32),
}

#[derive(Debug, Clone)]
pub enum GuidesOrFolder {
    Guide(GuideWithSteps),
    Folder(Folder),
}

#[derive(Debug, Clone)]
pub enum UpdateAllAtOnceResult {
    Success,
    Failure(String),
}

#[allow(inconsistent_fields)]
#[derive(Debug, Clone)]
pub enum GuideOrFolderToDelete {
    Guide { id: u32, folder: Option<String> },
    Folder { folder: String },
}

#[derive(Debug, Clone)]
pub struct User {
    pub id: u32,
    pub name: String,
    pub is_admin: u8,
    pub is_certified: u8,
}

#[derive(Debug, Clone)]
pub struct GuideStep {
    pub name: Option<String>,
    pub map: Option<String>,
    pub pos_x: i32,
    pub pos_y: i32,
    pub web_text: String,
}

/// A guide as the server lists it.
#[derive(Debug, Clone)]
pub struct Guide {
    pub id: u32,
    pub name: String,
    pub status: Status,
    pub likes: u32,
    pub dislikes: u32,
    pub downloads: Option<u32>,
    pub created_at: String,
    pub deleted_at: Option<String>,
    pub updated_at: Option<String>,
    pub lang: GuideLang,
    pub game_type: GameType,
    pub order: u32,
    pub user: User,
    pub user_id: u32,
    pub description: Option<String>,
    pub web_description: Option<String>,
    pub node_image: Option<String>,
}

/// A guide as it is kept on the machine, with its steps.
#[derive(Debug, Clone)]
pub struct GuideWithSteps {
    pub id: u32,
    pub name: String,
    pub description: Option<String>,
    pub status: Status,
    pub likes: u32,
    pub dislikes: u32,
    pub downloads: Option<u32>,
    pub deleted_at: Option<String>,
    pub updated_at: Option<String>,
    pub lang: GuideLang,
    pub game_type: GameType,
    pub order: u32,
    pub user: User,
    pub web_description: Option<String>,
    pub node_image: Option<String>,
    pub steps: Vec<GuideStep>,
    /// The directory that holds the guide's file.
    pub folder: Option<String>,
}

#[derive(Debug, Clone)]
pub struct Guides {
    pub guides: Vec<GuideWithSteps>,
}

impl Default for Guides {
    fn default() -> (guides: Self)
        ensures
            guides.guides@ == Seq::<GuideWithSteps>::empty(),
    {
        Guides { guides: Vec::new() }
    }
}

#[derive(Debug, Clone)]
pub struct Folder {
    pub name: String,
}

#[derive(Debug, Clone)]
pub struct Summary {
    pub quests: Vec<QuestSummary>,
}

/// A quest of a guide with what its blocks say of it, step by step.
#[derive(Debug, Clone)]
pub struct QuestSummary {
    pub name: String,
    pub statuses: Vec<SummaryQuestStatus>,
}

/// The guides opened last, the latest first.
pub type RecentGuides = Vec<u32>;

// ---------------------------------------------------------------------------
// Status
// ---------------------------------------------------------------------------

pub open spec fn status_text(status: Status) -> Seq<char> {
    match status {
        Status::Draft => "draft"@,
        Status::Public => "public"@,
        Status::Private => "private"@,
        Status::Certified => "certified"@,
        Status::Gp => "gp"@,
    }
}

impl Status {
    /// The status as the server spells it.
    pub fn to_str(&self) -> (text: &'static str)
        ensures
            text@ == status_text(*self),
    {
        match self {
            Status::Draft => "draft",
            Status::Public => "public",
            Status::Private => "private",
            Status::Certified => "certified",
            Status::Gp => "gp",
        }
    }

    pub fn to_string(&self) -> (text: String)
        ensures
            text@ == status_text(*self),
    {
        self.to_str().to_string()
    }
}

// ---------------------------------------------------------------------------
// The list of guides
// ---------------------------------------------------------------------------

pub open spec fn guide_ids(guides: Seq<GuideWithSteps>) -> Seq<u32> {
    guides.map_values(|g: GuideWithSteps| g.id)
}

/// Where the first guide with the id `id` stands among `guides`.
pub open spec fn guide_position(guides: Seq<GuideWithSteps>, id: u32) -> Option<int> {
    guide_ids(guides).index_of_first(id)
}

/// Index of the first guide with the id `id`.
pub fn find_guide(guides: &Vec<GuideWithSteps>, id: u32) -> (found: Option<usize>)
    ensures
        match found {
            Some(at) => at < guides.len() && guides[at as int].id == id && guide_position(
                guides@,
                id,
            ) == Some(at as int) && guide_ids(guides@).contains(id),
            None => guide_position(guides@, id) is None && !guide_ids(guides@).contains(id),
        },
{
    let ghost ids = guide_ids(guides@);
    let mut i: usize = 0;
    while i < guides.len()
        invariant
            i <= guides.len(),
            ids == guide_ids(guides@),
            forall|j: int| 0 <= j < i ==> ids[j] != id,
        decreases guides.len() - i,
    {
        if guides[i].id == id {
            proof {
                crate::lookup::lemma_first_index(ids, id, i as int);
                assert(ids[i as int] == id);
            }
            return Some(i);
        }
        i += 1;
    }
    proof {
        crate::lookup::lemma_no_index(ids, id);
    }
    None
}

/// Whether a guide with the id `guide_id` is kept.
pub fn check_guide_exists(guides: &Guides, guide_id: u32) -> (exists: bool)
    ensures
        exists == guide_ids(guides.guides@).contains(guide_id),
{
    find_guide(&guides.guides, guide_id).is_some()
}

/// Puts `guide` in the place of the first guide with its id, or at the end
/// where there is none.
pub fn add_or_replace_guide(guides: &mut Guides, guide: GuideWithSteps) -> (result: Result<
    (),
    Error,
>)
    ensures
        result is Ok,
        final(guides).guides@ == match guide_position(old(guides).guides@, guide.id) {
            Some(at) => old(guides).guides@.update(at, guide),
            None => old(guides).guides@.push(guide),
        },
{
    match find_guide(&guides.guides, guide.id) {
        Some(index) => {
            guides.guides[index] = guide;
        },
        None => {
            guides.guides.push(guide);
        },
    }
    Ok(())
}

/// Adds `guide` at the end unless a guide with its id is there already:
/// of the files of one guide, the first that was read counts.
pub fn add_guide_once(guides: &mut Vec<GuideWithSteps>, guide: GuideWithSteps)
    ensures
        final(guides)@ == if guide_ids(old(guides)@).contains(guide.id) {
            old(guides)@
        } else {
            old(guides)@.push(guide)
        },
{
    if find_guide(guides, guide.id).is_none() {
        guides.push(guide);
    }
}

/// Whether the server has, for a guide that is kept, another date of
/// update than the kept guide has (the first kept guide with the id counts).
pub open spec fn needs_update(server: Seq<Guide>, system: Seq<GuideWithSteps>) -> bool {
    exists|i: int|
        0 <= i < server.len() && #[trigger] outdated(server[i], system)
}

/// Whether `guide`, as the server lists it, is kept with another date of
/// update.
pub open spec fn outdated(guide: Guide, system: Seq<GuideWithSteps>) -> bool {
    match guide_position(system, guide.id) {
        Some(at) => crate::conf::text_view(guide.updated_at) != crate::conf::text_view(
            system[at].updated_at,
        ),
        None => false,
    }
}

fn same_text(a: &Option<String>, b: &Option<String>) -> (same: bool)
    ensures
        same == (crate::conf::text_view(*a) == crate::conf::text_view(*b)),
{
    match (a, b) {
        (Some(x), Some(y)) => *x == *y,
        (None, None) => true,
        _ => false,
    }
}

pub fn check_guides_need_update(guides_in_server: &Vec<Guide>, guides_in_system: &Guides) -> (needed:
    bool)
    ensures
        needed == needs_update(guides_in_server@, guides_in_system.guides@),
{
    let mut i: usize = 0;
    while i < guides_in_server.len()
        invariant
            i <= guides_in_server.len(),
            forall|j: int| 0 <= j < i ==> !outdated(guides_in_server[j], guides_in_system.guides@),
        decreases guides_in_server.len() - i,
    {
        let guide = &guides_in_server[i];
        match find_guide(&guides_in_system.guides, guide.id) {
            Some(at) => {
                if !same_text(&guide.updated_at, &guides_in_system.guides[at].updated_at) {
                    assert(outdated(guides_in_server[i as int], guides_in_system.guides@));
                    return true;
                }
            },
            None => {},
        }
        i += 1;
    }
    false
}

// ---------------------------------------------------------------------------
// The guides opened last
// ---------------------------------------------------------------------------

/// The list after `guide_id` was opened: a guide that is not in the list
/// comes to the front, and the last guide leaves where the list would hold
/// more than six.
pub open spec fn recent_after_open(recent: Seq<u32>, guide_id: u32) -> Seq<u32> {
    if recent.contains(guide_id) {
        recent
    } else if recent.len() + 1 > RECENT_GUIDES_LIMIT {
        recent.insert(0, guide_id).drop_last()
    } else {
        recent.insert(0, guide_id)
    }
}

/// After a guide was opened it is in the list, and a list of six guides at
/// most is still one.
pub proof fn law_recent_guides_bounded(recent: Seq<u32>, guide_id: u32)
    requires
        recent.len() <= RECENT_GUIDES_LIMIT,
    ensures
        recent_after_open(recent, guide_id).len() <= RECENT_GUIDES_LIMIT,
        recent_after_open(recent, guide_id).contains(guide_id),
{
    let after = recent_after_open(recent, guide_id);
    if !recent.contains(guide_id) {
        assert(after[0] == guide_id);
    }
}

fn contains_id(ids: &Vec<u32>, id: u32) -> (found: bool)
    ensures
        found == ids@.contains(id),
{
    let mut i: usize = 0;
    while i < ids.len()
        invariant
            i <= ids.len(),
            forall|j: int| 0 <= j < i ==> ids[j] != id,
        decreases ids.len() - i,
    {
        if ids[i] == id {
            return true;
        }
        i += 1;
    }
    false
}

/// Notes that `guide_id` was opened. Returns whether the list changed and
/// has to be stored.
pub fn register_guide_open(recent_guides: &mut RecentGuides, guide_id: u32) -> (changed: bool)
    ensures
        final(recent_guides)@ == recent_after_open(old(recent_guides)@, guide_id),
        changed == !old(recent_guides)@.contains(guide_id),
{
    if !contains_id(recent_guides, guide_id) {
        recent_guides.insert(0, guide_id);
        if recent_guides.len() > RECENT_GUIDES_LIMIT {
            recent_guides.pop();
        }
        true
    } else {
        false
    }
}

/// Notes that `guide_id` was closed: it leaves the list, wherever it stands.
pub fn register_guide_close(recent_guides: &mut RecentGuides, guide_id: u32)
    ensures
        final(recent_guides)@ == old(recent_guides)@.filter(|id: u32| id != guide_id),
{
    let ghost before = recent_guides@;
    let ghost keep = |id: u32| id != guide_id;
    let mut kept: Vec<u32> = Vec::new();
    let mut i: usize = 0;
    assert(before.take(0) =~= Seq::empty());
    while i < recent_guides.len()
        invariant
            i <= recent_guides.len(),
            recent_guides@ == before,
            keep == |id: u32| id != guide_id,
            kept@ == before.take(i as int).filter(keep),
        decreases recent_guides.len() - i,
    {
        let id: u32 = recent_guides[i];
        proof {
            assert(before.take(i + 1).drop_last() =~= before.take(i as int));
            reveal(Seq::filter);
        }
        if id != guide_id {
            kept.push(id);
        }
        i += 1;
    }
    assert(before.take(before.len() as int) =~= before);
    *recent_guides = kept;
}

/// The guides opened last that are still kept, in the list's order.
pub fn get_recent_guides(recent_guides: &RecentGuides, guides_in_system: &Guides) -> (recent:
    RecentGuides)
    ensures
        recent@ == recent_guides@.filter(
            |id: u32| guide_ids(guides_in_system.guides@).contains(id),
        ),
{
    let ghost keep = |id: u32| guide_ids(guides_in_system.guides@).contains(id);
    let mut kept: Vec<u32> = Vec::new();
    let mut i: usize = 0;
    assert(recent_guides@.take(0) =~= Seq::empty());
    while i < recent_guides.len()
        invariant
            i <= recent_guides.len(),
            keep == |id: u32| guide_ids(guides_in_system.guides@).contains(id),
            kept@ == recent_guides@.take(i as int).filter(keep),
        decreases recent_guides.len() - i,
    {
        let id: u32 = recent_guides[i];
        proof {
            assert(recent_guides@.take(i + 1).drop_last() =~= recent_guides@.take(i as int));
            reveal(Seq::filter);
        }
        if find_guide(&guides_in_system.guides, id).is_some() {
            kept.push(id);
        }
        i += 1;
    }
    assert(recent_guides@.take(recent_guides@.len() as int) =~= recent_guides@);
    kept
}

// ---------------------------------------------------------------------------
// The summary of a guide's quests: the model
// ---------------------------------------------------------------------------

/// What a quest block of a step's text carries: the quest's name and what
/// the block says of the quest, each where the block has the attribute.
#[derive(Debug, Clone)]
pub struct QuestBlock {
    pub quest_name: Option<String>,
    pub status: Option<String>,
}

pub struct QuestBlockView {
    pub quest_name: Option<Seq<char>>,
    pub status: Option<Seq<char>>,
}

impl View for QuestBlock {
    type V = QuestBlockView;

    open spec fn view(&self) -> QuestBlockView {
        QuestBlockView {
            quest_name: crate::conf::text_view(self.quest_name),
            status: crate::conf::text_view(self.status),
        }
    }
}

pub open spec fn blocks_view(blocks: Seq<QuestBlock>) -> Seq<QuestBlockView> {
    blocks.map_values(|b: QuestBlock| b@)
}

pub open spec fn steps_blocks_view(steps: Seq<Vec<QuestBlock>>) -> Seq<Seq<QuestBlockView>> {
    steps.map_values(|blocks: Vec<QuestBlock>| blocks_view(blocks@))
}

#[verifier::ext_equal]
pub struct QuestSummaryView {
    pub name: Seq<char>,
    pub statuses: Seq<SummaryQuestStatus>,
}

impl View for QuestSummary {
    type V = QuestSummaryView;

    open spec fn view(&self) -> QuestSummaryView {
        QuestSummaryView { name: self.name@, statuses: self.statuses@ }
    }
}

pub open spec fn quests_view(quests: Seq<QuestSummary>) -> Seq<QuestSummaryView> {
    quests.map_values(|q: QuestSummary| q@)
}

impl View for Summary {
    type V = Seq<QuestSummaryView>;

    open spec fn view(&self) -> Seq<QuestSummaryView> {
        quests_view(self.quests@)
    }
}

/// The number of the step at place `place` of a guide: one more than the
/// place (and zero again past the largest number).
pub open spec fn step_number(place: int) -> u32 {
    ((place + 1) % 0x1_0000_0000) as u32
}

/// What a block with the status `text` in the step `step` says.
pub open spec fn status_of(text: Seq<char>, step: u32) -> Option<SummaryQuestStatus> {
    if text == "setup"@ {
        Some(SummaryQuestStatus::Setup(step))
    } else if text == "start"@ {
        Some(SummaryQuestStatus::Started(step))
    } else if text == "in_progress"@ {
        Some(SummaryQuestStatus::InProgress(step))
    } else if text == "end"@ {
        Some(SummaryQuestStatus::Completed(step))
    } else {
        None
    }
}

/// The step that a status belongs to.
pub open spec fn status_step(status: SummaryQuestStatus) -> u32 {
    match status {
        SummaryQuestStatus::Setup(step) => step,
        SummaryQuestStatus::Started(step) => step,
        SummaryQuestStatus::InProgress(step) => step,
        SummaryQuestStatus::Completed(step) => step,
    }
}

pub open spec fn quest_names(quests: Seq<QuestSummaryView>) -> Seq<Seq<char>> {
    quests.map_values(|q: QuestSummaryView| q.name)
}

/// The quests after the status `status` was noted for the quest `name`: a
/// new quest comes last; a known one gets the status unless it has it.
pub open spec fn status_recorded(
    quests: Seq<QuestSummaryView>,
    name: Seq<char>,
    status: SummaryQuestStatus,
) -> Seq<QuestSummaryView> {
    match quest_names(quests).index_of_first(name) {
        Some(at) => if quests[at].statuses.contains(status) {
            quests
        } else {
            quests.update(
                at,
                QuestSummaryView { statuses: quests[at].statuses.push(status), ..quests[at] },
            )
        },
        None => quests.push(QuestSummaryView { name, statuses: seq![status] }),
    }
}

/// The quests after one block of the step `step` was read. A block without
/// a name, without a status or with an unknown status changes nothing.
pub open spec fn block_recorded(quests: Seq<QuestSummaryView>, block: QuestBlockView, step: u32) -> Seq<
    QuestSummaryView,
> {
    match (block.quest_name, block.status) {
        (Some(name), Some(text)) => match status_of(text, step) {
            Some(status) => status_recorded(quests, name, status),
            None => quests,
        },
        _ => quests,
    }
}

pub open spec fn blocks_recorded(
    quests: Seq<QuestSummaryView>,
    blocks: Seq<QuestBlockView>,
    step: u32,
) -> Seq<QuestSummaryView>
    decreases blocks.len(),
{
    if blocks.len() == 0 {
        quests
    } else {
        block_recorded(blocks_recorded(quests, blocks.drop_last(), step), blocks.last(), step)
    }
}

/// The quests after the blocks of every step were read, step by step.
pub open spec fn steps_recorded(steps: Seq<Seq<QuestBlockView>>) -> Seq<QuestSummaryView>
    decreases steps.len(),
{
    if steps.len() == 0 {
        Seq::empty()
    } else {
        blocks_recorded(
            steps_recorded(steps.drop_last()),
            steps.last(),
            step_number(steps.len() - 1),
        )
    }
}

pub open spec fn status_key() -> spec_fn(SummaryQuestStatus) -> int {
    |status: SummaryQuestStatus| status_step(status) as int
}

/// The step of the first status that is more than a setup.
pub open spec fn first_progress_step(statuses: Seq<SummaryQuestStatus>) -> Option<u32>
    decreases statuses.len(),
{
    if statuses.len() == 0 {
        None
    } else {
        match statuses[0] {
            SummaryQuestStatus::Setup(_) => first_progress_step(statuses.drop_first()),
            other => Some(status_step(other)),
        }
    }
}

/// The place of a quest in the summary: quests that go beyond a setup come
/// first, by the step in which they do; the others follow, by their first
/// step.
pub open spec fn quest_rank(quest: QuestSummaryView) -> int {
    match first_progress_step(quest.statuses) {
        Some(step) => step as int,
        None => 0x1_0000_0000 + if quest.statuses.len() > 0 {
            status_step(quest.statuses[0]) as int
        } else {
            0
        },
    }
}

pub open spec fn quest_key() -> spec_fn(QuestSummaryView) -> int {
    |quest: QuestSummaryView| quest_rank(quest)
}

pub open spec fn statuses_sorted(quests: Seq<QuestSummaryView>) -> Seq<QuestSummaryView> {
    quests.map_values(
        |q: QuestSummaryView|
            QuestSummaryView { statuses: stably_sorted(q.statuses, status_key()), ..q },
    )
}

/// The summary of a guide whose steps hold the blocks `steps`: every quest
/// that a block names, with its statuses in the order of their steps, the
/// quests in the order of their ranks.
pub open spec fn summary_of(steps: Seq<Seq<QuestBlockView>>) -> Seq<QuestSummaryView> {
    stably_sorted(statuses_sorted(steps_recorded(steps)), quest_key())
}

/// The selector of the elements that are quest blocks.
pub const QUEST_BLOCK_SELECTOR: &'static str = "[data-type='quest-block']";

/// The attribute of a quest block that names the quest.
pub const QUEST_NAME_ATTRIBUTE: &'static str = "questname";

/// The attribute of a quest block that says what the block does.
pub const QUEST_STATUS_ATTRIBUTE: &'static str = "status";

pub open spec fn selection_view(found: Option<Vec<QuestBlock>>) -> Option<Seq<QuestBlockView>> {
    match found {
        Some(blocks) => Some(blocks_view(blocks@)),
        None => None,
    }
}

/// What the `scraper` crate selects in an HTML text: for each element that
/// the selector matches, in the order in which the crate yields them, the
/// values of the two attributes; nothing where the selector is refused.
pub uninterp spec fn html_selection(
    html: Seq<char>,
    selector: Seq<char>,
    first: Seq<char>,
    second: Seq<char>,
) -> Option<Seq<QuestBlockView>>;

/// Reads `selector` with `scraper::Selector::parse`, parses `html` as a
/// document with `scraper::Html::parse_document` and walks the elements
/// that `Html::select` yields. Each element becomes one block, in that
/// order, holding what `Element::attr` returns for `first` and for
/// `second`. A selector that is refused gives nothing. The contract names
/// the result: the same four texts give the same result.
#[verifier::external_body]
pub(crate) fn select_attributes(html: &str, selector: &str, first: &str, second: &str) -> (found:
    Option<Vec<QuestBlock>>)
    ensures
        selection_view(found) == html_selection(html@, selector@, first@, second@),
{
    let selector = scraper::Selector::parse(selector).ok()?;
    let document = scraper::Html::parse_document(html);
    Some(
        document.select(&selector).map(
            |element| QuestBlock {
                quest_name: element.value().attr(first).map(String::from),
                status: element.value().attr(second).map(String::from),
            },
        ).collect(),
    )
}

/// The quest blocks of a step's text: the elements that the selector of
/// quest blocks matches, each with its quest's name and its status. (A
/// selector that were refused would select nothing.)
pub open spec fn quest_blocks_of(web_text: Seq<char>) -> Seq<QuestBlockView> {
    match html_selection(
        web_text,
        QUEST_BLOCK_SELECTOR@,
        QUEST_NAME_ATTRIBUTE@,
        QUEST_STATUS_ATTRIBUTE@,
    ) {
        Some(blocks) => blocks,
        None => Seq::empty(),
    }
}

/// The quest blocks of a step's text.
pub fn quest_blocks(web_text: &str) -> (blocks: Vec<QuestBlock>)
    ensures
        blocks_view(blocks@) == quest_blocks_of(web_text@),
{
    match select_attributes(
        web_text,
        QUEST_BLOCK_SELECTOR,
        QUEST_NAME_ATTRIBUTE,
        QUEST_STATUS_ATTRIBUTE,
    ) {
        Some(blocks) => blocks,
        None => {
            let blocks: Vec<QuestBlock> = Vec::new();
            assert(blocks_view(blocks@) =~= Seq::empty());
            blocks
        },
    }
}

// ---------------------------------------------------------------------------
// The summary of a guide's quests: the code
// ---------------------------------------------------------------------------

fn step_of(status: &SummaryQuestStatus) -> (step: u32)
    ensures
        step == status_step(*status),
{
    match status {
        SummaryQuestStatus::Setup(step) => *step,
        SummaryQuestStatus::Started(step) => *step,
        SummaryQuestStatus::InProgress(step) => *step,
        SummaryQuestStatus::Completed(step) => *step,
    }
}

/// What a block with the status `text` in the step `step` says, if
/// anything.
pub fn status_from_text(text: &str, step: u32) -> (status: Option<SummaryQuestStatus>)
    ensures
        status == status_of(text@, step),
{
    if crate::text::text_equal(text, "setup") {
        Some(SummaryQuestStatus::Setup(step))
    } else if crate::text::text_equal(text, "start") {
        Some(SummaryQuestStatus::Started(step))
    } else if crate::text::text_equal(text, "in_progress") {
        Some(SummaryQuestStatus::InProgress(step))
    } else if crate::text::text_equal(text, "end") {
        Some(SummaryQuestStatus::Completed(step))
    } else {
        None
    }
}

fn find_quest(quests: &Vec<QuestSummary>, name: &String) -> (found: Option<usize>)
    ensures
        match found {
            Some(at) => at < quests.len() && quest_names(quests_view(quests@)).index_of_first(
                name@,
            ) == Some(at as int),
            None => quest_names(quests_view(quests@)).index_of_first(name@) is None,
        },
{
    let ghost names = quest_names(quests_view(quests@));
    let mut i: usize = 0;
    while i < quests.len()
        invariant
            i <= quests.len(),
            names == quest_names(quests_view(quests@)),
            forall|j: int| 0 <= j < i ==> names[j] != name@,
        decreases quests.len() - i,
    {
        if quests[i].name == *name {
            proof {
                crate::lookup::lemma_first_index(names, name@, i as int);
            }
            return Some(i);
        }
        i += 1;
    }
    proof {
        crate::lookup::lemma_no_index(names, name@);
    }
    None
}

fn has_status(statuses: &Vec<SummaryQuestStatus>, status: SummaryQuestStatus) -> (found: bool)
    ensures
        found == statuses@.contains(status),
{
    let mut i: usize = 0;
    while i < statuses.len()
        invariant
            i <= statuses.len(),
            forall|j: int| 0 <= j < i ==> statuses[j] != status,
        decreases statuses.len() - i,
    {
        if statuses[i] == status {
            return true;
        }
        i += 1;
    }
    false
}

proof fn lemma_quests_view_update(quests: Seq<QuestSummary>, at: int, quest: QuestSummary)
    requires
        0 <= at < quests.len(),
    ensures
        quests_view(quests.update(at, quest)) == quests_view(quests).update(at, quest@),
{
    assert(quests_view(quests.update(at, quest)) =~= quests_view(quests).update(at, quest@));
}

proof fn lemma_quests_view_push(quests: Seq<QuestSummary>, quest: QuestSummary)
    ensures
        quests_view(quests.push(quest)) == quests_view(quests).push(quest@),
{
    assert(quests_view(quests.push(quest)) =~= quests_view(quests).push(quest@));
}

proof fn lemma_quests_view_insert(quests: Seq<QuestSummary>, at: int, quest: QuestSummary)
    requires
        0 <= at <= quests.len(),
    ensures
        quests_view(quests.insert(at, quest)) == quests_view(quests).insert(at, quest@),
{
    assert(quests_view(quests.insert(at, quest)) =~= quests_view(quests).insert(at, quest@));
}

proof fn lemma_quests_view_remove(quests: Seq<QuestSummary>, at: int)
    requires
        0 <= at < quests.len(),
    ensures
        quests_view(quests.remove(at)) == quests_view(quests).remove(at),
{
    assert(quests_view(quests.remove(at)) =~= quests_view(quests).remove(at));
}

/// Notes one block of the step `step`.
fn record_block(quests: &mut Vec<QuestSummary>, block: &QuestBlock, step: u32)
    ensures
        quests_view(final(quests)@) == block_recorded(quests_view(old(quests)@), block@, step),
{
    let ghost before = quests@;
    match (&block.quest_name, &block.status) {
        (Some(name), Some(text)) => {
            match status_from_text(text.as_str(), step) {
                Some(status) => {
                    match find_quest(quests, name) {
                        Some(at) => {
                            if !has_status(&quests[at].statuses, status) {
                                let quest = &mut quests[at];
                                quest.statuses.push(status);
                                proof {
                                    lemma_quests_view_update(before, at as int, *quest);
                                }
                            }
                        },
                        None => {
                            let mut statuses: Vec<SummaryQuestStatus> = Vec::new();
                            statuses.push(status);
                            let quest = QuestSummary { name: name.clone(), statuses };
                            proof {
                                assert(quest@.statuses =~= seq![status]);
                                lemma_quests_view_push(before, quest);
                            }
                            quests.push(quest);
                        },
                    }
                },
                None => {},
            }
        },
        _ => {},
    }
}

/// Notes the blocks of the step `step`, in order.
fn record_blocks(quests: &mut Vec<QuestSummary>, blocks: &Vec<QuestBlock>, step: u32)
    ensures
        quests_view(final(quests)@) == blocks_recorded(
            quests_view(old(quests)@),
            blocks_view(blocks@),
            step,
        ),
{
    let ghost before = quests_view(quests@);
    let ghost incoming = blocks_view(blocks@);
    assert(incoming.take(0) =~= Seq::empty());
    let mut i: usize = 0;
    while i < blocks.len()
        invariant
            i <= blocks.len(),
            incoming == blocks_view(blocks@),
            quests_view(quests@) == blocks_recorded(before, incoming.take(i as int), step),
        decreases blocks.len() - i,
    {
        proof {
            assert(incoming.take(i + 1).drop_last() =~= incoming.take(i as int));
            assert(incoming.take(i + 1).last() == blocks[i as int]@);
        }
        record_block(quests, &blocks[i], step);
        i += 1;
    }
    assert(incoming.take(blocks.len() as int) =~= incoming);
}

/// Puts the statuses in the order of their steps; statuses of one step stay
/// in the order in which they were noted.
fn sort_statuses(statuses: &mut Vec<SummaryQuestStatus>)
    ensures
        final(statuses)@ == stably_sorted(old(statuses)@, status_key()),
{
    let ghost before = statuses@;
    let ghost key = status_key();
    let mut i: usize = 0;
    assert(before.take(0) =~= Seq::empty());
    assert(statuses@ =~= stably_sorted(before.take(0), key) + before.skip(0));
    while i < statuses.len()
        invariant
            i <= statuses.len(),
            statuses.len() == before.len(),
            key == status_key(),
            stably_sorted(before.take(i as int), key).len() == i,
            statuses@ == stably_sorted(before.take(i as int), key) + before.skip(i as int),
        decreases statuses.len() - i,
    {
        let ghost sorted = stably_sorted(before.take(i as int), key);
        let item = statuses.remove(i);
        assert(item == before[i as int]);
        assert(statuses@ =~= sorted + before.skip(i + 1));
        let mut at: usize = i;
        while at > 0 && step_of(&statuses[at - 1]) > step_of(&item)
            invariant
                at <= i,
                i <= statuses.len(),
                key == status_key(),
                sorted.len() == i,
                statuses@ == sorted + before.skip(i + 1),
                forall|k: int| at <= k < i ==> key(sorted[k]) > key(item),
            decreases at,
        {
            at -= 1;
        }
        proof {
            if at > 0 {
                assert(statuses@[at - 1] == sorted[at - 1]);
            }
            lemma_inserted_at(sorted, item, key, at as int);
            lemma_sorted_step(before, key, i as int);
            crate::order::law_stably_sorted(before.take(i + 1), key);
            assert((sorted + before.skip(i + 1)).insert(at as int, item) =~= sorted.insert(
                at as int,
                item,
            ) + before.skip(i + 1));
        }
        statuses.insert(at, item);
        i += 1;
    }
    assert(before.take(before.len() as int) =~= before);
    assert(statuses@ =~= stably_sorted(before, key));
}

fn first_progress(statuses: &Vec<SummaryQuestStatus>) -> (step: Option<u32>)
    ensures
        step == first_progress_step(statuses@),
{
    let mut i: usize = 0;
    assert(statuses@.skip(0) =~= statuses@);
    while i < statuses.len()
        invariant
            i <= statuses.len(),
            first_progress_step(statuses@) == first_progress_step(statuses@.skip(i as int)),
        decreases statuses.len() - i,
    {
        proof {
            assert(statuses@.skip(i as int).drop_first() =~= statuses@.skip(i + 1));
            assert(statuses@.skip(i as int)[0] == statuses@[i as int]);
        }
        match statuses[i] {
            SummaryQuestStatus::Setup(_) => {},
            SummaryQuestStatus::Started(step) => {
                return Some(step);
            },
            SummaryQuestStatus::InProgress(step) => {
                return Some(step);
            },
            SummaryQuestStatus::Completed(step) => {
                return Some(step);
            },
        }
        i += 1;
    }
    None
}

fn rank_of(quest: &QuestSummary) -> (rank: u64)
    ensures
        rank == quest_rank(quest@),
{
    match first_progress(&quest.statuses) {
        Some(step) => step as u64,
        None => {
            let first: u32 = if quest.statuses.len() > 0 {
                step_of(&quest.statuses[0])
            } else {
                0
            };
            0x1_0000_0000u64 + first as u64
        },
    }
}

/// Puts the quests in the order of their ranks; quests of one rank stay in
/// the order in which they were met.
fn sort_quests(quests: &mut Vec<QuestSummary>)
    ensures
        quests_view(final(quests)@) == stably_sorted(quests_view(old(quests)@), quest_key()),
{
    let ghost before = quests_view(quests@);
    let ghost key = quest_key();
    let mut i: usize = 0;
    assert(before.take(0) =~= Seq::empty());
    assert(quests_view(quests@) =~= stably_sorted(before.take(0), key) + before.skip(0));
    while i < quests.len()
        invariant
            i <= quests.len(),
            quests.len() == before.len(),
            key == quest_key(),
            stably_sorted(before.take(i as int), key).len() == i,
            quests_view(quests@) == stably_sorted(before.take(i as int), key) + before.skip(
                i as int,
            ),
        decreases quests.len() - i,
    {
        let ghost sorted = stably_sorted(before.take(i as int), key);
        let ghost whole = quests@;
        let item = quests.remove(i);
        let rank = rank_of(&item);
        proof {
            lemma_quests_view_remove(whole, i as int);
            assert(quests_view(whole)[i as int] == whole[i as int]@);
            assert((sorted + before.skip(i as int))[i as int] == before[i as int]);
            assert(item@ == before[i as int]);
            assert(quests_view(quests@) =~= sorted + before.skip(i + 1));
        }
        let mut at: usize = i;
        while at > 0 && rank_of(&quests[at - 1]) > rank
            invariant
                at <= i,
                i <= quests.len(),
                key == quest_key(),
                sorted.len() == i,
                rank == quest_rank(item@),
                quests_view(quests@) == sorted + before.skip(i + 1),
                forall|k: int| at <= k < i ==> key(sorted[k]) > key(item@),
            decreases at,
        {
            proof {
                assert(quests_view(quests@)[at - 1] == sorted[at - 1]);
            }
            at -= 1;
        }
        proof {
            if at > 0 {
                assert(quests_view(quests@)[at - 1] == sorted[at - 1]);
            }
            lemma_inserted_at(sorted, item@, key, at as int);
            lemma_sorted_step(before, key, i as int);
            crate::order::law_stably_sorted(before.take(i + 1), key);
            lemma_quests_view_insert(quests@, at as int, item);
            assert((sorted + before.skip(i + 1)).insert(at as int, item@) =~= sorted.insert(
                at as int,
                item@,
            ) + before.skip(i + 1));
        }
        quests.insert(at, item);
        i += 1;
    }
    assert(before.take(before.len() as int) =~= before);
    assert(quests_view(quests@) =~= stably_sorted(before, key));
}

/// The summary of a guide from the quest blocks of its steps, `steps`
/// holding the blocks of each step in the guide's order.
pub fn summarize(steps: &Vec<Vec<QuestBlock>>) -> (summary: Summary)
    ensures
        summary@ == summary_of(steps_blocks_view(steps@)),
{
    let ghost incoming = steps_blocks_view(steps@);
    let mut quests: Vec<QuestSummary> = Vec::new();
    assert(incoming.take(0) =~= Seq::empty());
    assert(quests_view(quests@) =~= Seq::empty());
    let mut i: usize = 0;
    while i < steps.len()
        invariant
            i <= steps.len(),
            incoming == steps_blocks_view(steps@),
            quests_view(quests@) == steps_recorded(incoming.take(i as int)),
        decreases steps.len() - i,
    {
        let number: u32 = ((((i as u64) % 0x1_0000_0000) + 1) % 0x1_0000_0000) as u32;
        proof {
            assert(incoming.take(i + 1).drop_last() =~= incoming.take(i as int));
            assert(incoming.take(i + 1).last() == blocks_view(steps[i as int]@));
            assert(number == step_number(i as int));
        }
        record_blocks(&mut quests, &steps[i], number);
        i += 1;
    }
    assert(incoming.take(steps.len() as int) =~= incoming);
    let ghost recorded = quests_view(quests@);
    let mut k: usize = 0;
    while k < quests.len()
        invariant
            k <= quests.len(),
            quests.len() == recorded.len(),
            forall|j: int|
                0 <= j < k ==> (#[trigger] quests[j])@ == (QuestSummaryView {
                    statuses: stably_sorted(recorded[j].statuses, status_key()),
                    ..recorded[j]
                }),
            forall|j: int| k <= j < quests.len() ==> (#[trigger] quests[j])@ == recorded[j],
        decreases quests.len() - k,
    {
        sort_statuses(&mut quests[k].statuses);
        k += 1;
    }
    assert(quests_view(quests@) =~= statuses_sorted(recorded));
    sort_quests(&mut quests);
    Summary { quests }
}

/// The summary of the quests of the guide with the id `guide_id`, the
/// first with that id among `guides`.
pub fn generate_guide_summary(guides: &Guides, guide_id: u32) -> (result: Result<Summary, Error>)
    ensures
        match guide_position(guides.guides@, guide_id) {
            Some(at) => result matches Ok(summary) && summary@ == summary_of(
                guide_blocks(guides.guides[at].steps@),
            ),
            None => result matches Err(Error::GetGuideInSystem(id)) && id == guide_id,
        },
{
    match find_guide(&guides.guides, guide_id) {
        Some(at) => {
            let guide = &guides.guides[at];
            let mut steps: Vec<Vec<QuestBlock>> = Vec::new();
            let mut i: usize = 0;
            while i < guide.steps.len()
                invariant
                    i <= guide.steps.len(),
                    steps.len() == i,
                    forall|j: int|
                        0 <= j < i ==> blocks_view((#[trigger] steps[j])@) == quest_blocks_of(
                            guide.steps[j].web_text@,
                        ),
                decreases guide.steps.len() - i,
            {
                steps.push(quest_blocks(guide.steps[i].web_text.as_str()));
                i += 1;
            }
            assert(steps_blocks_view(steps@) =~= guide_blocks(guide.steps@));
            Ok(summarize(&steps))
        },
        None => Err(Error::GetGuideInSystem(guide_id)),
    }
}

/// The quest blocks of each step of a guide.
pub open spec fn guide_blocks(steps: Seq<GuideStep>) -> Seq<Seq<QuestBlockView>> {
    steps.map_values(|step: GuideStep| quest_blocks_of(step.web_text@))
}

// ---------------------------------------------------------------------------
// Laws
// ---------------------------------------------------------------------------

/// Noting a status keeps every quest under its name, in its place, and
/// leaves no name with two quests where none had two.
pub proof fn law_status_recorded_names(
    quests: Seq<QuestSummaryView>,
    name: Seq<char>,
    status: SummaryQuestStatus,
)
    ensures
        quest_names(quests).is_prefix_of(quest_names(status_recorded(quests, name, status))),
        quest_names(quests).no_duplicates() ==> quest_names(
            status_recorded(quests, name, status),
        ).no_duplicates(),
        quest_names(status_recorded(quests, name, status)).contains(name),
{
    let names = quest_names(quests);
    let after = status_recorded(quests, name, status);
    crate::lookup::lemma_index_of_first(names, name);
    match names.index_of_first(name) {
        Some(at) => {
            assert(quest_names(after) =~= names);
            assert(names =~= names.subrange(0, names.len() as int));
            assert(quest_names(after)[at] == name);
        },
        None => {
            assert(quest_names(after) =~= names.push(name));
            assert(names =~= quest_names(after).subrange(0, names.len() as int));
            assert(quest_names(after)[names.len() as int] == name);
        },
    }
}

/// The summary stands in the order of the quests' ranks.
pub proof fn law_summary_in_order(steps: Seq<Seq<QuestBlockView>>)
    ensures
        crate::order::in_order(summary_of(steps), quest_key()),
        summary_of(steps).len() == steps_recorded(steps).len(),
{
    crate::order::law_stably_sorted(statuses_sorted(steps_recorded(steps)), quest_key());
}

} // verus!
