//! Quests as the game's database describes them.

use vstd::prelude::*;

verus! {

#[derive(Debug)]
pub enum Error {
    RequestQuest(String),
    RequestQuestContent(String),
    DofusDbQuestMalformed(String),
}

#[derive(Debug, Clone)]
pub struct QuestData {
    pub data: Vec<Quest>,
}

#[derive(Debug, Clone)]
pub struct Quest {
    pub id: u32,
    pub steps: Vec<QuestStep>,
}

#[derive(Debug, Clone)]
pub struct QuestDescription {
    pub en: String,
    pub es: String,
    pub fr: String,
    pub pt: String,
}

#[derive(Debug, Clone)]
pub struct QuestStep {
    pub description: QuestDescription,
    pub optimal_level: u32,
    /// The bit pattern of an IEEE 754 single.
    pub duration: u32,
    pub objectives: Vec<QuestObjective>,
    pub rewards: Vec<QuestReward>,
}

#[derive(Debug, Clone, Copy, PartialEq, Eq, Structural)]
pub struct QuestReward {
    pub level_max: i32,
    /// The bit pattern of an IEEE 754 single.
    pub kamas_ratio: u32,
    /// The bit pattern of an IEEE 754 single.
    pub experience_ratio: u32,
    pub kamas_scale_with_player_level: bool,
}

#[derive(Debug, Clone)]
pub struct QuestObjective {
    pub id: u32,
    pub need: QuestNeed,
}

#[derive(Debug, Clone)]
pub struct QuestNeed {
    pub generated: QuestGenerated,
}

#[derive(Debug, Clone)]
pub struct QuestGenerated {
    pub dungeons: Vec<u32>,
    pub items: Vec<u32>,
    pub quantities: Vec<u32>,
}

impl QuestData {
    /// The data holds a quest whose first step is there.
    pub open spec fn has_first_step(&self) -> bool {
        self.data.len() > 0 && self.data[0].steps.len() > 0
    }

    /// The data holds a quest whose first step has a reward.
    pub open spec fn has_first_reward(&self) -> bool {
        self.has_first_step() && self.data[0].steps[0].rewards.len() > 0
    }

    pub fn level_max(&self) -> (level: i32)
        requires
            self.has_first_reward(),
        ensures
            level == self.data[0].steps[0].rewards[0].level_max,
    {
        self.data[0].steps[0].rewards[0].level_max
    }

    /// The ratio's bit pattern.
    pub fn kamas_ratio(&self) -> (ratio: u32)
        requires
            self.has_first_reward(),
        ensures
            ratio == self.data[0].steps[0].rewards[0].kamas_ratio,
    {
        self.data[0].steps[0].rewards[0].kamas_ratio
    }

    pub fn kamas_scale_with_player_level(&self) -> (scales: bool)
        requires
            self.has_first_reward(),
        ensures
            scales == self.data[0].steps[0].rewards[0].kamas_scale_with_player_level,
    {
        self.data[0].steps[0].rewards[0].kamas_scale_with_player_level
    }

    pub fn optimal_level(&self) -> (level: u32)
        requires
            self.has_first_step(),
        ensures
            level == self.data[0].steps[0].optimal_level,
    {
        self.data[0].steps[0].optimal_level
    }

    /// The duration's bit pattern.
    pub fn duration(&self) -> (duration: u32)
        requires
            self.has_first_step(),
        ensures
            duration == self.data[0].steps[0].duration,
    {
        self.data[0].steps[0].duration
    }

    /// The ratio's bit pattern.
    pub fn experience_ratio(&self) -> (ratio: u32)
        requires
            self.has_first_reward(),
        ensures
            ratio == self.data[0].steps[0].rewards[0].experience_ratio,
    {
        self.data[0].steps[0].rewards[0].experience_ratio
    }
}

} // verus!
